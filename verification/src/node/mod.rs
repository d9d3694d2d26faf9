//! The ends of the tunnel: local applications and real targets.

pub mod relay;
pub mod socks;
