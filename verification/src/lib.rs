//! Vlyness: a tunnel that carries multiplexed streams through what looks like an
//! ordinary HTTPS session. This crate holds its logic; sockets, TLS and HTTP/2 are
//! left to the program around it.

pub mod carrier;
pub mod config;
pub mod discipline;
pub mod node;
pub mod profile;
pub mod random;
pub mod shaping;
pub mod text;
pub mod time;
pub mod transport;
pub mod wire;
