//! The shape of the traffic: how long records are, how often segments come, and how
//! much goes up for what comes down.

pub mod cadence;
pub mod sampler;
pub mod symmetrize;
