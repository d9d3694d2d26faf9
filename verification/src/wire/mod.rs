//! The wire formats: frames, addresses, request authentication and the Noise layer.

pub mod address;
pub mod auth;
pub mod frame;
pub mod noise;
pub mod octets;
pub mod radix64;
pub mod replay;
