//! The carrier: a session inside HTTP/2, and an ordinary site for everyone else.

pub mod h2bridge;
pub mod http;
pub mod tls;
