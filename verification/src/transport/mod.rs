//! Sessions: logical streams, records and the chains of keys behind them.

pub mod mux;
pub mod record;
pub mod session;
