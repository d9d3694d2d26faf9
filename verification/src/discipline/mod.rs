//! When to connect, and when to keep still.
//!
//! What gives a client away is mostly its manners: bundles of connections, storms of
//! retries, a change of appearance under a ban. These modules decide; they open
//! nothing themselves and go by the clock and the jitter that they are given.

pub mod backoff;
pub mod blackhole;
pub mod budget;
pub mod clock;
pub mod manager;
