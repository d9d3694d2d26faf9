//! Profiles: one coherent appearance, from which everything observable follows.

pub mod model;
pub mod validate;
