//! Hot path: rule matching and arbitration.

pub mod arbiter;
pub mod rule;
