//! What holds of every pool, stated over its mathematical content and
//! proved once and for all.

pub mod delivery;
pub mod steps;
pub mod teardown;
