//! The bridge adapters.

pub mod unit;
pub mod across;
