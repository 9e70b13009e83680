//! The factory's account and parameter checks.

pub mod common;
pub mod route;
pub mod token;
pub mod refund;
pub mod output;
pub mod receiver;
