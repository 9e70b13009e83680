//! The intent solver vault: `execute` runs CPIs out of an intent-bound PDA and
//! enforces transfer outcomes; `refund` returns the vault to its funder.

pub mod constants;
pub mod errors;
pub mod helpers;
pub mod intent_hash;
pub mod instructions;
pub mod entry;
