//! LI.FI Solana Program 1: a `TrackV1` instruction that checks a per-epoch
//! tracking account and logs a transaction id.

pub mod error;
pub mod utils;
pub mod track_v1;
pub mod processor;
