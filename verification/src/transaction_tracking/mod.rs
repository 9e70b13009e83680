//! The transaction-tracking program: the same `TrackV1` instruction as
//! LI.FI Solana Program 1, which takes both accounts before reading the clock.

pub mod utils;
pub mod track_v1;
pub mod processor;
