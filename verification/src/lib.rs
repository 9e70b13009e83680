//! Verified core of LI.FI's Solana programs: the intent solver vault, the
//! stateful intent factory, the two transaction-tracking programs and the
//! swap-and-bridge router. Each program's byte formats, account checks and
//! decisions are verified here; the runtime glue (account borrowing, CPIs,
//! logging) lives in the companion `app` crate.

pub mod keys;
pub mod outside;
pub mod addresses;
pub mod intent_factory_program;
pub mod intent_factory;
pub mod lifi_program_1;
pub mod transaction_tracking;
pub mod router;
