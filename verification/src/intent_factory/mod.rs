//! The intent factory: `init_intent` stores a canonical intent header in a PDA,
//! `execute_intent` runs route CPIs with outcome enforcement, and
//! `refund_intent` returns the funds after the deadline.

pub mod errors;
pub mod wire;
pub mod state;
pub mod guards;
pub mod hash;
pub mod pda;
pub mod ix;
