//! Intent header encoding and the stored intent state.

pub mod intent_header;
pub mod intent_state;
