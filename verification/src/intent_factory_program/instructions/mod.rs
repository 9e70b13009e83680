//! The solver's two instructions, as the decisions the runtime glue follows.

pub mod execute;
pub mod refund;
