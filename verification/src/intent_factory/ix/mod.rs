//! The factory's instructions, as the decisions the runtime glue follows.

pub mod balance_outcome;
pub mod virtual_accounts;
pub mod init_intent;
pub mod execute_intent;
pub mod refund_intent;
pub mod lifecycle;
