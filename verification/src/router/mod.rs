//! The swap-and-bridge router: checks the intermediate vault that holds a
//! swap's output, then bridges all of it through the Unit or the Across adapter.

pub mod errors;
pub mod swap_and_bridge;
pub mod adapters;
pub mod utils;
