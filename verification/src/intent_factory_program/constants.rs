//! Compile-time bounds and flag bits for the intent-solver instructions.

use vstd::prelude::*;

verus! {

/// Max transfer-check legs per intent.
pub const MAX_TRANSFER_NB: u8 = 8;

/// Max inner CPIs per `execute`.
pub const MAX_CPI_NB: u8 = 16;

/// Per CPI: first account is the program id, the rest are the instruction accounts.
pub const MAX_ACC_PER_CPI: u8 = 128;

/// Max `(pos, flags)` overrides per CPI.
pub const MAX_OVERRIDE_PER_CPI: u8 = 32;

/// Override flag bit: the inner account is writable.
pub const FLAG_INNER_WRITABLE: u8 = 1;

/// Override flag bit: the inner account is a signer.
pub const FLAG_INNER_SIGNER: u8 = 2;

} // verus!
