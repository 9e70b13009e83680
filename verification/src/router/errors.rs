//! Errors of the router.

use vstd::prelude::*;

verus! {

/// The router's error codes.
#[derive(Clone, Copy, Debug, PartialEq, Eq, Structural)]
pub enum ErrorCode {
    /// Intermediate vault is empty.
    EmptyVault,
    /// Swap output is below `min_amount`.
    SlippageExceeded,
    /// Unknown adapter ID.
    UnknownAdapter,
    /// Invalid adapter payload encoding.
    InvalidAdapterPayload,
    /// `unit_deposit_wallet` does not match the payload.
    DepositWalletMismatch,
    /// Invalid Unit deposit token account.
    InvalidUnitDepositAta,
    /// Invalid vault authority PDA.
    InvalidVaultAuthority,
    /// Vault token account is not a valid token account.
    InvalidVaultAccount,
    /// Invalid vault token account address (does not match the derived ATA).
    InvalidVaultAta,
    /// Vault balance changed unexpectedly.
    InsufficientVaultBalance,
    /// Insufficient adapter-specific accounts provided.
    InsufficientAccounts,
    /// Invalid Across program ID.
    InvalidAcrossProgram,
    /// Failed to create the approve instruction.
    ApproveError,
    /// The Across output amount overflows.
    MathOverflow,
}

/// How a router instruction fails: one of its codes, or the (practically
/// unreachable) case where no program address exists for a derivation, on
/// which the runtime's address search panics.
#[derive(Clone, Copy, Debug, PartialEq, Eq, Structural)]
pub enum RouterError {
    Code(ErrorCode),
    NoViableProgramAddress,
}

} // verus!
