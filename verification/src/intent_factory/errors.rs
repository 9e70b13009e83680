//! Errors of the intent factory.

use vstd::prelude::*;
use anchor_lang::error::Error as AnchorError;

verus! {

/// Intent lifecycle and account-check failures.
#[derive(Clone, Copy, Debug, PartialEq, Eq, Structural)]
pub enum IntentError {
    /// Header bytes are malformed or non-canonical.
    MalformedHeader,
    /// v1 requires `src_mint` to be `Some` (SPL token input only).
    InvalidSrcMint,
    /// `remaining_accounts` exceeds the virtual index limit.
    TooManyRemainingAccounts,
    /// Recomputed PDA does not match the intent PDA account.
    BadIntentPda,
    /// Intent deadline has passed.
    IntentExpired,
    /// Intent has not expired yet (refund requires `now > deadline`).
    IntentNotExpired,
    /// Executor pubkey does not match `header.executor`.
    BadExecutor,
    /// Required executor is not a signer.
    ExecutorNotSigner,
    /// `source_ata` pubkey or identity check failed.
    BadSourceAta,
    /// `source_ata` data is malformed.
    SourceAccountMalformed,
    /// `source_ata.amount != header.amount_in` before the call loop.
    SourceAmountMismatch,
    /// `source_ata.amount != 0` after the call loop.
    SourceNotDrained,
    /// Outcome account is missing, collides with a named slot, or has the wrong mint.
    BadOutcomeAccount,
    /// Outcome balance delta is below the declared minimum.
    InsufficientOutcome,
    /// Inner program is on the deny-list.
    DisallowedProgram,
    /// System Program instruction is on the deny-list.
    DisallowedSystemOp,
    /// `is_signer` flag set on a non-intent-PDA account.
    InvalidSignerFlag,
    /// `user` pubkey does not match `header.user`.
    BadUser,
    /// `src_mint_account` pubkey does not match `header.src_mint`.
    BadSrcMint,
    /// `user_source_ata` pubkey does not match `ATA(user, src_mint)`.
    BadUserSourceAta,
    /// Intent PDA has already been initialized.
    IntentAlreadyInitialized,
    /// Intent has already been executed.
    IntentAlreadyExecuted,
    /// Intent has already been refunded.
    IntentAlreadyRefunded,
    /// Route CPI requested writable access to the intent PDA (virtual index 0).
    InvalidWritableIntentPda,
    /// Lamport overflow during close.
    LamportOverflow,
    /// Output balance delta is below `min_amount_out`.
    InsufficientOutput,
    /// An inner call names the receiver's token slot (virtual index 3) in native-output mode.
    ReceiverTokenRefInNativeOutput,
    /// Receiver pubkey does not match the expected receiver.
    BadReceiver,
    /// `receiver_token` is not the receiver's initialized ATA for the output mint.
    BadReceiverToken,
    /// In native-output mode `receiver_token` must be the System Program.
    BadReceiverTokenNativeOutput,
}

/// Failures while decoding the route's wire-encoded calls.
#[derive(Clone, Copy, Debug, PartialEq, Eq, Structural)]
pub enum WireError {
    /// `num_calls` exceeds `MAX_CALLS`.
    TooManyCalls,
    /// `acc_count` exceeds `MAX_ACCOUNTS_PER_CALL`.
    TooManyAccountsPerCall,
    /// `data_len` exceeds `MAX_DATA_LEN`.
    DataTooLarge,
    /// Non-zero trailing bits in the flags bitmap.
    NonCanonicalBitmap,
    /// Wire bytes truncated or have trailing garbage.
    MalformedWireBytes,
    /// `program_ix` is in the named prefix (must be `>= NAMED_PREFIX`).
    ProgramInNamedPrefix,
    /// Account index out of virtual list bounds.
    AccountIndexOutOfBounds,
}


/// How a factory instruction fails: one of its own errors, a wire-decoding
/// error, an error handed back by Anchor's token account decoder, or the
/// (practically unreachable) case where no associated token address exists,
/// on which the runtime's derivation panics.
#[derive(Debug)]
pub enum FactoryError {
    Intent(IntentError),
    Wire(WireError),
    Account(AnchorError),
    NoViableProgramAddress,
}

/// A `FactoryError` with any decoder error forgotten, for use in contracts.
#[derive(PartialEq, Eq, Structural)]
pub enum FactoryFault {
    Intent(IntentError),
    Wire(WireError),
    AccountData,
    NoViableProgramAddress,
}

pub open spec fn factory_fault_of(e: FactoryError) -> FactoryFault {
    match e {
        FactoryError::Intent(c) => FactoryFault::Intent(c),
        FactoryError::Wire(w) => FactoryFault::Wire(w),
        FactoryError::Account(_) => FactoryFault::AccountData,
        FactoryError::NoViableProgramAddress => FactoryFault::NoViableProgramAddress,
    }
}

/// The error `r` holds, as a fault; `None` on success.
pub open spec fn fault_of_result<T>(r: Result<T, FactoryError>) -> Option<FactoryFault> {
    match r {
        Ok(_) => None,
        Err(e) => Some(factory_fault_of(e)),
    }
}

} // verus!
