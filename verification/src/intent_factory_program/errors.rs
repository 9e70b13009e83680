//! Errors of the intent solver.

use vstd::prelude::*;
use solana_program::program_error::ProgramError;

verus! {

/// The solver's custom error codes (`ProgramError::Custom(code)`); code 7 is reserved.
#[derive(Clone, Copy, Debug, PartialEq, Eq, Structural)]
pub enum IntentSolverError {
    InvalidPda,
    MinAmountNotMet,
    WrongTokenProgram,
    InvalidTransferNb,
    InsufficientData,
    NotEnoughAccounts,
    FromAtaNotEmpty,
    InvalidCpiCount,
    InvalidCpiAccountSpec,
    CpiToSelfNotAllowed,
    CpiProgramDenied,
    InnerSignerNotAllowed,
    WritableEscalationNotAllowed,
    /// SOL source PDA: after CPIs, lamports must equal the rent-exempt minimum for 0-byte data.
    SolSourcePdaNotDrained,
    /// SPL source ATA not owned by the token program, not a token account, not owned by
    /// the PDA, or not the canonical ATA for `(pda, mint, token program)`.
    InvalidSourceAta,
    /// Refund: the destination ATA is not the funder's canonical ATA, or the passed mint
    /// differs from the source ATA's mint.
    InvalidDestinationAta,
}

/// The number of an error as the runtime reports it.
pub open spec fn spec_error_code(e: IntentSolverError) -> u32 {
    match e {
        IntentSolverError::InvalidPda => 0,
        IntentSolverError::MinAmountNotMet => 1,
        IntentSolverError::WrongTokenProgram => 2,
        IntentSolverError::InvalidTransferNb => 3,
        IntentSolverError::InsufficientData => 4,
        IntentSolverError::NotEnoughAccounts => 5,
        IntentSolverError::FromAtaNotEmpty => 6,
        IntentSolverError::InvalidCpiCount => 8,
        IntentSolverError::InvalidCpiAccountSpec => 9,
        IntentSolverError::CpiToSelfNotAllowed => 10,
        IntentSolverError::CpiProgramDenied => 11,
        IntentSolverError::InnerSignerNotAllowed => 12,
        IntentSolverError::WritableEscalationNotAllowed => 13,
        IntentSolverError::SolSourcePdaNotDrained => 14,
        IntentSolverError::InvalidSourceAta => 15,
        IntentSolverError::InvalidDestinationAta => 16,
    }
}

impl IntentSolverError {
    /// The custom error code, as in `ProgramError::Custom(code)`.
    pub fn code(&self) -> (r: u32)
        ensures
            r == spec_error_code(*self),
    {
        match self {
            IntentSolverError::InvalidPda => 0,
            IntentSolverError::MinAmountNotMet => 1,
            IntentSolverError::WrongTokenProgram => 2,
            IntentSolverError::InvalidTransferNb => 3,
            IntentSolverError::InsufficientData => 4,
            IntentSolverError::NotEnoughAccounts => 5,
            IntentSolverError::FromAtaNotEmpty => 6,
            IntentSolverError::InvalidCpiCount => 8,
            IntentSolverError::InvalidCpiAccountSpec => 9,
            IntentSolverError::CpiToSelfNotAllowed => 10,
            IntentSolverError::CpiProgramDenied => 11,
            IntentSolverError::InnerSignerNotAllowed => 12,
            IntentSolverError::WritableEscalationNotAllowed => 13,
            IntentSolverError::SolSourcePdaNotDrained => 14,
            IntentSolverError::InvalidSourceAta => 15,
            IntentSolverError::InvalidDestinationAta => 16,
        }
    }
}

/// Distinct errors get distinct codes, and none of them uses the reserved code 7.
pub proof fn lemma_error_codes_distinct(a: IntentSolverError, b: IntentSolverError)
    requires
        a != b,
    ensures
        spec_error_code(a) != spec_error_code(b),
        spec_error_code(a) != 7,
{
}

/// How a solver instruction fails: a custom code, one of the runtime's own
/// errors, an error handed back by an account-data decoder, or the (practically
/// unreachable) case where no program address exists for the intent seeds, on
/// which the runtime's address search panics.
#[derive(Debug)]
pub enum SolverError {
    Custom(IntentSolverError),
    MissingRequiredSignature,
    InvalidInstructionData,
    Account(ProgramError),
    NoViableProgramAddress,
}

/// A `SolverError` with any decoder error forgotten, for use in contracts.
pub enum SolverFault {
    Custom(IntentSolverError),
    MissingRequiredSignature,
    InvalidInstructionData,
    AccountData,
    NoViableProgramAddress,
}

pub open spec fn fault_of(e: SolverError) -> SolverFault {
    match e {
        SolverError::Custom(c) => SolverFault::Custom(c),
        SolverError::MissingRequiredSignature => SolverFault::MissingRequiredSignature,
        SolverError::InvalidInstructionData => SolverFault::InvalidInstructionData,
        SolverError::Account(_) => SolverFault::AccountData,
        SolverError::NoViableProgramAddress => SolverFault::NoViableProgramAddress,
    }
}

} // verus!
