//! The solver's instruction dispatch: a variant byte, then that instruction's data.

use vstd::prelude::*;
use super::errors::{SolverError, SolverFault, fault_of};

verus! {

/// The solver's instructions.
#[derive(Debug, Clone, Copy, PartialEq, Eq, Structural)]
pub enum SolverInstruction {
    Execute,
    Refund,
}

/// Which instruction `data` selects: variant `0` is `execute`, `1` is `refund`;
/// empty data or any other variant is invalid instruction data. The
/// instruction's own data is `data[1..]`.
pub open spec fn spec_solver_instruction(data: Seq<u8>) -> Option<SolverInstruction> {
    if data.len() == 0 {
        None
    } else if data[0] == 0 {
        Some(SolverInstruction::Execute)
    } else if data[0] == 1 {
        Some(SolverInstruction::Refund)
    } else {
        None
    }
}

/// Reads the variant byte of solver instruction data.
pub fn decode_solver_instruction(data: &[u8]) -> (r: Result<SolverInstruction, SolverError>)
    ensures
        match spec_solver_instruction(data@) {
            Some(ix) => r == Ok::<SolverInstruction, SolverError>(ix),
            None => r is Err && fault_of(r->Err_0) == SolverFault::InvalidInstructionData,
        },
{
    if data.len() == 0 {
        return Err(SolverError::InvalidInstructionData);
    }
    match data[0] {
        0 => Ok(SolverInstruction::Execute),
        1 => Ok(SolverInstruction::Refund),
        _ => Err(SolverError::InvalidInstructionData),
    }
}

} // verus!
