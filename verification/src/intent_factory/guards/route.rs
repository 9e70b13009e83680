//! Checks on the route's inner calls.

use vstd::prelude::*;
use vstd::bytes::*;
use vstd::slice::slice_subrange;
use crate::keys::{Pubkey, key_eq, INTENT_FACTORY_PROGRAM_ID, BPF_LOADER_UPGRADEABLE_ID, SYSTEM_PROGRAM_ID};
use crate::intent_factory::errors::{IntentError, FactoryError, FactoryFault, fault_of_result};

verus! {

/// A System Program instruction that the route may not run: Assign (1),
/// Allocate (8), AllocateWithSeed (9), AssignWithSeed (10).
pub open spec fn is_denied_system_op(disc: u32) -> bool {
    disc == 1 || disc == 8 || disc == 9 || disc == 10
}

/// The outcome of the deny-list check on an inner call: no call into the factory
/// itself or the upgradeable loader, and no denied System Program instruction
/// (read from the first 4 data bytes, little-endian, when there are 4).
pub open spec fn spec_check_deny_list(program_id: Seq<u8>, data: Seq<u8>) -> Option<FactoryFault> {
    if program_id == INTENT_FACTORY_PROGRAM_ID@ || program_id == BPF_LOADER_UPGRADEABLE_ID@ {
        Some(FactoryFault::Intent(IntentError::DisallowedProgram))
    } else if program_id == SYSTEM_PROGRAM_ID@ && data.len() >= 4 && is_denied_system_op(
        spec_u32_from_le_bytes(data.subrange(0, 4)),
    ) {
        Some(FactoryFault::Intent(IntentError::DisallowedSystemOp))
    } else {
        None
    }
}

/// Deny-list check for an inner call's program and data.
pub fn check_deny_list(program_id: &Pubkey, data: &[u8]) -> (r: Result<(), FactoryError>)
    ensures
        fault_of_result(r) == spec_check_deny_list(program_id@, data@),
{
    if key_eq(program_id, &INTENT_FACTORY_PROGRAM_ID) {
        return Err(FactoryError::Intent(IntentError::DisallowedProgram));
    }
    if key_eq(program_id, &BPF_LOADER_UPGRADEABLE_ID) {
        return Err(FactoryError::Intent(IntentError::DisallowedProgram));
    }
    if key_eq(program_id, &SYSTEM_PROGRAM_ID) && data.len() >= 4 {
        let disc = u32_from_le_bytes(slice_subrange(data, 0, 4));
        if disc == 1 || disc == 8 || disc == 9 || disc == 10 {
            return Err(FactoryError::Intent(IntentError::DisallowedSystemOp));
        }
    }
    Ok(())
}

/// Only virtual index 0 (the intent PDA) may sign an inner call.
pub fn check_signer_flag(account_ix: u8, is_signer: bool) -> (r: Result<(), FactoryError>)
    ensures
        fault_of_result(r) == if is_signer && account_ix != 0 {
            Some(FactoryFault::Intent(IntentError::InvalidSignerFlag))
        } else {
            None
        },
{
    if is_signer && account_ix != 0 {
        return Err(FactoryError::Intent(IntentError::InvalidSignerFlag));
    }
    Ok(())
}

/// No inner call may take the intent PDA (virtual index 0) writable.
pub fn check_writable_intent_pda(account_ix: u8, is_writable: bool) -> (r: Result<(), FactoryError>)
    ensures
        fault_of_result(r) == if is_writable && account_ix == 0 {
            Some(FactoryFault::Intent(IntentError::InvalidWritableIntentPda))
        } else {
            None
        },
{
    if is_writable && account_ix == 0 {
        return Err(FactoryError::Intent(IntentError::InvalidWritableIntentPda));
    }
    Ok(())
}

} // verus!
