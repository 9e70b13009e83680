//! Checks shared by the factory's instructions.

use vstd::prelude::*;
use crate::keys::{Pubkey, AccountSnapshot, key_eq};
use crate::intent_factory::errors::{IntentError, FactoryError, FactoryFault, fault_of_result};
use crate::intent_factory::wire::NAMED_PREFIX;

verus! {

/// The largest number of trailing accounts a route may use: virtual indices are
/// bytes, and the first `NAMED_PREFIX` of them are reserved.
pub open spec fn max_tail_len() -> int {
    255 - NAMED_PREFIX
}

/// The source mint, which v1 requires (SPL input only).
pub fn assert_src_mint_some(src_mint: &Option<Pubkey>) -> (r: Result<Pubkey, FactoryError>)
    ensures
        match *src_mint {
            Some(k) => r matches Ok(x) && x == k,
            None => fault_of_result(r) == Some(FactoryFault::Intent(IntentError::InvalidSrcMint)),
        },
{
    match src_mint {
        Some(k) => Ok(*k),
        None => Err(FactoryError::Intent(IntentError::InvalidSrcMint)),
    }
}

/// The route's trailing accounts fit the virtual index space.
pub fn assert_tail_len(remaining_len: usize) -> (r: Result<(), FactoryError>)
    ensures
        fault_of_result(r) == if remaining_len <= max_tail_len() {
            None
        } else {
            Some(FactoryFault::Intent(IntentError::TooManyRemainingAccounts))
        },
{
    let max_tail: usize = 255 - NAMED_PREFIX;
    if remaining_len <= max_tail {
        Ok(())
    } else {
        Err(FactoryError::Intent(IntentError::TooManyRemainingAccounts))
    }
}

/// The intent may still execute: `now <= deadline`.
pub fn assert_deadline_not_passed(now: i64, deadline: i64) -> (r: Result<(), FactoryError>)
    ensures
        fault_of_result(r) == if now <= deadline {
            None
        } else {
            Some(FactoryFault::Intent(IntentError::IntentExpired))
        },
{
    if now <= deadline {
        Ok(())
    } else {
        Err(FactoryError::Intent(IntentError::IntentExpired))
    }
}

/// The intent may be refunded: `now > deadline`.
pub fn assert_deadline_passed(now: i64, deadline: i64) -> (r: Result<(), FactoryError>)
    ensures
        fault_of_result(r) == if now > deadline {
            None
        } else {
            Some(FactoryFault::Intent(IntentError::IntentNotExpired))
        },
{
    if now > deadline {
        Ok(())
    } else {
        Err(FactoryError::Intent(IntentError::IntentNotExpired))
    }
}

/// At any moment exactly one of the two deadline checks passes: an intent can
/// be executed until its deadline and refunded only after it, never both.
pub proof fn law_deadline_checks_exclusive(now: i64, deadline: i64)
    ensures
        (now <= deadline) != (now > deadline),
{
}

/// The outcome of checking the executor account against the expected key.
pub open spec fn spec_validate_executor(expected: Seq<u8>, key: Seq<u8>, is_signer: bool) -> Option<FactoryFault> {
    if key != expected {
        Some(FactoryFault::Intent(IntentError::BadExecutor))
    } else if !is_signer {
        Some(FactoryFault::Intent(IntentError::ExecutorNotSigner))
    } else {
        None
    }
}

/// The executor account is the expected key and signed.
pub fn validate_executor(expected_executor: &Pubkey, executor_account: &AccountSnapshot) -> (r: Result<(), FactoryError>)
    ensures
        fault_of_result(r) == spec_validate_executor(
            expected_executor@,
            executor_account.key@,
            executor_account.is_signer,
        ),
{
    if !key_eq(&executor_account.key, expected_executor) {
        return Err(FactoryError::Intent(IntentError::BadExecutor));
    }
    if !executor_account.is_signer {
        return Err(FactoryError::Intent(IntentError::ExecutorNotSigner));
    }
    Ok(())
}

/// Some account signed under the key `exec`.
pub open spec fn signed_by(accounts: Seq<AccountSnapshot>, exec: Seq<u8>) -> bool {
    exists|i: int| 0 <= i < accounts.len() && #[trigger] accounts[i].is_signer && accounts[i].key@ == exec
}

/// When the intent names an executor, one of the accounts is that executor
/// and signed.
pub fn assert_executor_signer(executor: &Option<Pubkey>, accounts: &[AccountSnapshot]) -> (r: Result<(), FactoryError>)
    ensures
        fault_of_result(r) == match *executor {
            Some(e) => if signed_by(accounts@, e@) {
                None
            } else {
                Some(FactoryFault::Intent(IntentError::ExecutorNotSigner))
            },
            None => None,
        },
{
    if let Some(exec) = *executor {
        let mut i: usize = 0;
        while i < accounts.len()
            invariant
                0 <= i <= accounts@.len(),
                *executor == Some(exec),
                forall|j: int| 0 <= j < i ==> !(#[trigger] accounts@[j].is_signer && accounts@[j].key@ == exec@),
            decreases accounts@.len() - i,
        {
            if accounts[i].is_signer && key_eq(&accounts[i].key, &exec) {
                assert(accounts@[i as int].is_signer && accounts@[i as int].key@ == exec@);
                return Ok(());
            }
            i += 1;
        }
        return Err(FactoryError::Intent(IntentError::ExecutorNotSigner));
    }
    Ok(())
}

} // verus!
