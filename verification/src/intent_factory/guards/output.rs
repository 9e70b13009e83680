//! Checks on what a route delivers.

use vstd::prelude::*;
use crate::intent_factory::errors::{IntentError, FactoryError, FactoryFault, fault_of_result};

verus! {

/// The receiver's token account, by its place in the virtual account list.
pub const RECEIVER_TOKEN_VINDEX: u8 = 3;

/// The output rose from `pre` to `post` by at least `min_amount_out`; a
/// balance that fell counts as short.
pub fn assert_min_out(pre: u64, post: u64, min_amount_out: u64) -> (r: Result<(), FactoryError>)
    ensures
        fault_of_result(r) == if post < pre || post - pre < min_amount_out {
            Some(FactoryFault::Intent(IntentError::InsufficientOutput))
        } else {
            None
        },
{
    let delta = match post.checked_sub(pre) {
        Some(d) => d,
        None => return Err(FactoryError::Intent(IntentError::InsufficientOutput)),
    };
    if delta < min_amount_out {
        return Err(FactoryError::Intent(IntentError::InsufficientOutput));
    }
    Ok(())
}

/// In native-output mode no inner call may name the receiver's token slot.
pub fn check_native_output_index(account_ix: u8, is_native_output: bool) -> (r: Result<(), FactoryError>)
    ensures
        fault_of_result(r) == if is_native_output && account_ix == RECEIVER_TOKEN_VINDEX {
            Some(FactoryFault::Intent(IntentError::ReceiverTokenRefInNativeOutput))
        } else {
            None
        },
{
    if is_native_output && account_ix == RECEIVER_TOKEN_VINDEX {
        return Err(FactoryError::Intent(IntentError::ReceiverTokenRefInNativeOutput));
    }
    Ok(())
}

} // verus!
