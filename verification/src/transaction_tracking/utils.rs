//! Account-list helpers of the transaction-tracking program.

use vstd::prelude::*;
use crate::keys::{Pubkey, AccountSnapshot, key_eq};
use crate::lifi_program_1::error::TrackError;

verus! {

/// Takes the account at `cursor` if it is `matches_account` and read-only.
/// With no account left, `NotEnoughAccountKeys` and the cursor stays; otherwise
/// the cursor moves past it and a wrong key or a writable account is an
/// `InvalidArgument`.
pub fn get_verified_readonly_account(
    accounts: &[AccountSnapshot],
    cursor: &mut usize,
    matches_account: &Pubkey,
) -> (r: Result<usize, TrackError>)
    requires
        *old(cursor) <= accounts@.len(),
    ensures
        *old(cursor) == accounts@.len() ==> r == Err::<usize, TrackError>(
            TrackError::NotEnoughAccountKeys,
        ) && *final(cursor) == *old(cursor),
        *old(cursor) < accounts@.len() ==> {
            let a = accounts@[*old(cursor) as int];
            &&& *final(cursor) == *old(cursor) + 1
            &&& r == if a.key@ != matches_account@ || a.is_writable {
                Err::<usize, TrackError>(TrackError::InvalidArgument)
            } else {
                Ok::<usize, TrackError>(*old(cursor))
            }
        },
{
    if *cursor >= accounts.len() {
        return Err(TrackError::NotEnoughAccountKeys);
    }
    let i = *cursor;
    *cursor = i + 1;
    if !key_eq(&accounts[i].key, matches_account) {
        return Err(TrackError::InvalidArgument);
    }
    if accounts[i].is_writable {
        return Err(TrackError::InvalidArgument);
    }
    Ok(i)
}

} // verus!
