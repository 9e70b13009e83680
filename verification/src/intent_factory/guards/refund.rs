//! Checks on the accounts of `refund_intent`.

use vstd::prelude::*;
use crate::keys::{Pubkey, AccountSnapshot, key_eq, data_mint, data_owner, SPL_TOKEN_ID};
use crate::outside::{token_account_accepts, deserialize_token_account};
use crate::addresses::{spec_ata_address, get_associated_token_address_with_program_id};
use crate::intent_factory::errors::{IntentError, FactoryError, FactoryFault, factory_fault_of, fault_of_result};
use super::token::TOKEN_ACCOUNT_LEN;

verus! {

/// The length of an SPL mint account.
pub const MINT_LEN: usize = 82;

/// The refund goes to the intent's user.
pub fn validate_refund_user(user: &AccountSnapshot, expected: &Pubkey) -> (r: Result<(), FactoryError>)
    ensures
        fault_of_result(r) == if user.key@ == expected@ {
            None
        } else {
            Some(FactoryFault::Intent(IntentError::BadUser))
        },
{
    if !key_eq(&user.key, expected) {
        return Err(FactoryError::Intent(IntentError::BadUser));
    }
    Ok(())
}

/// The source mint account is the expected key, owned by SPL Token and
/// mint-sized; its decimals (byte 44) on success.
pub open spec fn spec_src_mint_account(key: Seq<u8>, owner: Seq<u8>, data: Seq<u8>, expected: Seq<u8>) -> Result<
    u8,
    FactoryFault,
> {
    if key != expected || owner != SPL_TOKEN_ID@ || data.len() != MINT_LEN {
        Err(FactoryFault::Intent(IntentError::BadSrcMint))
    } else {
        Ok(data[44])
    }
}

/// Validates the source mint account and reads its decimals.
pub fn validate_src_mint_account(src_mint_account: &AccountSnapshot, expected: &Pubkey) -> (r: Result<u8, FactoryError>)
    ensures
        match spec_src_mint_account(
            src_mint_account.key@,
            src_mint_account.owner@,
            src_mint_account.data@,
            expected@,
        ) {
            Ok(d) => r matches Ok(x) && x == d,
            Err(e) => r is Err && factory_fault_of(r->Err_0) == e,
        },
{
    if !key_eq(&src_mint_account.key, expected) {
        return Err(FactoryError::Intent(IntentError::BadSrcMint));
    }
    if !key_eq(&src_mint_account.owner, &SPL_TOKEN_ID) {
        return Err(FactoryError::Intent(IntentError::BadSrcMint));
    }
    if src_mint_account.data.len() != MINT_LEN {
        return Err(FactoryError::Intent(IntentError::BadSrcMint));
    }
    Ok(src_mint_account.data[44])
}

/// The outcome of checking the user's source ATA: the canonical SPL Token ATA
/// of `(user, mint)`; once created, owned by SPL Token, 165 bytes, decodable,
/// for `mint` and owned by the user.
pub open spec fn spec_user_source_ata(
    key: Seq<u8>,
    owner: Seq<u8>,
    data: Seq<u8>,
    user: Seq<u8>,
    mint: Seq<u8>,
) -> Option<FactoryFault> {
    match spec_ata_address(user, mint, SPL_TOKEN_ID@) {
        None => Some(FactoryFault::NoViableProgramAddress),
        Some(expected) => if key != expected {
            Some(FactoryFault::Intent(IntentError::BadUserSourceAta))
        } else if data.len() == 0 {
            None
        } else if owner != SPL_TOKEN_ID@ || data.len() != TOKEN_ACCOUNT_LEN {
            Some(FactoryFault::Intent(IntentError::BadUserSourceAta))
        } else if !token_account_accepts(data) {
            Some(FactoryFault::AccountData)
        } else if data_mint(data) != mint || data_owner(data) != user {
            Some(FactoryFault::Intent(IntentError::BadUserSourceAta))
        } else {
            None
        },
    }
}

/// Validates the user's source ATA (which may not exist yet).
pub fn validate_user_source_ata(
    user_source_ata: &AccountSnapshot,
    user_key: &Pubkey,
    src_mint: &Pubkey,
) -> (r: Result<(), FactoryError>)
    ensures
        fault_of_result(r) == spec_user_source_ata(
            user_source_ata.key@,
            user_source_ata.owner@,
            user_source_ata.data@,
            user_key@,
            src_mint@,
        ),
{
    let expected = match get_associated_token_address_with_program_id(user_key, src_mint, &SPL_TOKEN_ID) {
        Some(k) => k,
        None => return Err(FactoryError::NoViableProgramAddress),
    };
    if !key_eq(&user_source_ata.key, &expected) {
        return Err(FactoryError::Intent(IntentError::BadUserSourceAta));
    }
    if user_source_ata.data.len() != 0 {
        if !key_eq(&user_source_ata.owner, &SPL_TOKEN_ID) {
            return Err(FactoryError::Intent(IntentError::BadUserSourceAta));
        }
        if user_source_ata.data.len() != TOKEN_ACCOUNT_LEN {
            return Err(FactoryError::Intent(IntentError::BadUserSourceAta));
        }
        let ta = match deserialize_token_account(user_source_ata.data.as_slice()) {
            Ok(t) => t,
            Err(e) => return Err(FactoryError::Account(e)),
        };
        if !key_eq(&ta.mint, src_mint) {
            return Err(FactoryError::Intent(IntentError::BadUserSourceAta));
        }
        if !key_eq(&ta.owner, user_key) {
            return Err(FactoryError::Intent(IntentError::BadUserSourceAta));
        }
    }
    Ok(())
}

} // verus!
