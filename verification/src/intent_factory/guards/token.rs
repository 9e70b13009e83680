//! Checks on the intent's source token account.

use vstd::prelude::*;
use crate::keys::{
    Pubkey, AccountSnapshot, TokenAccountFields, key_eq, data_mint, data_owner, data_amount,
    SPL_TOKEN_ID,
};
use crate::outside::{token_account_accepts, token_account_fields_of, deserialize_token_account};
use crate::addresses::{spec_ata_address, get_associated_token_address_with_program_id};
use crate::intent_factory::errors::{IntentError, FactoryError, FactoryFault, factory_fault_of, fault_of_result};

verus! {

/// The length of an SPL token account.
pub const TOKEN_ACCOUNT_LEN: usize = 165;

/// The outcome of checking the source ATA: the canonical SPL Token ATA of
/// `(pda, mint)`, owned by SPL Token, 165 bytes, decodable, for `mint`, owned
/// by the PDA; its fields on success.
pub open spec fn spec_validate_source_ata(
    key: Seq<u8>,
    owner: Seq<u8>,
    data: Seq<u8>,
    pda: Seq<u8>,
    mint: Seq<u8>,
) -> Result<(), FactoryFault> {
    match spec_ata_address(pda, mint, SPL_TOKEN_ID@) {
        None => Err(FactoryFault::NoViableProgramAddress),
        Some(expected) => if key != expected || owner != SPL_TOKEN_ID@ {
            Err(FactoryFault::Intent(IntentError::BadSourceAta))
        } else if data.len() != TOKEN_ACCOUNT_LEN {
            Err(FactoryFault::Intent(IntentError::SourceAccountMalformed))
        } else if !token_account_accepts(data) {
            Err(FactoryFault::AccountData)
        } else if data_mint(data) != mint || data_owner(data) != pda {
            Err(FactoryFault::Intent(IntentError::BadSourceAta))
        } else {
            Ok(())
        },
    }
}

/// Validates the source ATA and returns its decoded fields.
pub fn validate_source_ata(
    source_ata: &AccountSnapshot,
    intent_pda_key: &Pubkey,
    src_mint: &Pubkey,
) -> (r: Result<TokenAccountFields, FactoryError>)
    ensures
        match spec_validate_source_ata(
            source_ata.key@,
            source_ata.owner@,
            source_ata.data@,
            intent_pda_key@,
            src_mint@,
        ) {
            Ok(()) => r matches Ok(f) && token_account_fields_of(source_ata.data@, f),
            Err(e) => r is Err && factory_fault_of(r->Err_0) == e,
        },
{
    let expected = match get_associated_token_address_with_program_id(intent_pda_key, src_mint, &SPL_TOKEN_ID) {
        Some(k) => k,
        None => return Err(FactoryError::NoViableProgramAddress),
    };
    if !key_eq(&source_ata.key, &expected) {
        return Err(FactoryError::Intent(IntentError::BadSourceAta));
    }
    if !key_eq(&source_ata.owner, &SPL_TOKEN_ID) {
        return Err(FactoryError::Intent(IntentError::BadSourceAta));
    }
    if source_ata.data.len() != TOKEN_ACCOUNT_LEN {
        return Err(FactoryError::Intent(IntentError::SourceAccountMalformed));
    }
    let ta = match deserialize_token_account(source_ata.data.as_slice()) {
        Ok(t) => t,
        Err(e) => return Err(FactoryError::Account(e)),
    };
    if !key_eq(&ta.mint, src_mint) {
        return Err(FactoryError::Intent(IntentError::BadSourceAta));
    }
    if !key_eq(&ta.owner, intent_pda_key) {
        return Err(FactoryError::Intent(IntentError::BadSourceAta));
    }
    Ok(ta)
}

/// The source holds exactly the intent's `amount_in`.
pub fn assert_source_amount(actual: u64, expected: u64) -> (r: Result<(), FactoryError>)
    ensures
        fault_of_result(r) == if actual == expected {
            None
        } else {
            Some(FactoryFault::Intent(IntentError::SourceAmountMismatch))
        },
{
    if actual == expected {
        Ok(())
    } else {
        Err(FactoryError::Intent(IntentError::SourceAmountMismatch))
    }
}

/// The outcome of checking that the source ATA was drained: 165 bytes,
/// decodable, still for `mint`, holding nothing.
pub open spec fn spec_source_drained(data: Seq<u8>, mint: Seq<u8>) -> Option<FactoryFault> {
    if data.len() != TOKEN_ACCOUNT_LEN {
        Some(FactoryFault::Intent(IntentError::SourceAccountMalformed))
    } else if !token_account_accepts(data) {
        Some(FactoryFault::AccountData)
    } else if data_mint(data) != mint {
        Some(FactoryFault::Intent(IntentError::BadSourceAta))
    } else if data_amount(data) != 0 {
        Some(FactoryFault::Intent(IntentError::SourceNotDrained))
    } else {
        None
    }
}

/// After the route, the source ATA holds nothing.
pub fn assert_source_drained(source_ata: &AccountSnapshot, src_mint: &Pubkey) -> (r: Result<(), FactoryError>)
    ensures
        fault_of_result(r) == spec_source_drained(source_ata.data@, src_mint@),
{
    if source_ata.data.len() != TOKEN_ACCOUNT_LEN {
        return Err(FactoryError::Intent(IntentError::SourceAccountMalformed));
    }
    let ta = match deserialize_token_account(source_ata.data.as_slice()) {
        Ok(t) => t,
        Err(e) => return Err(FactoryError::Account(e)),
    };
    if !key_eq(&ta.mint, src_mint) {
        return Err(FactoryError::Intent(IntentError::BadSourceAta));
    }
    if ta.amount != 0 {
        return Err(FactoryError::Intent(IntentError::SourceNotDrained));
    }
    Ok(())
}

/// The token amount of an account, when its data decodes as a token account.
pub fn read_spl_amount(account: &AccountSnapshot) -> (r: Result<u64, FactoryError>)
    ensures
        if token_account_accepts(account.data@) {
            r == Ok::<u64, FactoryError>(data_amount(account.data@))
        } else {
            fault_of_result(r) == Some(FactoryFault::AccountData)
        },
{
    match deserialize_token_account(account.data.as_slice()) {
        Ok(ta) => Ok(ta.amount),
        Err(e) => Err(FactoryError::Account(e)),
    }
}

} // verus!
