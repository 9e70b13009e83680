//! Checks on the intent's receiver accounts.

use vstd::prelude::*;
use crate::keys::{Pubkey, AccountSnapshot, key_eq, data_mint, data_owner, SPL_TOKEN_ID, SYSTEM_PROGRAM_ID};
use crate::outside::{token_account_accepts, deserialize_token_account};
use crate::addresses::{spec_ata_address, get_associated_token_address_with_program_id};
use crate::intent_factory::errors::{IntentError, FactoryError, FactoryFault, fault_of_result};
use crate::intent_factory::guards::token::TOKEN_ACCOUNT_LEN;

verus! {

/// The receiver account is the expected key.
pub fn validate_receiver(receiver: &AccountSnapshot, expected: &Pubkey) -> (r: Result<(), FactoryError>)
    ensures
        fault_of_result(r) == if receiver.key@ == expected@ {
            None
        } else {
            Some(FactoryFault::Intent(IntentError::BadReceiver))
        },
{
    if !key_eq(&receiver.key, expected) {
        return Err(FactoryError::Intent(IntentError::BadReceiver));
    }
    Ok(())
}

/// The outcome of checking the receiver's token account for an SPL output:
/// the canonical SPL Token ATA of `(receiver, out_mint)`, 165 bytes,
/// decodable, for `out_mint`, owned by the receiver.
pub open spec fn spec_receiver_token_spl(
    key: Seq<u8>,
    data: Seq<u8>,
    receiver: Seq<u8>,
    out_mint: Seq<u8>,
) -> Option<FactoryFault> {
    match spec_ata_address(receiver, out_mint, SPL_TOKEN_ID@) {
        None => Some(FactoryFault::NoViableProgramAddress),
        Some(expected) => if key != expected || data.len() != TOKEN_ACCOUNT_LEN {
            Some(FactoryFault::Intent(IntentError::BadReceiverToken))
        } else if !token_account_accepts(data) {
            Some(FactoryFault::AccountData)
        } else if data_mint(data) != out_mint || data_owner(data) != receiver {
            Some(FactoryFault::Intent(IntentError::BadReceiverToken))
        } else {
            None
        },
    }
}

/// For an SPL output, the receiver's token account is its ATA for the output
/// mint, initialized, for that mint and owned by the receiver.
pub fn validate_receiver_token_spl(
    receiver_token: &AccountSnapshot,
    receiver_key: &Pubkey,
    out_mint: &Pubkey,
) -> (r: Result<(), FactoryError>)
    ensures
        fault_of_result(r) == spec_receiver_token_spl(
            receiver_token.key@,
            receiver_token.data@,
            receiver_key@,
            out_mint@,
        ),
{
    let expected = match get_associated_token_address_with_program_id(receiver_key, out_mint, &SPL_TOKEN_ID) {
        Some(k) => k,
        None => return Err(FactoryError::NoViableProgramAddress),
    };
    if !key_eq(&receiver_token.key, &expected) {
        return Err(FactoryError::Intent(IntentError::BadReceiverToken));
    }
    if receiver_token.data.len() != TOKEN_ACCOUNT_LEN {
        return Err(FactoryError::Intent(IntentError::BadReceiverToken));
    }
    let ta = match deserialize_token_account(receiver_token.data.as_slice()) {
        Ok(t) => t,
        Err(e) => return Err(FactoryError::Account(e)),
    };
    if !key_eq(&ta.mint, out_mint) {
        return Err(FactoryError::Intent(IntentError::BadReceiverToken));
    }
    if !key_eq(&ta.owner, receiver_key) {
        return Err(FactoryError::Intent(IntentError::BadReceiverToken));
    }
    Ok(())
}

/// For a native (SOL) output, the receiver's token slot holds the System
/// Program, so it binds no account that a route could index.
pub fn validate_receiver_token_native(receiver_token: &AccountSnapshot) -> (r: Result<(), FactoryError>)
    ensures
        fault_of_result(r) == if receiver_token.key@ == SYSTEM_PROGRAM_ID@ {
            None
        } else {
            Some(FactoryFault::Intent(IntentError::BadReceiverTokenNativeOutput))
        },
{
    if !key_eq(&receiver_token.key, &SYSTEM_PROGRAM_ID) {
        return Err(FactoryError::Intent(IntentError::BadReceiverTokenNativeOutput));
    }
    Ok(())
}

} // verus!
