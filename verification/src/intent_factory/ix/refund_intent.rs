//! `refund_intent`: after the deadline, return the source tokens to the user
//! and close the intent.
//!
//! The runtime glue calls `handle_refund_intent`, performs the returned token
//! refund (create the user's ATA if needed, transfer, close the source ATA to
//! the user), then `close_intent_state` with fresh lamport balances.

use vstd::prelude::*;
use crate::keys::{Pubkey, AccountSnapshot, key_eq, data_mint, data_owner, data_amount, SPL_TOKEN_ID};
use crate::outside::{token_account_accepts, deserialize_token_account};
use crate::addresses::{spec_ata_address, get_associated_token_address_with_program_id};
use crate::intent_factory::errors::{IntentError, FactoryError, FactoryFault, factory_fault_of, fault_of_result};
use crate::intent_factory::guards::common::{assert_src_mint_some, assert_deadline_passed};
use crate::intent_factory::guards::token::TOKEN_ACCOUNT_LEN;
use crate::intent_factory::guards::refund::{
    validate_refund_user, validate_src_mint_account, spec_src_mint_account,
    validate_user_source_ata, spec_user_source_ata,
};
use crate::intent_factory::pda::{verify_intent_pda, spec_intent_pda_ok};
use crate::intent_factory::state::intent_state::{IntentState, IntentStatus};

verus! {

/// The outcome of checking a non-empty source ATA before refunding it: owned
/// by SPL Token, 165 bytes, decodable, for the source mint, owned by the PDA.
pub open spec fn spec_source_refund_check(owner: Seq<u8>, data: Seq<u8>, mint: Seq<u8>, pda: Seq<u8>) -> Option<
    FactoryFault,
> {
    if owner != SPL_TOKEN_ID@ {
        Some(FactoryFault::Intent(IntentError::BadSourceAta))
    } else if data.len() != TOKEN_ACCOUNT_LEN {
        Some(FactoryFault::Intent(IntentError::SourceAccountMalformed))
    } else if !token_account_accepts(data) {
        Some(FactoryFault::AccountData)
    } else if data_mint(data) != mint || data_owner(data) != pda {
        Some(FactoryFault::Intent(IntentError::BadSourceAta))
    } else {
        None
    }
}

/// Where `refund_intent` fails, in order: the intent already executed or
/// refunded, no source mint, the PDA, the deadline (`now <= deadline`), the
/// user, the source mint account, the source ATA's address, the user's source
/// ATA, and, when the source ATA exists, its checks.
pub open spec fn spec_refund_intent_fault(
    state: IntentState,
    pda: Seq<u8>,
    source_ata: AccountSnapshot,
    user: AccountSnapshot,
    user_source_ata: AccountSnapshot,
    src_mint_account: AccountSnapshot,
    now: i64,
) -> Option<FactoryFault> {
    if state.status == IntentStatus::Executed {
        Some(FactoryFault::Intent(IntentError::IntentAlreadyExecuted))
    } else if state.status == IntentStatus::Refunded {
        Some(FactoryFault::Intent(IntentError::IntentAlreadyRefunded))
    } else if state.src_mint is None {
        Some(FactoryFault::Intent(IntentError::InvalidSrcMint))
    } else if !spec_intent_pda_ok(state.intent_hash@, state.bump, pda) {
        Some(FactoryFault::Intent(IntentError::BadIntentPda))
    } else if now <= state.deadline {
        Some(FactoryFault::Intent(IntentError::IntentNotExpired))
    } else if user.key@ != state.user@ {
        Some(FactoryFault::Intent(IntentError::BadUser))
    } else {
        let mint = (state.src_mint->0)@;
        match spec_src_mint_account(src_mint_account.key@, src_mint_account.owner@, src_mint_account.data@, mint) {
            Err(f) => Some(f),
            Ok(_) => match spec_ata_address(pda, mint, SPL_TOKEN_ID@) {
                None => Some(FactoryFault::NoViableProgramAddress),
                Some(expected) => if source_ata.key@ != expected {
                    Some(FactoryFault::Intent(IntentError::BadSourceAta))
                } else if spec_user_source_ata(
                    user_source_ata.key@,
                    user_source_ata.owner@,
                    user_source_ata.data@,
                    state.user@,
                    mint,
                ) is Some {
                    spec_user_source_ata(
                        user_source_ata.key@,
                        user_source_ata.owner@,
                        user_source_ata.data@,
                        state.user@,
                        mint,
                    )
                } else if source_ata.data@.len() == 0 {
                    None
                } else {
                    spec_source_refund_check(source_ata.owner@, source_ata.data@, mint, pda)
                },
            },
        }
    }
}

/// The token side of a refund: create the user's ATA when it does not exist
/// yet, move `amount` tokens (with `decimals`) when non-zero, then close the
/// source ATA to the user.
#[derive(Debug, Clone, Copy, PartialEq, Eq, Structural)]
pub struct SourceRefund {
    pub create_user_ata: bool,
    pub amount: u64,
    pub decimals: u8,
}

/// What `refund_intent` does once its checks pass: the token refund, if the
/// source ATA exists (none otherwise), then close the intent state to the user.
#[derive(Debug, Clone, Copy)]
pub struct RefundIntentPlan {
    pub src_mint: Pubkey,
    pub tokens: Option<SourceRefund>,
}

/// The plan agrees with the state and accounts.
pub open spec fn refund_intent_plan_matches(
    plan: RefundIntentPlan,
    state: IntentState,
    source_ata: AccountSnapshot,
    user_source_ata: AccountSnapshot,
    src_mint_account: AccountSnapshot,
) -> bool {
    &&& state.src_mint == Some(plan.src_mint)
    &&& plan.tokens == if source_ata.data@.len() == 0 {
        None
    } else {
        Some(
            SourceRefund {
                create_user_ata: user_source_ata.data@.len() == 0,
                amount: data_amount(source_ata.data@),
                decimals: src_mint_account.data@[44],
            },
        )
    }
}

/// All of `refund_intent`'s checks, and the token refund to perform.
pub fn handle_refund_intent(
    state: &IntentState,
    intent_pda: &Pubkey,
    source_ata: &AccountSnapshot,
    user: &AccountSnapshot,
    user_source_ata: &AccountSnapshot,
    src_mint_account: &AccountSnapshot,
    now: i64,
) -> (r: Result<RefundIntentPlan, FactoryError>)
    ensures
        match spec_refund_intent_fault(
            *state,
            intent_pda@,
            *source_ata,
            *user,
            *user_source_ata,
            *src_mint_account,
            now,
        ) {
            Some(f) => r is Err && factory_fault_of(r->Err_0) == f,
            None => r matches Ok(plan) && refund_intent_plan_matches(
                plan,
                *state,
                *source_ata,
                *user_source_ata,
                *src_mint_account,
            ),
        },
{
    if state.status != IntentStatus::Initialized {
        if state.status == IntentStatus::Executed {
            return Err(FactoryError::Intent(IntentError::IntentAlreadyExecuted));
        }
        return Err(FactoryError::Intent(IntentError::IntentAlreadyRefunded));
    }
    let src_mint = assert_src_mint_some(&state.src_mint)?;
    verify_intent_pda(&state.intent_hash, state.bump, intent_pda)?;
    assert_deadline_passed(now, state.deadline)?;
    validate_refund_user(user, &state.user)?;
    let decimals = validate_src_mint_account(src_mint_account, &src_mint)?;
    let expected_source_ata = match get_associated_token_address_with_program_id(intent_pda, &src_mint, &SPL_TOKEN_ID) {
        Some(k) => k,
        None => return Err(FactoryError::NoViableProgramAddress),
    };
    if !key_eq(&source_ata.key, &expected_source_ata) {
        return Err(FactoryError::Intent(IntentError::BadSourceAta));
    }
    validate_user_source_ata(user_source_ata, &state.user, &src_mint)?;
    let tokens = refund_source_tokens(source_ata, user_source_ata, &src_mint, intent_pda, decimals)?;
    Ok(RefundIntentPlan { src_mint, tokens })
}

/// The token refund for the source ATA: nothing when it does not exist,
/// otherwise its checks and the amount it holds.
fn refund_source_tokens(
    source_ata: &AccountSnapshot,
    user_source_ata: &AccountSnapshot,
    src_mint: &Pubkey,
    pda_key: &Pubkey,
    decimals: u8,
) -> (r: Result<Option<SourceRefund>, FactoryError>)
    ensures
        source_ata.data@.len() == 0 ==> r == Ok::<Option<SourceRefund>, FactoryError>(None),
        source_ata.data@.len() != 0 ==> match spec_source_refund_check(
            source_ata.owner@,
            source_ata.data@,
            src_mint@,
            pda_key@,
        ) {
            Some(f) => r is Err && factory_fault_of(r->Err_0) == f,
            None => r == Ok::<Option<SourceRefund>, FactoryError>(
                Some(
                    SourceRefund {
                        create_user_ata: user_source_ata.data@.len() == 0,
                        amount: data_amount(source_ata.data@),
                        decimals,
                    },
                ),
            ),
        },
{
    if source_ata.data.len() == 0 {
        return Ok(None);
    }
    if !key_eq(&source_ata.owner, &SPL_TOKEN_ID) {
        return Err(FactoryError::Intent(IntentError::BadSourceAta));
    }
    if source_ata.data.len() != TOKEN_ACCOUNT_LEN {
        return Err(FactoryError::Intent(IntentError::SourceAccountMalformed));
    }
    let ta = match deserialize_token_account(source_ata.data.as_slice()) {
        Ok(t) => t,
        Err(e) => return Err(FactoryError::Account(e)),
    };
    if !key_eq(&ta.mint, src_mint) {
        return Err(FactoryError::Intent(IntentError::BadSourceAta));
    }
    if !key_eq(&ta.owner, pda_key) {
        return Err(FactoryError::Intent(IntentError::BadSourceAta));
    }
    Ok(Some(SourceRefund { create_user_ata: user_source_ata.data.len() == 0, amount: ta.amount, decimals }))
}

/// Marks the intent `Refunded` and moves the intent PDA's lamports to the
/// user: the user's new balance, or `LamportOverflow`.
pub fn close_intent_state(state: &mut IntentState, user_lamports: u64, pda_lamports: u64) -> (r: Result<
    u64,
    FactoryError,
>)
    ensures
        *final(state) == (IntentState { status: IntentStatus::Refunded, ..*old(state) }),
        user_lamports + pda_lamports <= u64::MAX ==> r == Ok::<u64, FactoryError>(
            (user_lamports + pda_lamports) as u64,
        ),
        user_lamports + pda_lamports > u64::MAX ==> fault_of_result(r) == Some(
            FactoryFault::Intent(IntentError::LamportOverflow),
        ),
{
    state.status = IntentStatus::Refunded;
    match user_lamports.checked_add(pda_lamports) {
        Some(v) => Ok(v),
        None => Err(FactoryError::Intent(IntentError::LamportOverflow)),
    }
}

} // verus!
