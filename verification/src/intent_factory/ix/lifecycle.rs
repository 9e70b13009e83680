//! Laws of the intent lifecycle across the factory's instructions.

use vstd::prelude::*;
use crate::keys::{AccountSnapshot, SPL_TOKEN_ID, data_amount, lemma_key_view_injective};
use crate::addresses::spec_ata_address;
use crate::intent_factory::state::intent_state::{IntentState, IntentStatus};
use super::execute_intent::spec_execute_intent_fault;
use super::refund_intent::spec_refund_intent_fault;

verus! {

/// An intent settles at most once: once it is `Executed` or `Refunded`, both
/// `execute_intent` and `refund_intent` refuse it, whatever the accounts and time.
pub proof fn law_settled_intent_is_final(
    state: IntentState,
    pda: Seq<u8>,
    source_ata: AccountSnapshot,
    executor: AccountSnapshot,
    remaining: Seq<AccountSnapshot>,
    user: AccountSnapshot,
    user_source_ata: AccountSnapshot,
    src_mint_account: AccountSnapshot,
    now: i64,
)
    requires
        state.status != IntentStatus::Initialized,
    ensures
        spec_execute_intent_fault(state, pda, source_ata, now, executor, remaining) is Some,
        spec_refund_intent_fault(state, pda, source_ata, user, user_source_ata, src_mint_account, now) is Some,
{
}

/// At no moment can both settle an intent: `execute_intent` needs
/// `now <= deadline`, `refund_intent` needs `now > deadline`.
pub proof fn law_execute_and_refund_exclusive(
    state: IntentState,
    pda: Seq<u8>,
    source_ata: AccountSnapshot,
    executor: AccountSnapshot,
    remaining: Seq<AccountSnapshot>,
    user: AccountSnapshot,
    user_source_ata: AccountSnapshot,
    src_mint_account: AccountSnapshot,
    now: i64,
)
    ensures
        !(spec_execute_intent_fault(state, pda, source_ata, now, executor, remaining) is None
            && spec_refund_intent_fault(
            state,
            pda,
            source_ata,
            user,
            user_source_ata,
            src_mint_account,
            now,
        ) is None),
{
}

/// A refund goes back to the intent's user, and only after the deadline:
/// `refund_intent` accepts only an `Initialized` intent with a source mint,
/// strictly after its deadline, with the user account being the stored user,
/// the source ATA being the intent PDA's SPL Token ATA for that mint, and the
/// user's source ATA being the user's SPL Token ATA for that mint.
pub proof fn law_refund_pays_user_after_deadline(
    state: IntentState,
    pda: Seq<u8>,
    source_ata: AccountSnapshot,
    user: AccountSnapshot,
    user_source_ata: AccountSnapshot,
    src_mint_account: AccountSnapshot,
    now: i64,
)
    ensures
        spec_refund_intent_fault(state, pda, source_ata, user, user_source_ata, src_mint_account, now) is None
            ==> {
            &&& state.status == IntentStatus::Initialized
            &&& state.src_mint is Some
            &&& now > state.deadline
            &&& user.key == state.user
            &&& spec_ata_address(pda, (state.src_mint->0)@, SPL_TOKEN_ID@) == Some(source_ata.key@)
            &&& spec_ata_address(state.user@, (state.src_mint->0)@, SPL_TOKEN_ID@) == Some(user_source_ata.key@)
        },
{
    if spec_refund_intent_fault(state, pda, source_ata, user, user_source_ata, src_mint_account, now) is None {
        lemma_key_view_injective(user.key, state.user);
    }
}

/// A route runs only for the named executor, before the deadline, on the full
/// deposit: `execute_intent` accepts only an `Initialized` intent with a source
/// mint, at or before its deadline, with the executor account being the stored
/// executor and a signer, and the source ATA being the intent PDA's SPL Token
/// ATA for that mint, holding exactly `amount_in`.
pub proof fn law_execute_by_executor_before_deadline(
    state: IntentState,
    pda: Seq<u8>,
    source_ata: AccountSnapshot,
    executor: AccountSnapshot,
    remaining: Seq<AccountSnapshot>,
    now: i64,
)
    ensures
        spec_execute_intent_fault(state, pda, source_ata, now, executor, remaining) is None ==> {
            &&& state.status == IntentStatus::Initialized
            &&& state.src_mint is Some
            &&& now <= state.deadline
            &&& executor.key == state.executor
            &&& executor.is_signer
            &&& spec_ata_address(pda, (state.src_mint->0)@, SPL_TOKEN_ID@) == Some(source_ata.key@)
            &&& data_amount(source_ata.data@) == state.amount_in
        },
{
    if spec_execute_intent_fault(state, pda, source_ata, now, executor, remaining) is None {
        lemma_key_view_injective(executor.key, state.executor);
    }
}

} // verus!
