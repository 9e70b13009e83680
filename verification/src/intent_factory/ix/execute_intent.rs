//! `execute_intent`: run the route's CPIs out of the intent PDA, then enforce
//! the source drain and every declared outcome.
//!
//! The runtime glue calls `handle_execute_intent`, then for each call the
//! route's `CallsIter` yields, in wire order, `route_call` (invoking each
//! returned call), then `finish_execute_intent` with the exhausted reader on
//! fresh account snapshots.

use vstd::prelude::*;
use crate::keys::{Pubkey, AccountSnapshot, key_eq, data_mint, data_amount, SPL_TOKEN_ID};
use crate::outside::{token_account_accepts, deserialize_token_account};
use crate::intent_factory::errors::{IntentError, WireError, FactoryError, FactoryFault, factory_fault_of, fault_of_result};
use crate::intent_factory::guards::common::{
    assert_src_mint_some, assert_tail_len, assert_deadline_not_passed, validate_executor,
    spec_validate_executor, max_tail_len,
};
use crate::intent_factory::guards::token::{
    validate_source_ata, spec_validate_source_ata, assert_source_amount, assert_source_drained,
    spec_source_drained, TOKEN_ACCOUNT_LEN,
};
use crate::intent_factory::guards::route::{
    check_deny_list, spec_check_deny_list, check_signer_flag, check_writable_intent_pda,
};
use crate::intent_factory::pda::{verify_intent_pda, spec_intent_pda_ok};
use crate::intent_factory::state::intent_header::{IntentOutcome, MAX_OUTCOMES};
use crate::intent_factory::state::intent_state::{IntentState, IntentStatus, spec_state_outcomes};
use crate::intent_factory::wire::{
    CallSpecRef, CallsIter, CallModel, spec_flag_for, all_below, spec_read_calls, lemma_read_calls_len,
};
use super::balance_outcome::{BalanceKind, BalanceOutcome, spec_balance, delta_met};
use super::virtual_accounts::{build_virtual_list, spec_virtual_keys};

verus! {

/// The index of the first account at or after `from` whose key is `key`.
pub open spec fn first_key_index(rs: Seq<AccountSnapshot>, key: Seq<u8>, from: nat) -> Option<int>
    decreases rs.len() - from,
{
    if from >= rs.len() {
        None
    } else if rs[from as int].key@ == key {
        Some(from as int)
    } else {
        first_key_index(rs, key, from + 1)
    }
}

/// A found index is in range and holds the key.
proof fn lemma_first_key_index(rs: Seq<AccountSnapshot>, key: Seq<u8>, from: nat)
    ensures
        first_key_index(rs, key, from) matches Some(k) ==> from <= k < rs.len() && rs[k].key@ == key,
    decreases rs.len() - from,
{
    if from < rs.len() && rs[from as int].key@ != key {
        lemma_first_key_index(rs, key, from + 1);
    }
}

/// Checking one declared outcome before the route: its account is neither the
/// PDA nor the source ATA and is among the trailing accounts (the first with
/// its key); for a token outcome that account is a 165-byte SPL Token account
/// of the outcome's mint. Where it is, how it is measured, and its balance.
pub open spec fn spec_outcome_check(
    o: IntentOutcome,
    pda: Seq<u8>,
    src: Seq<u8>,
    rs: Seq<AccountSnapshot>,
) -> Result<(int, BalanceKind, u64), FactoryFault> {
    if o.account@ == pda || o.account@ == src {
        Err(FactoryFault::Intent(IntentError::BadOutcomeAccount))
    } else {
        match first_key_index(rs, o.account@, 0) {
            None => Err(FactoryFault::Intent(IntentError::BadOutcomeAccount)),
            Some(k) => {
                let a = rs[k];
                match o.mint {
                    Some(m) => if a.owner@ != SPL_TOKEN_ID@ || a.data@.len() != TOKEN_ACCOUNT_LEN {
                        Err(FactoryFault::Intent(IntentError::BadOutcomeAccount))
                    } else if !token_account_accepts(a.data@) {
                        Err(FactoryFault::AccountData)
                    } else if data_mint(a.data@) != m@ {
                        Err(FactoryFault::Intent(IntentError::BadOutcomeAccount))
                    } else {
                        Ok((k, BalanceKind::SplToken, data_amount(a.data@)))
                    },
                    None => Ok((k, BalanceKind::NativeLamports, a.lamports)),
                }
            },
        }
    }
}

/// The first failing check among outcomes `j..`.
pub open spec fn outcomes_fault(
    os: Seq<IntentOutcome>,
    pda: Seq<u8>,
    src: Seq<u8>,
    rs: Seq<AccountSnapshot>,
    j: nat,
) -> Option<FactoryFault>
    decreases os.len() - j,
{
    if j >= os.len() {
        None
    } else {
        match spec_outcome_check(os[j as int], pda, src, rs) {
            Err(f) => Some(f),
            Ok(_) => outcomes_fault(os, pda, src, rs, j + 1),
        }
    }
}

/// Where `execute_intent` fails before its route, in order: the intent not
/// `Initialized`, no source mint, the PDA, the deadline (`now > deadline`), the
/// executor, the source ATA, its amount other than `amount_in`, too many
/// trailing accounts, then the declared outcomes in order.
pub open spec fn spec_execute_intent_fault(
    state: IntentState,
    pda: Seq<u8>,
    source_ata: AccountSnapshot,
    now: i64,
    executor: AccountSnapshot,
    remaining: Seq<AccountSnapshot>,
) -> Option<FactoryFault> {
    if state.status != IntentStatus::Initialized {
        Some(FactoryFault::Intent(IntentError::IntentAlreadyExecuted))
    } else if state.src_mint is None {
        Some(FactoryFault::Intent(IntentError::InvalidSrcMint))
    } else if !spec_intent_pda_ok(state.intent_hash@, state.bump, pda) {
        Some(FactoryFault::Intent(IntentError::BadIntentPda))
    } else if now > state.deadline {
        Some(FactoryFault::Intent(IntentError::IntentExpired))
    } else if spec_validate_executor(state.executor@, executor.key@, executor.is_signer) is Some {
        spec_validate_executor(state.executor@, executor.key@, executor.is_signer)
    } else if spec_validate_source_ata(
        source_ata.key@,
        source_ata.owner@,
        source_ata.data@,
        pda,
        (state.src_mint->0)@,
    ) is Err {
        Some(
            spec_validate_source_ata(
                source_ata.key@,
                source_ata.owner@,
                source_ata.data@,
                pda,
                (state.src_mint->0)@,
            )->Err_0,
        )
    } else if data_amount(source_ata.data@) != state.amount_in {
        Some(FactoryFault::Intent(IntentError::SourceAmountMismatch))
    } else if remaining.len() > max_tail_len() {
        Some(FactoryFault::Intent(IntentError::TooManyRemainingAccounts))
    } else {
        outcomes_fault(spec_state_outcomes(state), pda, source_ata.key@, remaining, 0)
    }
}

/// Everything `execute_intent` has established before its route.
#[derive(Debug, Clone)]
pub struct ExecuteIntentPlan {
    pub src_mint: Pubkey,
    pub outcomes: Vec<BalanceOutcome>,
    pub virtual_keys: Vec<Pubkey>,
}

/// Outcome `i` of the plan agrees with the state's declared outcome `i`.
pub open spec fn outcome_snapshot_matches(
    b: BalanceOutcome,
    o: IntentOutcome,
    pda: Seq<u8>,
    src: Seq<u8>,
    rs: Seq<AccountSnapshot>,
) -> bool {
    &&& spec_outcome_check(o, pda, src, rs) == Ok::<(int, BalanceKind, u64), FactoryFault>(
        (b.account_index as int, b.kind, b.pre),
    )
    &&& b.min_delta == o.amount
}

/// The plan agrees with the state and the accounts.
pub open spec fn execute_intent_plan_matches(
    plan: ExecuteIntentPlan,
    state: IntentState,
    pda: Pubkey,
    source_ata: AccountSnapshot,
    remaining: Seq<AccountSnapshot>,
) -> bool {
    let os = spec_state_outcomes(state);
    &&& state.src_mint == Some(plan.src_mint)
    &&& plan.outcomes@.len() == os.len()
    &&& forall|i: int|
        0 <= i < os.len() ==> outcome_snapshot_matches(
            #[trigger] plan.outcomes@[i],
            os[i],
            pda@,
            source_ata.key@,
            remaining,
        )
    &&& plan.virtual_keys@ == spec_virtual_keys(pda, source_ata.key, remaining)
}

/// Finds the first trailing account whose key is `key`.
fn find_account(remaining: &[AccountSnapshot], key: &Pubkey) -> (r: Option<usize>)
    ensures
        match first_key_index(remaining@, key@, 0) {
            Some(k) => r == Some(k as usize) && 0 <= k < remaining@.len() && remaining@[k].key@ == key@,
            None => r is None,
        },
{
    proof {
        lemma_first_key_index(remaining@, key@, 0);
    }
    let mut i: usize = 0;
    while i < remaining.len()
        invariant
            0 <= i <= remaining@.len(),
            first_key_index(remaining@, key@, 0) == first_key_index(remaining@, key@, i as nat),
        decreases remaining@.len() - i,
    {
        if key_eq(&remaining[i].key, key) {
            return Some(i);
        }
        i += 1;
    }
    None
}

/// Checks one declared outcome and snapshots its balance.
fn snapshot_outcome(
    o: &IntentOutcome,
    pda: &Pubkey,
    source_ata: &Pubkey,
    remaining: &[AccountSnapshot],
) -> (r: Result<BalanceOutcome, FactoryError>)
    ensures
        match spec_outcome_check(*o, pda@, source_ata@, remaining@) {
            Ok((k, kind, pre)) => r matches Ok(b) && b.account_index == k && b.kind == kind
                && b.pre == pre && b.min_delta == o.amount,
            Err(f) => r is Err && factory_fault_of(r->Err_0) == f,
        },
{
    if key_eq(&o.account, pda) || key_eq(&o.account, source_ata) {
        return Err(FactoryError::Intent(IntentError::BadOutcomeAccount));
    }
    let k = match find_account(remaining, &o.account) {
        Some(k) => k,
        None => return Err(FactoryError::Intent(IntentError::BadOutcomeAccount)),
    };
    let a = &remaining[k];
    let kind = match o.mint {
        Some(m) => {
            if !key_eq(&a.owner, &SPL_TOKEN_ID) {
                return Err(FactoryError::Intent(IntentError::BadOutcomeAccount));
            }
            if a.data.len() != TOKEN_ACCOUNT_LEN {
                return Err(FactoryError::Intent(IntentError::BadOutcomeAccount));
            }
            let ta = match deserialize_token_account(a.data.as_slice()) {
                Ok(t) => t,
                Err(e) => return Err(FactoryError::Account(e)),
            };
            if !key_eq(&ta.mint, &m) {
                return Err(FactoryError::Intent(IntentError::BadOutcomeAccount));
            }
            BalanceKind::SplToken
        },
        None => BalanceKind::NativeLamports,
    };
    BalanceOutcome::snapshot(a, k, kind, o.amount)
}

/// Steps 1 to 4 of `execute_intent`: the state, PDA, deadline, executor and
/// source checks, then each declared outcome's check and pre-route balance,
/// then the virtual account list of the route.
#[verifier::loop_isolation(false)]
pub fn handle_execute_intent(
    state: &IntentState,
    intent_pda: &Pubkey,
    source_ata: &AccountSnapshot,
    now: i64,
    executor: &AccountSnapshot,
    remaining: &[AccountSnapshot],
) -> (r: Result<ExecuteIntentPlan, FactoryError>)
    requires
        state.outcome_count <= MAX_OUTCOMES,
    ensures
        match spec_execute_intent_fault(*state, intent_pda@, *source_ata, now, *executor, remaining@) {
            Some(f) => r is Err && factory_fault_of(r->Err_0) == f,
            None => r matches Ok(plan) && execute_intent_plan_matches(
                plan,
                *state,
                *intent_pda,
                *source_ata,
                remaining@,
            ),
        },
{
    if state.status != IntentStatus::Initialized {
        return Err(FactoryError::Intent(IntentError::IntentAlreadyExecuted));
    }
    let src_mint = assert_src_mint_some(&state.src_mint)?;
    verify_intent_pda(&state.intent_hash, state.bump, intent_pda)?;
    assert_deadline_not_passed(now, state.deadline)?;
    validate_executor(&state.executor, executor)?;
    let source_ta = validate_source_ata(source_ata, intent_pda, &src_mint)?;
    assert_source_amount(source_ta.amount, state.amount_in)?;
    assert_tail_len(remaining.len())?;
    let stored = state.outcomes();
    let ghost os = spec_state_outcomes(*state);
    let mut outcomes: Vec<BalanceOutcome> = Vec::new();
    let mut i: usize = 0;
    while i < stored.len()
        invariant
            0 <= i <= stored@.len(),
            stored@ == os,
            outcomes@.len() == i,
            outcomes_fault(os, intent_pda@, source_ata.key@, remaining@, 0) == outcomes_fault(
                os,
                intent_pda@,
                source_ata.key@,
                remaining@,
                i as nat,
            ),
            forall|j: int|
                0 <= j < i ==> outcome_snapshot_matches(
                    #[trigger] outcomes@[j],
                    os[j],
                    intent_pda@,
                    source_ata.key@,
                    remaining@,
                ),
        decreases stored@.len() - i,
    {
        let b = snapshot_outcome(&stored[i], intent_pda, &source_ata.key, remaining)?;
        outcomes.push(b);
        i += 1;
    }
    let virtual_keys = build_virtual_list(intent_pda, &source_ata.key, remaining);
    Ok(ExecuteIntentPlan { src_mint, outcomes, virtual_keys })
}

/// One account meta of a route call.
#[derive(Debug, Clone, Copy)]
pub struct RouteMeta {
    pub virtual_index: u8,
    pub key: Pubkey,
    pub is_signer: bool,
    pub is_writable: bool,
}

/// One route CPI: the callee (by virtual index and key) and its metas.
#[derive(Debug, Clone)]
pub struct RouteCpi {
    pub program_index: u8,
    pub program_id: Pubkey,
    pub metas: Vec<RouteMeta>,
}

/// The first failing flag check among the call's accounts `i..`: only virtual
/// index 0 may sign, and it may not be writable.
pub open spec fn route_metas_fault(call: CallModel, i: nat) -> Option<FactoryFault>
    decreases call.accounts.len() - i,
{
    if i >= call.accounts.len() {
        None
    } else {
        let (w, s) = spec_flag_for(call.flags_bitmap, i as int);
        let v = call.accounts[i as int];
        if s && v != 0 {
            Some(FactoryFault::Intent(IntentError::InvalidSignerFlag))
        } else if w && v == 0 {
            Some(FactoryFault::Intent(IntentError::InvalidWritableIntentPda))
        } else {
            route_metas_fault(call, i + 1)
        }
    }
}

/// Where a route call fails: the deny-list on its program and data, then the
/// flag checks of its accounts in order. Before those, the program index
/// and every account index must fall inside the virtual list (`[intent_pda,
/// source_ata, remaining...]`); the wire reader bounds them only by
/// `NAMED_PREFIX + remaining`, two more than the list holds.
pub open spec fn spec_route_call_fault(virtual_keys: Seq<Pubkey>, call: CallModel) -> Option<FactoryFault> {
    if call.program_ix >= virtual_keys.len() || !all_below(call.accounts, virtual_keys.len() as int) {
        Some(FactoryFault::Wire(WireError::AccountIndexOutOfBounds))
    } else {
        match spec_check_deny_list(virtual_keys[call.program_ix as int]@, call.data) {
            Some(f) => Some(f),
            None => route_metas_fault(call, 0),
        }
    }
}

/// The CPI agrees with the call: its callee and, per account, the virtual
/// key and the bitmap's flags.
pub open spec fn route_cpi_matches(cpi: RouteCpi, virtual_keys: Seq<Pubkey>, call: CallModel) -> bool {
    &&& cpi.program_index == call.program_ix
    &&& cpi.program_id == virtual_keys[call.program_ix as int]
    &&& cpi.metas@.len() == call.accounts.len()
    &&& forall|i: int|
        0 <= i < call.accounts.len() ==> {
            let m = #[trigger] cpi.metas@[i];
            let (w, s) = spec_flag_for(call.flags_bitmap, i);
            &&& m.virtual_index == call.accounts[i]
            &&& m.key == virtual_keys[call.accounts[i] as int]
            &&& m.is_writable == w
            &&& m.is_signer == s
        }
}

/// Step 5 of `execute_intent`, once per decoded call: the virtual-list bound,
/// the deny-list and flag checks, and the CPI to make (signed by the intent PDA).
#[verifier::loop_isolation(false)]
pub fn route_call(virtual_keys: &[Pubkey], call: &CallSpecRef) -> (r: Result<RouteCpi, FactoryError>)
    ensures
        match spec_route_call_fault(virtual_keys@, call@) {
            Some(f) => r is Err && factory_fault_of(r->Err_0) == f,
            None => r matches Ok(cpi) && route_cpi_matches(cpi, virtual_keys@, call@),
        },
{
    if call.program_ix as usize >= virtual_keys.len() {
        return Err(FactoryError::Wire(WireError::AccountIndexOutOfBounds));
    }
    let mut k: usize = 0;
    while k < call.accounts.len()
        invariant
            0 <= k <= call.accounts@.len(),
            forall|j: int| 0 <= j < k ==> (call.accounts@[j] as int) < virtual_keys@.len(),
        decreases call.accounts@.len() - k,
    {
        if call.accounts[k] as usize >= virtual_keys.len() {
            return Err(FactoryError::Wire(WireError::AccountIndexOutOfBounds));
        }
        k += 1;
    }
    let program_id = virtual_keys[call.program_ix as usize];
    check_deny_list(&program_id, call.data)?;
    let mut metas: Vec<RouteMeta> = Vec::new();
    let mut i: usize = 0;
    while i < call.accounts.len()
        invariant
            0 <= i <= call.accounts@.len(),
            metas@.len() == i,
            route_metas_fault(call@, 0) == route_metas_fault(call@, i as nat),
            forall|j: int|
                0 <= j < i ==> {
                    let m = #[trigger] metas@[j];
                    let (w, s) = spec_flag_for(call.flags_bitmap@, j);
                    &&& m.virtual_index == call.accounts@[j]
                    &&& m.key == virtual_keys@[call.accounts@[j] as int]
                    &&& m.is_writable == w
                    &&& m.is_signer == s
                },
        decreases call.accounts@.len() - i,
    {
        let vix = call.accounts[i];
        let (is_writable, is_signer) = call.flag_for(i);
        check_signer_flag(vix, is_signer)?;
        check_writable_intent_pda(vix, is_writable)?;
        metas.push(RouteMeta { virtual_index: vix, key: virtual_keys[vix as usize], is_signer, is_writable });
        i += 1;
    }
    Ok(RouteCpi { program_index: call.program_ix, program_id, metas })
}

/// The first outcome among `j..` whose watched account did not gain enough.
pub open spec fn deltas_fault(outcomes: Seq<BalanceOutcome>, remaining: Seq<AccountSnapshot>, j: nat) -> Option<
    FactoryFault,
>
    decreases outcomes.len() - j,
{
    if j >= outcomes.len() {
        None
    } else {
        let b = outcomes[j as int];
        match spec_balance(b.kind, remaining[b.account_index as int]) {
            None => Some(FactoryFault::AccountData),
            Some(post) => if !delta_met(b.pre, post, b.min_delta) {
                Some(FactoryFault::Intent(IntentError::InsufficientOutcome))
            } else {
                deltas_fault(outcomes, remaining, j + 1)
            },
        }
    }
}

/// Where `execute_intent` fails after its route: route bytes left over after
/// the last call, the source not drained, then the outcomes in order.
pub open spec fn spec_finish_execute_fault(
    plan: ExecuteIntentPlan,
    calls_consumed: bool,
    source_ata: AccountSnapshot,
    remaining: Seq<AccountSnapshot>,
) -> Option<FactoryFault> {
    if !calls_consumed {
        Some(FactoryFault::Wire(WireError::MalformedWireBytes))
    } else {
        match spec_source_drained(source_ata.data@, plan.src_mint@) {
            Some(f) => Some(f),
            None => deltas_fault(plan.outcomes@, remaining, 0),
        }
    }
}

/// Steps 6 and 7 of `execute_intent`, once the route reader has yielded its
/// last call, on the accounts as they are after the route: the route bytes are
/// consumed exactly, the source ATA is drained and every outcome gained its
/// minimum; then the intent is marked `Executed`. On failure the state is left
/// as it was.
#[verifier::loop_isolation(false)]
pub fn finish_execute_intent(
    state: &mut IntentState,
    plan: &ExecuteIntentPlan,
    calls: &CallsIter,
    source_ata: &AccountSnapshot,
    remaining: &[AccountSnapshot],
) -> (r: Result<(), FactoryError>)
    requires
        calls@.remaining == 0,
        forall|i: int|
            0 <= i < plan.outcomes@.len() ==> (#[trigger] plan.outcomes@[i]).account_index
                < remaining@.len(),
    ensures
        fault_of_result(r) == spec_finish_execute_fault(
            *plan,
            calls@.cursor == calls@.buf.len(),
            *source_ata,
            remaining@,
        ),
        r is Ok ==> *final(state) == (IntentState { status: IntentStatus::Executed, ..*old(state) }),
        r is Err ==> *final(state) == *old(state),
{
    if let Err(w) = calls.assert_exhausted() {
        return Err(FactoryError::Wire(w));
    }
    assert_source_drained(source_ata, &plan.src_mint)?;
    let mut i: usize = 0;
    while i < plan.outcomes.len()
        invariant
            0 <= i <= plan.outcomes@.len(),
            *state == *old(state),
            deltas_fault(plan.outcomes@, remaining@, 0) == deltas_fault(plan.outcomes@, remaining@, i as nat),
        decreases plan.outcomes@.len() - i,
    {
        let b = plan.outcomes[i];
        b.assert_delta(&remaining[b.account_index])?;
        i += 1;
    }
    state.status = IntentStatus::Executed;
    Ok(())
}


/// With no delta fault from `j` on, every outcome from `j` on met its minimum.
proof fn lemma_deltas_ok(outcomes: Seq<BalanceOutcome>, remaining: Seq<AccountSnapshot>, j: nat)
    requires
        deltas_fault(outcomes, remaining, j) is None,
    ensures
        forall|i: int|
            j <= i < outcomes.len() ==> {
                let b = #[trigger] outcomes[i];
                &&& spec_balance(b.kind, remaining[b.account_index as int]) is Some
                &&& delta_met(
                    b.pre,
                    spec_balance(b.kind, remaining[b.account_index as int])->Some_0,
                    b.min_delta,
                )
            },
    decreases outcomes.len() - j,
{
    if j < outcomes.len() {
        lemma_deltas_ok(outcomes, remaining, j + 1);
    }
}

/// Outcome enforcement: when `execute_intent` finishes, the route bytes were
/// consumed exactly, the source ATA is empty, and every outcome the intent
/// declares gained at least its minimum on its account, measured from that
/// account's balance before the route.
pub proof fn law_declared_outcomes_enforced(
    plan: ExecuteIntentPlan,
    state: IntentState,
    pda: Pubkey,
    source_before: AccountSnapshot,
    remaining_before: Seq<AccountSnapshot>,
    source_after: AccountSnapshot,
    remaining_after: Seq<AccountSnapshot>,
    calls_consumed: bool,
)
    requires
        execute_intent_plan_matches(plan, state, pda, source_before, remaining_before),
        spec_finish_execute_fault(plan, calls_consumed, source_after, remaining_after) is None,
    ensures
        calls_consumed,
        data_amount(source_after.data@) == 0,
        forall|i: int|
            0 <= i < spec_state_outcomes(state).len() ==> {
                let o = #[trigger] spec_state_outcomes(state)[i];
                let (k, kind, pre) = spec_outcome_check(o, pda@, source_before.key@, remaining_before)->Ok_0;
                &&& spec_balance(kind, remaining_after[k]) is Some
                &&& spec_balance(kind, remaining_after[k])->Some_0 >= pre
                &&& spec_balance(kind, remaining_after[k])->Some_0 - pre >= o.amount
            },
{
    lemma_deltas_ok(plan.outcomes@, remaining_after, 0);
    let os = spec_state_outcomes(state);
    assert forall|i: int| 0 <= i < os.len() implies {
        let o = #[trigger] os[i];
        let (k, kind, pre) = spec_outcome_check(o, pda@, source_before.key@, remaining_before)->Ok_0;
        &&& spec_balance(kind, remaining_after[k]) is Some
        &&& spec_balance(kind, remaining_after[k])->Some_0 >= pre
        &&& spec_balance(kind, remaining_after[k])->Some_0 - pre >= o.amount
    } by {
        let b = plan.outcomes@[i];
        assert(outcome_snapshot_matches(b, os[i], pda@, source_before.key@, remaining_before));
    }
}

/// The call stays inside the virtual list, its callee is neither this program,
/// the upgradeable loader nor a denied System instruction, only virtual index 0
/// (the intent PDA) may sign, and index 0 is never writable.
pub open spec fn route_call_safe(virtual_keys: Seq<Pubkey>, call: CallModel) -> bool {
    &&& call.program_ix < virtual_keys.len()
    &&& all_below(call.accounts, virtual_keys.len() as int)
    &&& virtual_keys[call.program_ix as int]@ != crate::keys::INTENT_FACTORY_PROGRAM_ID@
    &&& virtual_keys[call.program_ix as int]@ != crate::keys::BPF_LOADER_UPGRADEABLE_ID@
    &&& spec_check_deny_list(virtual_keys[call.program_ix as int]@, call.data) is None
    &&& forall|j: int|
        0 <= j < call.accounts.len() ==> {
            let (w, s) = #[trigger] spec_flag_for(call.flags_bitmap, j);
            &&& s ==> call.accounts[j] == 0
            &&& w ==> call.accounts[j] != 0
        }
}

proof fn lemma_route_metas_ok(call: CallModel, i: nat)
    requires
        route_metas_fault(call, i) is None,
    ensures
        forall|j: int|
            i <= j < call.accounts.len() ==> {
                let (w, s) = #[trigger] spec_flag_for(call.flags_bitmap, j);
                &&& s ==> call.accounts[j] == 0
                &&& w ==> call.accounts[j] != 0
            },
    decreases call.accounts.len() - i,
{
    if i < call.accounts.len() {
        lemma_route_metas_ok(call, i + 1);
    }
}

/// Route safety: every call that `route_call` lets through is safe to invoke
/// (`route_call_safe`), and a call that names an index at or past the end of
/// the virtual list is refused as out of bounds before any other check. Over a
/// whole run the reader hands the calls over in wire order, so every call of
/// the route that is invoked is safe.
pub proof fn law_routed_calls_safe(virtual_keys: Seq<Pubkey>, call: CallModel)
    ensures
        spec_route_call_fault(virtual_keys, call) is None ==> route_call_safe(virtual_keys, call),
        (call.program_ix >= virtual_keys.len() || !all_below(call.accounts, virtual_keys.len() as int))
            ==> spec_route_call_fault(virtual_keys, call) == Some(
            FactoryFault::Wire(WireError::AccountIndexOutOfBounds),
        ),
{
    if spec_route_call_fault(virtual_keys, call) is None {
        lemma_route_metas_ok(call, 0);
    }
}

/// A whole route: when the calls bytes hold exactly their declared number of
/// calls, read one after another in wire order up to the last byte, and
/// `route_call` lets each of them through, then every declared call is
/// invoked and each is safe to invoke.
pub proof fn law_route_run_safe(virtual_keys: Seq<Pubkey>, buf: Seq<u8>, vlen: int, calls: Seq<CallModel>)
    requires
        buf.len() > 0,
        spec_read_calls(buf, 1, buf[0] as nat, vlen) == (Ok::<Seq<CallModel>, WireError>(calls), buf.len() as int),
        forall|k: int| 0 <= k < calls.len() ==> (#[trigger] spec_route_call_fault(virtual_keys, calls[k])) is None,
    ensures
        calls.len() == buf[0],
        forall|k: int| 0 <= k < calls.len() ==> #[trigger] route_call_safe(virtual_keys, calls[k]),
{
    lemma_read_calls_len(buf, 1, buf[0] as nat, vlen);
    assert forall|k: int| 0 <= k < calls.len() implies #[trigger] route_call_safe(virtual_keys, calls[k]) by {
        assert(spec_route_call_fault(virtual_keys, calls[k]) is None);
        law_routed_calls_safe(virtual_keys, calls[k]);
    }
}

} // verus!
