//! `init_intent`: store a canonical header in its intent PDA, once.

use vstd::prelude::*;
use crate::keys::{Pubkey, AccountSnapshot};
use crate::outside::solana_sha256;
use crate::intent_factory::errors::{IntentError, FactoryError, FactoryFault, factory_fault_of};
use crate::intent_factory::guards::common::{
    assert_src_mint_some, validate_executor, spec_validate_executor,
};
use crate::intent_factory::hash::compute_intent_hash;
use crate::intent_factory::pda::{verify_intent_pda, spec_intent_pda_ok};
use crate::intent_factory::state::intent_header::{
    IntentHeader, IntentHeaderView, spec_decode, header_bytes, law_encoding_of_decoded,
};
use crate::intent_factory::state::intent_state::{
    IntentState, IntentStatus, state_stores_header, INTENT_STATE_MAX_SIZE,
};

verus! {

/// What `init_intent` decides, in order: the header decodes (strictly, so it
/// is canonical), names a source mint, the executor account is the header's
/// and signed, the PDA is the intent PDA for the header's hash and `bump`, and
/// it holds no data yet. The decoded header on success.
pub open spec fn spec_init_intent(
    header_bytes: Seq<u8>,
    bump: u8,
    pda: AccountSnapshot,
    executor: AccountSnapshot,
) -> Result<IntentHeaderView, FactoryFault> {
    match spec_decode(header_bytes) {
        None => Err(FactoryFault::Intent(IntentError::MalformedHeader)),
        Some(h) => if h.src_mint is None {
            Err(FactoryFault::Intent(IntentError::InvalidSrcMint))
        } else if spec_validate_executor(h.executor@, executor.key@, executor.is_signer) is Some {
            Err(spec_validate_executor(h.executor@, executor.key@, executor.is_signer)->Some_0)
        } else if !spec_intent_pda_ok(solana_sha256(header_bytes), bump, pda.key@) {
            Err(FactoryFault::Intent(IntentError::BadIntentPda))
        } else if pda.data@.len() != 0 {
            Err(FactoryFault::Intent(IntentError::IntentAlreadyInitialized))
        } else {
            Ok(h)
        },
    }
}

/// What `init_intent` does once its checks pass: top the PDA up by
/// `lamports_needed` (nothing when zero), allocate `space` bytes, assign it to
/// the factory, and write `state`.
#[derive(Debug, Clone, Copy)]
pub struct InitPlan {
    pub lamports_needed: u64,
    pub space: usize,
    pub state: IntentState,
}

/// All of `init_intent`'s checks, and the state to store. `rent_min` is the
/// rent-exempt minimum for `INTENT_STATE_MAX_SIZE` bytes.
pub fn handle_init_intent(
    header_bytes: &[u8],
    bump: u8,
    intent_pda: &AccountSnapshot,
    executor: &AccountSnapshot,
    rent_min: u64,
) -> (r: Result<InitPlan, FactoryError>)
    ensures
        match spec_init_intent(header_bytes@, bump, *intent_pda, *executor) {
            Ok(h) => r matches Ok(plan) && state_stores_header(
                plan.state,
                h,
                solana_sha256(header_bytes@),
                bump,
            ) && plan.space == INTENT_STATE_MAX_SIZE && plan.lamports_needed == (if rent_min
                > intent_pda.lamports {
                rent_min - intent_pda.lamports
            } else {
                0
            }),
            Err(f) => r is Err && factory_fault_of(r->Err_0) == f,
        },
{
    let header = match IntentHeader::decode(header_bytes) {
        Ok(h) => h,
        Err(e) => return Err(FactoryError::Intent(e)),
    };
    proof {
        law_encoding_of_decoded(header_bytes@);
    }
    let re_encoded = header.canonical_encode();
    if !bytes_eq(re_encoded.as_slice(), header_bytes) {
        return Err(FactoryError::Intent(IntentError::MalformedHeader));
    }
    assert_src_mint_some(&header.src_mint)?;
    validate_executor(&header.executor, executor)?;
    let intent_hash = compute_intent_hash(header_bytes);
    verify_intent_pda(&intent_hash, bump, &intent_pda.key)?;
    if intent_pda.data.len() != 0 {
        return Err(FactoryError::Intent(IntentError::IntentAlreadyInitialized));
    }
    let lamports_needed = rent_min.saturating_sub(intent_pda.lamports);
    let state = IntentState::initialized(&header, intent_hash, bump);
    Ok(InitPlan { lamports_needed, space: INTENT_STATE_MAX_SIZE, state })
}

/// Byte-wise equality of two slices.
fn bytes_eq(a: &[u8], b: &[u8]) -> (r: bool)
    ensures
        r == (a@ == b@),
{
    if a.len() != b.len() {
        return false;
    }
    let mut i: usize = 0;
    while i < a.len()
        invariant
            0 <= i <= a@.len(),
            a@.len() == b@.len(),
            forall|j: int| 0 <= j < i ==> a@[j] == b@[j],
        decreases a@.len() - i,
    {
        if a[i] != b[i] {
            return false;
        }
        i += 1;
    }
    assert(a@ =~= b@);
    true
}

/// An initialized intent is bound to its PDA: the state `init_intent` stores
/// passes the PDA check that `execute_intent` and `refund_intent` repeat, and
/// starts in status `Initialized`.
pub proof fn law_initialized_state_is_bound_to_pda(
    header_bytes: Seq<u8>,
    bump: u8,
    pda: AccountSnapshot,
    executor: AccountSnapshot,
    state: IntentState,
)
    requires
        spec_init_intent(header_bytes, bump, pda, executor) is Ok,
        state_stores_header(
            state,
            spec_init_intent(header_bytes, bump, pda, executor)->Ok_0,
            solana_sha256(header_bytes),
            bump,
        ),
    ensures
        spec_intent_pda_ok(state.intent_hash@, state.bump, pda.key@),
        state.status == IntentStatus::Initialized,
        state.src_mint is Some,
{
}

} // verus!
