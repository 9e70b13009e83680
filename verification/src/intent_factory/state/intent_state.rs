//! The state stored in an intent PDA: the header's fields, the intent hash and
//! bump, and the intent's lifecycle status.

use vstd::prelude::*;
use crate::keys::Pubkey;
use super::intent_header::{IntentHeader, IntentHeaderView, IntentOutcome, MAX_OUTCOMES};

verus! {

/// Where an intent is in its lifecycle.
#[derive(Clone, Copy, PartialEq, Eq, Debug, Structural)]
pub enum IntentStatus {
    Initialized,
    Executed,
    Refunded,
}

/// The account data of an intent PDA (outcomes stored column-wise in fixed slots).
#[derive(Clone, Copy, Debug)]
pub struct IntentState {
    pub intent_hash: [u8; 32],
    pub status: IntentStatus,
    pub bump: u8,
    pub user: Pubkey,
    pub src_mint: Option<Pubkey>,
    pub amount_in: u64,
    pub outcome_count: u8,
    pub outcome_mint_tags: [u8; MAX_OUTCOMES],
    pub outcome_mints: [Pubkey; MAX_OUTCOMES],
    pub outcome_accounts: [Pubkey; MAX_OUTCOMES],
    pub outcome_amounts: [u64; MAX_OUTCOMES],
    pub deadline: i64,
    pub salt: [u8; 32],
    pub executor: Pubkey,
}

/// The serialized size of an intent state: discriminator (8), hash (32),
/// status (1), bump (1), user (32), optional source mint (1 + 32), amount (8),
/// outcome count (1), four outcome slots of tag (1), mint (32), account (32) and
/// amount (8), deadline (8), salt (32), executor (32).
pub const INTENT_STATE_MAX_SIZE: usize = 8 + 32 + 1 + 1 + 32 + 1 + 32 + 8 + 1 + 4 + 32 * 4 + 32 * 4 + 8 * 4 + 8
    + 32 + 32;

/// Outcome slot `i` of a state: the mint is present when its tag is `1`.
pub open spec fn state_outcome(s: IntentState, i: int) -> IntentOutcome {
    IntentOutcome {
        mint: if s.outcome_mint_tags[i] == 1 { Some(s.outcome_mints[i]) } else { None },
        account: s.outcome_accounts[i],
        amount: s.outcome_amounts[i],
    }
}

/// The outcomes a state declares: its first `outcome_count` slots.
pub open spec fn spec_state_outcomes(s: IntentState) -> Seq<IntentOutcome> {
    Seq::new(s.outcome_count as nat, |i: int| state_outcome(s, i))
}

/// Every byte of the key is zero.
pub open spec fn is_zero_key(k: Pubkey) -> bool {
    forall|b: int| 0 <= b < 32 ==> k[b] == 0
}

/// The slots past the declared outcomes hold zeros, and a declared outcome
/// without a mint has tag `0` and a zero mint (a declared one has tag `1`).
pub open spec fn outcome_slots_canonical(s: IntentState) -> bool {
    forall|i: int|
        0 <= i < MAX_OUTCOMES ==> if i < s.outcome_count {
            &&& (#[trigger] s.outcome_mint_tags[i] == 0 || s.outcome_mint_tags[i] == 1)
            &&& s.outcome_mint_tags[i] == 0 ==> is_zero_key(s.outcome_mints[i])
        } else {
            &&& s.outcome_mint_tags[i] == 0
            &&& is_zero_key(s.outcome_mints[i])
            &&& is_zero_key(s.outcome_accounts[i])
            &&& s.outcome_amounts[i] == 0
        }
}

/// `s` is the state stored for header `h` with this hash and bump: status
/// `Initialized`, the header's fields, each outcome in its slot, the other
/// slots zero.
pub open spec fn state_stores_header(s: IntentState, h: IntentHeaderView, intent_hash: Seq<u8>, bump: u8) -> bool {
    &&& s.intent_hash@ == intent_hash
    &&& s.status == IntentStatus::Initialized
    &&& s.bump == bump
    &&& s.user == h.user
    &&& s.src_mint == h.src_mint
    &&& s.amount_in == h.amount_in
    &&& s.deadline == h.deadline
    &&& s.salt == h.salt
    &&& s.executor == h.executor
    &&& s.outcome_count <= MAX_OUTCOMES
    &&& spec_state_outcomes(s) == h.outcomes
    &&& outcome_slots_canonical(s)
}

impl IntentState {
    /// The outcomes this state declares.
    pub fn outcomes(&self) -> (r: Vec<IntentOutcome>)
        requires
            self.outcome_count <= MAX_OUTCOMES,
        ensures
            r@ == spec_state_outcomes(*self),
    {
        let n = self.outcome_count as usize;
        let mut out: Vec<IntentOutcome> = Vec::new();
        let mut i: usize = 0;
        while i < n
            invariant
                0 <= i <= n <= MAX_OUTCOMES,
                n == self.outcome_count,
                out@.len() == i,
                forall|j: int| 0 <= j < i ==> #[trigger] out@[j] == state_outcome(*self, j),
            decreases n - i,
        {
            let mint = if self.outcome_mint_tags[i] == 1 {
                Some(self.outcome_mints[i])
            } else {
                None
            };
            out.push(IntentOutcome {
                mint,
                account: self.outcome_accounts[i],
                amount: self.outcome_amounts[i],
            });
            i += 1;
        }
        assert(out@ =~= spec_state_outcomes(*self));
        out
    }

    /// The freshly initialized state for a header, its hash and its PDA bump.
    pub fn initialized(header: &IntentHeader, intent_hash: [u8; 32], bump: u8) -> (r: IntentState)
        requires
            header.outcomes@.len() <= MAX_OUTCOMES,
        ensures
            state_stores_header(r, header@, intent_hash@, bump),
    {
        let mut outcome_mint_tags = [0u8; 4];
        let mut outcome_mints = [[0u8; 32]; 4];
        let mut outcome_accounts = [[0u8; 32]; 4];
        let mut outcome_amounts = [0u64; 4];
        let n = header.outcomes.len();
        let mut i: usize = 0;
        while i < n
            invariant
                0 <= i <= n <= MAX_OUTCOMES,
                n == header.outcomes@.len(),
                forall|j: int| i <= j < 4 ==> #[trigger] outcome_mint_tags[j] == 0,
                forall|j: int| i <= j < 4 ==> is_zero_key(#[trigger] outcome_mints[j]),
                forall|j: int| i <= j < 4 ==> is_zero_key(#[trigger] outcome_accounts[j]),
                forall|j: int| i <= j < 4 ==> #[trigger] outcome_amounts[j] == 0,
                forall|j: int|
                    0 <= j < i ==> {
                        let o = #[trigger] header.outcomes@[j];
                        &&& outcome_accounts[j] == o.account
                        &&& outcome_amounts[j] == o.amount
                        &&& match o.mint {
                            Some(m) => outcome_mint_tags[j] == 1 && outcome_mints[j] == m,
                            None => outcome_mint_tags[j] == 0 && is_zero_key(outcome_mints[j]),
                        }
                    },
            decreases n - i,
        {
            let o = header.outcomes[i];
            if let Some(m) = o.mint {
                outcome_mint_tags[i] = 1;
                outcome_mints[i] = m;
            }
            outcome_accounts[i] = o.account;
            outcome_amounts[i] = o.amount;
            i += 1;
        }
        let r = IntentState {
            intent_hash,
            status: IntentStatus::Initialized,
            bump,
            user: header.user,
            src_mint: header.src_mint,
            amount_in: header.amount_in,
            outcome_count: n as u8,
            outcome_mint_tags,
            outcome_mints,
            outcome_accounts,
            outcome_amounts,
            deadline: header.deadline,
            salt: header.salt,
            executor: header.executor,
        };
        assert forall|j: int| 0 <= j < n implies #[trigger] spec_state_outcomes(r)[j]
            == header.outcomes@[j] by {
            let o = header.outcomes@[j];
            assert(state_outcome(r, j) == o);
        }
        assert(spec_state_outcomes(r) =~= header.outcomes@);
        assert forall|j: int| 0 <= j < MAX_OUTCOMES implies (if j < r.outcome_count {
            &&& (#[trigger] r.outcome_mint_tags[j] == 0 || r.outcome_mint_tags[j] == 1)
            &&& r.outcome_mint_tags[j] == 0 ==> is_zero_key(r.outcome_mints[j])
        } else {
            &&& r.outcome_mint_tags[j] == 0
            &&& is_zero_key(r.outcome_mints[j])
            &&& is_zero_key(r.outcome_accounts[j])
            &&& r.outcome_amounts[j] == 0
        }) by {
            if j < n {
                let o = header.outcomes@[j];
                assert(o == header.outcomes@[j]);
            }
        }
        r
    }
}

} // verus!
