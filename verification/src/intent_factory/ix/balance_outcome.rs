//! Outcome enforcement: snapshot a balance before the route, check its gain after.

use vstd::prelude::*;
use crate::keys::{AccountSnapshot, data_amount};
use crate::outside::token_account_accepts;
use crate::intent_factory::errors::{IntentError, FactoryError, FactoryFault, fault_of_result};
use crate::intent_factory::guards::token::read_spl_amount;

verus! {

/// What an outcome measures: lamports, or a token account's amount.
#[derive(Clone, Copy, Debug, PartialEq, Eq, Structural)]
pub enum BalanceKind {
    NativeLamports,
    SplToken,
}

/// The balance of `kind` that `account` holds, when it can be read.
pub open spec fn spec_balance(kind: BalanceKind, account: AccountSnapshot) -> Option<u64> {
    match kind {
        BalanceKind::NativeLamports => Some(account.lamports),
        BalanceKind::SplToken => if token_account_accepts(account.data@) {
            Some(data_amount(account.data@))
        } else {
            None
        },
    }
}

/// An outcome's pre-route balance: which trailing account it watches, how, the
/// minimum gain, and the balance before the route.
#[derive(Clone, Copy, Debug)]
pub struct BalanceOutcome {
    pub account_index: usize,
    pub kind: BalanceKind,
    pub min_delta: u64,
    pub pre: u64,
}

/// Whether a balance that went from `pre` to `post` met the minimum gain
/// (a fall always fails).
pub open spec fn delta_met(pre: u64, post: u64, min_delta: u64) -> bool {
    post >= pre && post - pre >= min_delta
}

impl BalanceOutcome {
    /// Records the balance of `account` (trailing account `account_index`) before the route.
    pub fn snapshot(account: &AccountSnapshot, account_index: usize, kind: BalanceKind, min_delta: u64) -> (r: Result<
        BalanceOutcome,
        FactoryError,
    >)
        ensures
            match spec_balance(kind, *account) {
                Some(v) => r matches Ok(b) && b.account_index == account_index && b.kind == kind
                    && b.min_delta == min_delta && b.pre == v,
                None => fault_of_result(r) == Some(FactoryFault::AccountData),
            },
    {
        let pre = match kind {
            BalanceKind::NativeLamports => account.lamports,
            BalanceKind::SplToken => read_spl_amount(account)?,
        };
        Ok(BalanceOutcome { account_index, kind, min_delta, pre })
    }

    /// Checks the outcome against the watched account as it is after the route:
    /// its balance must have grown by at least `min_delta`.
    pub fn assert_delta(&self, account: &AccountSnapshot) -> (r: Result<(), FactoryError>)
        ensures
            fault_of_result(r) == match spec_balance(self.kind, *account) {
                None => Some(FactoryFault::AccountData),
                Some(post) => if delta_met(self.pre, post, self.min_delta) {
                    None
                } else {
                    Some(FactoryFault::Intent(IntentError::InsufficientOutcome))
                },
            },
    {
        let post = match self.kind {
            BalanceKind::NativeLamports => account.lamports,
            BalanceKind::SplToken => read_spl_amount(account)?,
        };
        let delta = match post.checked_sub(self.pre) {
            Some(d) => d,
            None => return Err(FactoryError::Intent(IntentError::InsufficientOutcome)),
        };
        if delta < self.min_delta {
            return Err(FactoryError::Intent(IntentError::InsufficientOutcome));
        }
        Ok(())
    }
}

} // verus!
