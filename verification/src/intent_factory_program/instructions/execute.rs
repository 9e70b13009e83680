//! `execute` (variant 0): run CPIs signed by the intent's vault PDA, then check
//! that the source was drained and every transfer leg gained its minimum.
//!
//! The runtime glue calls `execute_setup`, starts a step with `first_cpi_step`,
//! calls `execute_next_cpi` until it returns `None` (invoking each returned
//! call), then `execute_finish` on fresh account snapshots, then performs the
//! returned cleanup.

use vstd::prelude::*;
use vstd::bytes::*;
use vstd::slice::slice_subrange;
use crate::keys::{
    Pubkey, AccountSnapshot, key_eq, push_all, data_mint, BPF_LOADER_ID, BPF_LOADER_UPGRADEABLE_ID, SYSTEM_PROGRAM_ID,
};
use crate::outside::program_address_search;
use crate::intent_factory_program::constants::{
    FLAG_INNER_SIGNER, FLAG_INNER_WRITABLE, MAX_ACC_PER_CPI, MAX_CPI_NB, MAX_OVERRIDE_PER_CPI,
    MAX_TRANSFER_NB,
};
use crate::intent_factory_program::errors::{IntentSolverError, SolverError, SolverFault, fault_of};
use crate::intent_factory_program::helpers::{
    read_u64_le, read_u16_le, is_cpi_program_denied, read_transfer_check_balance,
    read_spl_balance, resolve_intent_source, spec_intent_source, spec_transfer_check_balance,
    spec_spl_balance, IntentSource, law_intent_source_header,
};
use crate::intent_factory_program::intent_hash::{
    hash_intent, spec_hash_intent, find_intent_pda, intent_pda_seeds, keys_view,
};

verus! {

/// The intent prefix of `execute` data.
#[derive(Debug, Clone)]
pub struct ExecutePrefix {
    pub amount_in: u64,
    pub salt: [u8; 32],
    pub transfer_nb: u8,
    pub transfer_min_amounts: Vec<u64>,
    pub cpi_count: u8,
    pub cpi_cursor: usize,
}

/// Where parsing the `execute` prefix fails, if it does: short data before the
/// legs, a leg count outside `1..=8`, short data before the CPI count, or a CPI
/// count outside `1..=16`.
pub open spec fn spec_execute_prefix_fault(rest: Seq<u8>) -> Option<SolverFault> {
    if rest.len() < 41 {
        Some(SolverFault::Custom(IntentSolverError::InsufficientData))
    } else if rest[40] == 0 || rest[40] > MAX_TRANSFER_NB {
        Some(SolverFault::Custom(IntentSolverError::InvalidTransferNb))
    } else if rest.len() < 42 + 8 * rest[40] {
        Some(SolverFault::Custom(IntentSolverError::InsufficientData))
    } else if rest[41 + 8 * rest[40]] == 0 || rest[41 + 8 * rest[40]] > MAX_CPI_NB {
        Some(SolverFault::Custom(IntentSolverError::InvalidCpiCount))
    } else {
        None
    }
}

/// The prefix that `rest` encodes: `amount_in` (LE), salt, `transfer_nb`, the
/// minimum of each leg (LE), the CPI count; the CPI blocks start after it.
pub open spec fn prefix_matches(p: ExecutePrefix, rest: Seq<u8>) -> bool {
    let nb = rest[40] as int;
    &&& p.amount_in == spec_u64_from_le_bytes(rest.subrange(0, 8))
    &&& p.salt@ == rest.subrange(8, 40)
    &&& p.transfer_nb == rest[40]
    &&& p.transfer_min_amounts@.len() == nb
    &&& forall|i: int|
        0 <= i < nb ==> #[trigger] p.transfer_min_amounts@[i] == spec_u64_from_le_bytes(
            rest.subrange(41 + 8 * i, 49 + 8 * i),
        )
    &&& p.cpi_count == rest[41 + 8 * nb]
    &&& p.cpi_cursor == 42 + 8 * nb
}

/// Parses the intent prefix of `execute` data (the CPI blocks follow it).
pub fn parse_execute_prefix(rest: &[u8]) -> (r: Result<ExecutePrefix, SolverError>)
    ensures
        match spec_execute_prefix_fault(rest@) {
            Some(f) => r is Err && fault_of(r->Err_0) == f,
            None => r matches Ok(p) && prefix_matches(p, rest@),
        },
{
    if rest.len() < 41 {
        return Err(SolverError::Custom(IntentSolverError::InsufficientData));
    }
    let mut cursor = 0usize;
    let amount_in = read_u64_le(rest, &mut cursor)?;
    let mut salt = [0u8; 32];
    let mut k: usize = 0;
    while k < 32
        invariant
            0 <= k <= 32,
            rest@.len() >= 41,
            salt@.len() == 32,
            forall|j: int| 0 <= j < k ==> salt@[j] == rest@[8 + j],
        decreases 32 - k,
    {
        salt[k] = rest[8 + k];
        k += 1;
    }
    assert(salt@ =~= rest@.subrange(8, 40));
    let transfer_nb = rest[40];
    cursor = 41;
    if transfer_nb == 0 || transfer_nb > MAX_TRANSFER_NB {
        return Err(SolverError::Custom(IntentSolverError::InvalidTransferNb));
    }
    let nb = transfer_nb as usize;
    if rest.len() < 42 + 8 * nb {
        return Err(SolverError::Custom(IntentSolverError::InsufficientData));
    }
    let mut mins: Vec<u64> = Vec::new();
    let mut i: usize = 0;
    while i < nb
        invariant
            0 <= i <= nb <= 8,
            rest@.len() >= 42 + 8 * nb,
            cursor == 41 + 8 * i,
            mins@.len() == i,
            forall|j: int|
                0 <= j < i ==> #[trigger] mins@[j] == spec_u64_from_le_bytes(
                    rest@.subrange(41 + 8 * j, 49 + 8 * j),
                ),
        decreases nb - i,
    {
        let v = read_u64_le(rest, &mut cursor)?;
        mins.push(v);
        i += 1;
    }
    let cpi_count = rest[cursor];
    let cpi_cursor = cursor + 1;
    if cpi_count == 0 || cpi_count > MAX_CPI_NB {
        return Err(SolverError::Custom(IntentSolverError::InvalidCpiCount));
    }
    Ok(ExecutePrefix { amount_in, salt, transfer_nb, transfer_min_amounts: mins, cpi_count, cpi_cursor })
}

/// The minimum of each leg that `rest` declares.
pub open spec fn prefix_mins(rest: Seq<u8>) -> Seq<u64> {
    Seq::new(
        rest[40] as nat,
        |i: int| spec_u64_from_le_bytes(rest.subrange(41 + 8 * i, 49 + 8 * i)),
    )
}

/// The keys of the `nb` transfer-check accounts starting at `start`.
pub open spec fn dest_keys(accounts: Seq<AccountSnapshot>, start: int, nb: nat) -> Seq<Seq<u8>> {
    Seq::new(nb, |i: int| accounts[start + i].key@)
}

/// Every transfer-check account's balance can be read.
pub open spec fn balances_readable(accounts: Seq<AccountSnapshot>, start: int, nb: nat) -> bool {
    forall|i: int|
        0 <= i < nb ==> (#[trigger] spec_transfer_check_balance(
            accounts[start + i].owner@,
            accounts[start + i].lamports,
            accounts[start + i].data@,
        )) is Some
}

/// The intent hash `execute` rebuilds: funder (account 2), the source's mint,
/// the data's `amount_in` and salt, the executor (account 0), and the legs
/// (destinations from the accounts, minimums from the data).
pub open spec fn execute_intent_hash(
    accounts: Seq<AccountSnapshot>,
    rest: Seq<u8>,
    mint: Seq<u8>,
    start: int,
) -> Seq<u8> {
    spec_hash_intent(
        accounts[2].key@,
        mint,
        spec_u64_from_le_bytes(rest.subrange(0, 8)),
        rest.subrange(8, 40),
        accounts[0].key@,
        rest[40],
        dest_keys(accounts, start, rest[40] as nat),
        prefix_mins(rest),
    )
}

/// The CPI blocks are not hashed: two `execute` data that agree up to the CPI
/// count rebuild the same intent hash from the same accounts.
pub proof fn law_cpi_blocks_not_hashed(
    accounts: Seq<AccountSnapshot>,
    rest1: Seq<u8>,
    rest2: Seq<u8>,
    mint: Seq<u8>,
    start: int,
)
    requires
        rest1.len() >= 41,
        rest1.len() >= 41 + 8 * rest1[40],
        rest2.len() >= 41 + 8 * rest1[40],
        rest1.subrange(0, 41 + 8 * rest1[40]) == rest2.subrange(0, 41 + 8 * rest1[40]),
    ensures
        execute_intent_hash(accounts, rest1, mint, start) == execute_intent_hash(
            accounts,
            rest2,
            mint,
            start,
        ),
{
    let n = 41 + 8 * rest1[40];
    assert(rest1[40] == rest1.subrange(0, n)[40]);
    assert(rest2[40] == rest2.subrange(0, n)[40]);
    assert(rest1.subrange(0, 8) =~= rest1.subrange(0, n).subrange(0, 8));
    assert(rest2.subrange(0, 8) =~= rest2.subrange(0, n).subrange(0, 8));
    assert(rest1.subrange(8, 40) =~= rest2.subrange(8, 40)) by {
        assert(rest1.subrange(8, 40) =~= rest1.subrange(0, n).subrange(8, 40));
        assert(rest2.subrange(8, 40) =~= rest2.subrange(0, n).subrange(8, 40));
    }
    assert(prefix_mins(rest1) =~= prefix_mins(rest2)) by {
        assert forall|i: int| 0 <= i < rest1[40] implies #[trigger] prefix_mins(rest1)[i]
            == prefix_mins(rest2)[i] by {
            assert(rest1.subrange(41 + 8 * i, 49 + 8 * i) =~= rest1.subrange(0, n).subrange(
                41 + 8 * i,
                49 + 8 * i,
            ));
            assert(rest2.subrange(41 + 8 * i, 49 + 8 * i) =~= rest2.subrange(0, n).subrange(
                41 + 8 * i,
                49 + 8 * i,
            ));
        }
    }
}

/// Where the checks before the CPIs fail, in order: the prefix, the account
/// header and source, the transfer-check accounts' presence, the PDA (no address,
/// or a different one), and reading their balances.
pub open spec fn spec_execute_setup_fault(
    program_id: Seq<u8>,
    accounts: Seq<AccountSnapshot>,
    rest: Seq<u8>,
) -> Option<SolverFault> {
    match spec_execute_prefix_fault(rest) {
        Some(f) => Some(f),
        None => match spec_intent_source(accounts) {
            Err(f) => Some(f),
            Ok((spl, mint, start)) => {
                let nb = rest[40] as nat;
                if accounts.len() < start + nb {
                    Some(SolverFault::Custom(IntentSolverError::NotEnoughAccounts))
                } else {
                    match program_address_search(
                        intent_pda_seeds(execute_intent_hash(accounts, rest, mint, start)),
                        program_id,
                    ) {
                        None => Some(SolverFault::NoViableProgramAddress),
                        Some((k, b)) => if k != accounts[1].key@ {
                            Some(SolverFault::Custom(IntentSolverError::InvalidPda))
                        } else if !balances_readable(accounts, start, nb) {
                            Some(SolverFault::AccountData)
                        } else {
                            None
                        },
                    }
                }
            },
        },
    }
}

/// Everything `execute` has established before its CPIs.
#[derive(Debug, Clone)]
pub struct ExecutePlan {
    pub prefix: ExecutePrefix,
    pub source: IntentSource,
    pub account_count: usize,
    pub transfer_section_start: usize,
    pub transfer_destinations: Vec<Pubkey>,
    pub intent_hash: [u8; 32],
    pub bump: u8,
    pub pre_balances: Vec<u64>,
    pub next_index: usize,
}

/// The plan agrees with the instruction's accounts and data.
pub open spec fn plan_matches(
    plan: ExecutePlan,
    program_id: Seq<u8>,
    accounts: Seq<AccountSnapshot>,
    rest: Seq<u8>,
) -> bool {
    let nb = rest[40] as nat;
    let start = plan.transfer_section_start as int;
    &&& prefix_matches(plan.prefix, rest)
    &&& spec_intent_source(accounts) == Ok::<(bool, Seq<u8>, int), SolverFault>(
        (plan.source.from_is_spl, plan.source.mint@, start),
    )
    &&& plan.account_count == accounts.len()
    &&& start + nb <= accounts.len()
    &&& keys_view(plan.transfer_destinations@) == dest_keys(accounts, start, nb)
    &&& plan.intent_hash@ == execute_intent_hash(accounts, rest, plan.source.mint@, start)
    &&& program_address_search(intent_pda_seeds(plan.intent_hash@), program_id) == Some(
        (accounts[1].key@, plan.bump),
    )
    &&& plan.pre_balances@.len() == nb
    &&& forall|i: int|
        0 <= i < nb ==> spec_transfer_check_balance(
            accounts[start + i].owner@,
            accounts[start + i].lamports,
            accounts[start + i].data@,
        ) == Some(#[trigger] plan.pre_balances@[i])
    &&& plan.next_index == start + nb
    &&& plan.prefix.cpi_cursor <= rest.len()
    &&& 1 <= plan.prefix.cpi_count <= MAX_CPI_NB
}

/// Steps 1 to 5 of `execute`: parse the intent prefix, check the account header
/// and source, read the transfer-check destinations, rebuild the intent hash,
/// verify the vault PDA, and snapshot the destinations' balances.
#[verifier::loop_isolation(false)]
pub fn execute_setup(program_id: &Pubkey, accounts: &[AccountSnapshot], rest: &[u8]) -> (r: Result<
    ExecutePlan,
    SolverError,
>)
    ensures
        match spec_execute_setup_fault(program_id@, accounts@, rest@) {
            Some(f) => r is Err && fault_of(r->Err_0) == f,
            None => r matches Ok(plan) && plan_matches(plan, program_id@, accounts@, rest@),
        },
{
    let prefix = parse_execute_prefix(rest)?;
    let source = resolve_intent_source(accounts)?;
    let start = source.next_index;
    let nb = prefix.transfer_nb as usize;
    if accounts.len() < start + nb {
        return Err(SolverError::Custom(IntentSolverError::NotEnoughAccounts));
    }
    let mut dests: Vec<Pubkey> = Vec::new();
    let mut i: usize = 0;
    while i < nb
        invariant
            0 <= i <= nb <= 8,
            start + nb <= accounts@.len(),
            dests@.len() == i,
            forall|j: int| 0 <= j < i ==> #[trigger] dests@[j] == accounts@[start + j].key,
        decreases nb - i,
    {
        dests.push(accounts[start + i].key);
        i += 1;
    }
    proof {
        assert(keys_view(dests@) =~= dest_keys(accounts@, start as int, nb as nat));
        assert(prefix.transfer_min_amounts@ =~= prefix_mins(rest@));
    }
    let intent_hash = hash_intent(
        &accounts[2].key,
        &source.mint,
        prefix.amount_in,
        &prefix.salt,
        &accounts[0].key,
        prefix.transfer_nb,
        dests.as_slice(),
        prefix.transfer_min_amounts.as_slice(),
    );
    let (pda_expected, bump) = match find_intent_pda(&intent_hash, program_id) {
        Some(found) => found,
        None => return Err(SolverError::NoViableProgramAddress),
    };
    if !key_eq(&accounts[1].key, &pda_expected) {
        return Err(SolverError::Custom(IntentSolverError::InvalidPda));
    }
    let mut pre_balances: Vec<u64> = Vec::new();
    let mut i: usize = 0;
    while i < nb
        invariant
            0 <= i <= nb <= 8,
            start + nb <= accounts@.len(),
            pre_balances@.len() == i,
            forall|j: int|
                0 <= j < i ==> spec_transfer_check_balance(
                    accounts@[start + j].owner@,
                    accounts@[start + j].lamports,
                    accounts@[start + j].data@,
                ) == Some(#[trigger] pre_balances@[j]),
        decreases nb - i,
    {
        let v = match read_transfer_check_balance(&accounts[start + i]) {
            Ok(v) => v,
            Err(e) => {
                proof {
                    let a = accounts@[start + i];
                    assert(spec_transfer_check_balance(a.owner@, a.lamports, a.data@) is None);
                    assert(!balances_readable(accounts@, start as int, nb as nat));
                }
                return Err(e);
            },
        };
        pre_balances.push(v);
        i += 1;
    }
    proof {
        assert(balances_readable(accounts@, start as int, nb as nat)) by {
            assert forall|j: int| 0 <= j < nb implies (#[trigger] spec_transfer_check_balance(
                accounts@[start + j].owner@,
                accounts@[start + j].lamports,
                accounts@[start + j].data@,
            )) is Some by {
                assert(spec_transfer_check_balance(
                    accounts@[start + j].owner@,
                    accounts@[start + j].lamports,
                    accounts@[start + j].data@,
                ) == Some(pre_balances@[j]));
            }
        }
    }
    Ok(ExecutePlan {
        prefix,
        source,
        account_count: accounts.len(),
        transfer_section_start: start,
        transfer_destinations: dests,
        intent_hash,
        bump,
        pre_balances,
        next_index: start + nb,
    })
}


/// The flags of the last override that targets slice position `pos`, if any.
pub open spec fn spec_override_flags(pairs: Seq<(u8, u8)>, pos: u8) -> Option<u8>
    decreases pairs.len(),
{
    if pairs.len() == 0 {
        None
    } else if pairs.last().0 == pos {
        Some(pairs.last().1)
    } else {
        spec_override_flags(pairs.drop_last(), pos)
    }
}

/// One inner account's `(is_signer, is_writable)`: writability starts from the
/// outer meta, an override sets both bits; only the vault PDA and the executor
/// may sign, and no override may make a read-only account writable.
pub open spec fn spec_inner_meta(
    key: Seq<u8>,
    outer_writable: bool,
    pos: u8,
    pairs: Seq<(u8, u8)>,
    pda: Seq<u8>,
    executor: Seq<u8>,
) -> Result<(bool, bool), SolverFault> {
    let (is_signer, is_writable) = match spec_override_flags(pairs, pos) {
        Some(f) => ((f & FLAG_INNER_SIGNER) != 0, (f & FLAG_INNER_WRITABLE) != 0),
        None => (false, outer_writable),
    };
    if is_signer && key != pda && key != executor {
        Err(SolverFault::Custom(IntentSolverError::InnerSignerNotAllowed))
    } else if is_writable && !outer_writable {
        Err(SolverFault::Custom(IntentSolverError::WritableEscalationNotAllowed))
    } else {
        Ok((is_signer, is_writable))
    }
}

/// An account meta of an inner instruction.
#[derive(Debug, Clone, Copy)]
pub struct CpiMeta {
    pub key: Pubkey,
    pub is_signer: bool,
    pub is_writable: bool,
}

/// Builds the meta of one inner account from its outer meta and the overrides.
pub fn inner_account_meta(
    account: &AccountSnapshot,
    slice_idx: u8,
    overrides: &[(u8, u8)],
    pda: &Pubkey,
    executor: &Pubkey,
) -> (r: Result<CpiMeta, SolverError>)
    ensures
        match spec_inner_meta(account.key@, account.is_writable, slice_idx, overrides@, pda@, executor@) {
            Ok((sg, wr)) => r matches Ok(m) && m.key == account.key && m.is_signer == sg
                && m.is_writable == wr,
            Err(f) => r is Err && fault_of(r->Err_0) == f,
        },
{
    let mut found: Option<u8> = None;
    let mut k: usize = 0;
    while k < overrides.len()
        invariant
            0 <= k <= overrides@.len(),
            found == spec_override_flags(overrides@.take(k as int), slice_idx),
        decreases overrides@.len() - k,
    {
        let (pos, flags) = overrides[k];
        proof {
            assert(overrides@.take(k + 1).drop_last() =~= overrides@.take(k as int));
        }
        if pos == slice_idx {
            found = Some(flags);
        }
        k += 1;
    }
    assert(overrides@.take(overrides@.len() as int) =~= overrides@);
    let (is_signer, is_writable) = match found {
        Some(f) => ((f & FLAG_INNER_SIGNER) != 0, (f & FLAG_INNER_WRITABLE) != 0),
        None => (false, account.is_writable),
    };
    if is_signer && !key_eq(&account.key, pda) && !key_eq(&account.key, executor) {
        return Err(SolverError::Custom(IntentSolverError::InnerSignerNotAllowed));
    }
    if is_writable && !account.is_writable {
        return Err(SolverError::Custom(IntentSolverError::WritableEscalationNotAllowed));
    }
    Ok(CpiMeta { key: account.key, is_signer, is_writable })
}

/// The `(pos, flags)` overrides of the CPI block at `c`.
pub open spec fn cpi_pairs(rest: Seq<u8>, c: int) -> Seq<(u8, u8)> {
    Seq::new(rest[c + 1] as nat, |k: int| (rest[c + 2 + 2 * k], rest[c + 3 + 2 * k]))
}

/// The first fault among overrides `k..count` of the block whose overrides
/// start at `base`: a pair cut short, or a position outside the CPI's accounts.
pub open spec fn overrides_fault(rest: Seq<u8>, base: int, acc_count: u8, k: nat, count: nat) -> Option<
    SolverFault,
>
    decreases count - k,
{
    if k >= count {
        None
    } else if base + 2 * k + 1 >= rest.len() {
        Some(SolverFault::Custom(IntentSolverError::InsufficientData))
    } else if rest[base + 2 * k] >= acc_count {
        Some(SolverFault::Custom(IntentSolverError::InvalidCpiAccountSpec))
    } else {
        overrides_fault(rest, base, acc_count, k + 1, count)
    }
}

/// Where the CPI block's data length sits.
pub open spec fn cpi_len_pos(rest: Seq<u8>, c: int) -> int {
    c + 2 + 2 * rest[c + 1]
}

/// Where the CPI block's inner instruction data ends.
pub open spec fn cpi_data_end(rest: Seq<u8>, c: int) -> int {
    let lp = cpi_len_pos(rest, c);
    lp + 2 + spec_u16_from_le_bytes(rest.subrange(lp, lp + 2))
}

/// The first fault among the inner metas `j..n` of the CPI whose accounts
/// start at `first` (the program account, then the inner accounts).
pub open spec fn metas_fault(
    accounts: Seq<AccountSnapshot>,
    first: int,
    n: nat,
    pairs: Seq<(u8, u8)>,
    pda: Seq<u8>,
    executor: Seq<u8>,
    j: nat,
) -> Option<SolverFault>
    decreases n - j,
{
    if j >= n {
        None
    } else {
        let a = accounts[first + 1 + j];
        match spec_inner_meta(a.key@, a.is_writable, (j + 1) as u8, pairs, pda, executor) {
            Err(f) => Some(f),
            Ok(_) => metas_fault(accounts, first, n, pairs, pda, executor, j + 1),
        }
    }
}

/// Where the CPI block at `c` fails, in order: its account count (missing or
/// outside `1..=128`), its override count (missing or over 32), its overrides,
/// its data length and data, the accounts it needs, a call back into this
/// program or into a denied loader, and its inner metas.
pub open spec fn spec_next_cpi_fault(
    program_id: Seq<u8>,
    accounts: Seq<AccountSnapshot>,
    rest: Seq<u8>,
    c: int,
    idx: int,
) -> Option<SolverFault> {
    if c >= rest.len() {
        Some(SolverFault::Custom(IntentSolverError::InsufficientData))
    } else if rest[c] < 1 || rest[c] > MAX_ACC_PER_CPI {
        Some(SolverFault::Custom(IntentSolverError::InvalidCpiAccountSpec))
    } else if c + 1 >= rest.len() {
        Some(SolverFault::Custom(IntentSolverError::InsufficientData))
    } else if rest[c + 1] > MAX_OVERRIDE_PER_CPI {
        Some(SolverFault::Custom(IntentSolverError::InvalidCpiAccountSpec))
    } else {
        match overrides_fault(rest, c + 2, rest[c], 0, rest[c + 1] as nat) {
            Some(f) => Some(f),
            None => if cpi_len_pos(rest, c) + 2 > rest.len() || cpi_data_end(rest, c) > rest.len() {
                Some(SolverFault::Custom(IntentSolverError::InsufficientData))
            } else if idx + rest[c] > accounts.len() {
                Some(SolverFault::Custom(IntentSolverError::NotEnoughAccounts))
            } else if accounts[idx].key@ == program_id {
                Some(SolverFault::Custom(IntentSolverError::CpiToSelfNotAllowed))
            } else if accounts[idx].key@ == BPF_LOADER_UPGRADEABLE_ID@ || accounts[idx].key@
                == BPF_LOADER_ID@ {
                Some(SolverFault::Custom(IntentSolverError::CpiProgramDenied))
            } else {
                metas_fault(
                    accounts,
                    idx,
                    (rest[c] - 1) as nat,
                    cpi_pairs(rest, c),
                    accounts[1].key@,
                    accounts[0].key@,
                    0,
                )
            },
        }
    }
}

/// One inner call of `execute`: the callee, its metas, its data, and which of
/// the instruction's accounts it is handed (`first_account + 1` onwards,
/// `meta.len()` of them).
#[derive(Debug, Clone)]
pub struct CpiCall {
    pub program_id: Pubkey,
    pub metas: Vec<CpiMeta>,
    pub data: Vec<u8>,
    pub first_account: usize,
}

/// The call agrees with the CPI block at `c` and the accounts from `idx` on.
pub open spec fn cpi_matches(
    call: CpiCall,
    accounts: Seq<AccountSnapshot>,
    rest: Seq<u8>,
    c: int,
    idx: int,
) -> bool {
    let n = rest[c] - 1;
    let pairs = cpi_pairs(rest, c);
    &&& call.program_id@ == accounts[idx].key@
    &&& call.first_account == idx
    &&& call.data@ == rest.subrange(cpi_len_pos(rest, c) + 2, cpi_data_end(rest, c))
    &&& call.metas@.len() == n
    &&& forall|j: int|
        0 <= j < n ==> {
            let a = #[trigger] accounts[idx + 1 + j];
            let m = call.metas@[j];
            &&& m.key == a.key
            &&& spec_inner_meta(a.key@, a.is_writable, (j + 1) as u8, pairs, accounts[1].key@, accounts[0].key@)
                == Ok::<(bool, bool), SolverFault>((m.is_signer, m.is_writable))
        }
}

/// Decodes the CPI block at `cursor` (account count, overrides, data), takes
/// its accounts from `idx`, refuses calls into this program or a denied loader,
/// and builds the inner metas. Returns the call, the cursor after the block and
/// the index of the next unused account.
#[verifier::loop_isolation(false)]
pub fn decode_cpi_block(
    program_id: &Pubkey,
    accounts: &[AccountSnapshot],
    rest: &[u8],
    cursor: usize,
    idx: usize,
) -> (r: Result<(CpiCall, usize, usize), SolverError>)
    requires
        accounts@.len() >= 2,
        idx <= accounts@.len(),
        cursor <= rest@.len(),
    ensures
        match spec_next_cpi_fault(program_id@, accounts@, rest@, cursor as int, idx as int) {
            Some(f) => r is Err && fault_of(r->Err_0) == f,
            None => r matches Ok((call, c2, i2)) && cpi_matches(call, accounts@, rest@, cursor as int, idx as int)
                && c2 == cpi_data_end(rest@, cursor as int) && i2 == idx + rest@[cursor as int],
        },
{
    if cursor >= rest.len() {
        return Err(SolverError::Custom(IntentSolverError::InsufficientData));
    }
    let acc_count = rest[cursor];
    if acc_count < 1 || acc_count > MAX_ACC_PER_CPI {
        return Err(SolverError::Custom(IntentSolverError::InvalidCpiAccountSpec));
    }
    if cursor + 1 >= rest.len() {
        return Err(SolverError::Custom(IntentSolverError::InsufficientData));
    }
    let override_count = rest[cursor + 1];
    if override_count > MAX_OVERRIDE_PER_CPI {
        return Err(SolverError::Custom(IntentSolverError::InvalidCpiAccountSpec));
    }
    let base = cursor + 2;
    let oc = override_count as usize;
    let mut pairs: Vec<(u8, u8)> = Vec::new();
    let mut k: usize = 0;
    while k < oc
        invariant
            0 <= k <= oc <= 32,
            base == cursor + 2,
            cursor + 1 < rest@.len(),
            oc == rest@[cursor + 1],
            acc_count == rest@[cursor as int],
            base + 2 * k <= rest@.len(),
            pairs@ == cpi_pairs(rest@, cursor as int).take(k as int),
            overrides_fault(rest@, base as int, acc_count, 0, oc as nat) == overrides_fault(
                rest@,
                base as int,
                acc_count,
                k as nat,
                oc as nat,
            ),
        decreases oc - k,
    {
        if 3 + 2 * k >= rest.len() - cursor {
            return Err(SolverError::Custom(IntentSolverError::InsufficientData));
        }
        let pos = rest[base + 2 * k];
        let flags = rest[base + 2 * k + 1];
        if pos >= acc_count {
            return Err(SolverError::Custom(IntentSolverError::InvalidCpiAccountSpec));
        }
        pairs.push((pos, flags));
        k += 1;
        proof {
            assert(pairs@ =~= cpi_pairs(rest@, cursor as int).take(k as int));
        }
    }
    assert(pairs@ =~= cpi_pairs(rest@, cursor as int));
    let mut c = base + 2 * oc;
    if rest.len() - c < 2 {
        return Err(SolverError::Custom(IntentSolverError::InsufficientData));
    }
    let data_len = read_u16_le(rest, &mut c)? as usize;
    if data_len > rest.len() - c {
        return Err(SolverError::Custom(IntentSolverError::InsufficientData));
    }
    let data_end = c + data_len;
    let mut data: Vec<u8> = Vec::new();
    push_all(&mut data, slice_subrange(rest, c, data_end));
    let n_acc = acc_count as usize;
    if n_acc > accounts.len() - idx {
        return Err(SolverError::Custom(IntentSolverError::NotEnoughAccounts));
    }
    let callee = accounts[idx].key;
    if key_eq(&callee, program_id) {
        return Err(SolverError::Custom(IntentSolverError::CpiToSelfNotAllowed));
    }
    if is_cpi_program_denied(&callee) {
        return Err(SolverError::Custom(IntentSolverError::CpiProgramDenied));
    }
    let ghost n: nat = (acc_count - 1) as nat;
    let mut metas: Vec<CpiMeta> = Vec::new();
    let mut j: usize = 0;
    while j < n_acc - 1
        invariant
            0 <= j <= n_acc - 1,
            n == n_acc - 1,
            1 <= n_acc <= 128,
            idx + n_acc <= accounts@.len(),
            accounts@.len() >= 2,
            pairs@ == cpi_pairs(rest@, cursor as int),
            metas@.len() == j,
            metas_fault(accounts@, idx as int, n, pairs@, accounts@[1].key@, accounts@[0].key@, 0)
                == metas_fault(accounts@, idx as int, n, pairs@, accounts@[1].key@, accounts@[0].key@, j as nat),
            forall|t: int|
                0 <= t < j ==> {
                    let a = #[trigger] accounts@[idx + 1 + t];
                    let m = metas@[t];
                    &&& m.key == a.key
                    &&& spec_inner_meta(a.key@, a.is_writable, (t + 1) as u8, pairs@, accounts@[1].key@, accounts@[0].key@)
                        == Ok::<(bool, bool), SolverFault>((m.is_signer, m.is_writable))
                },
        decreases n_acc - 1 - j,
    {
        let a = &accounts[idx + 1 + j];
        let m = inner_account_meta(a, (j + 1) as u8, pairs.as_slice(), &accounts[1].key, &accounts[0].key)?;
        metas.push(m);
        j += 1;
    }
    let call = CpiCall { program_id: callee, metas, data, first_account: idx };
    Ok((call, data_end, idx + n_acc))
}


/// Where `execute` stands in its CPI blocks: the cursor in the data, the next
/// unused account, and how many declared CPIs are still to run.
#[derive(Debug, Clone, Copy, PartialEq, Eq, Structural)]
pub struct ExecuteStep {
    pub cursor: usize,
    pub next_index: usize,
    pub cpis_left: u8,
}

/// Where the data cursor stands after `k` CPI blocks starting at `c0`.
pub open spec fn blocks_end(rest: Seq<u8>, c0: int, k: nat) -> int
    decreases k,
{
    if k == 0 {
        c0
    } else {
        cpi_data_end(rest, blocks_end(rest, c0, (k - 1) as nat))
    }
}

/// The next unused account after `k` CPI blocks starting at `c0`, the first
/// block's accounts starting at `i0`.
pub open spec fn blocks_accounts(rest: Seq<u8>, c0: int, i0: int, k: nat) -> int
    decreases k,
{
    if k == 0 {
        i0
    } else {
        blocks_accounts(rest, c0, i0, (k - 1) as nat) + rest[blocks_end(rest, c0, (k - 1) as nat)]
    }
}

/// The step has run `cpi_count - cpis_left` whole CPI blocks from the plan's
/// first one, and stands inside the data and the accounts.
pub open spec fn step_tracks(step: ExecuteStep, plan: ExecutePlan, rest: Seq<u8>) -> bool {
    let done = (plan.prefix.cpi_count - step.cpis_left) as nat;
    &&& step.cpis_left <= plan.prefix.cpi_count
    &&& step.cursor == blocks_end(rest, plan.prefix.cpi_cursor as int, done)
    &&& step.next_index == blocks_accounts(rest, plan.prefix.cpi_cursor as int, plan.next_index as int, done)
    &&& step.cursor <= rest.len()
    &&& step.next_index <= plan.account_count
}

/// The step before the first CPI block: all `cpi_count` CPIs still to run.
pub fn first_cpi_step(plan: &ExecutePlan) -> (r: ExecuteStep)
    ensures
        r == (ExecuteStep { cursor: plan.prefix.cpi_cursor, next_index: plan.next_index, cpis_left: plan.prefix.cpi_count }),
        forall|program_id: Seq<u8>, accounts: Seq<AccountSnapshot>, rest: Seq<u8>|
            #[trigger] plan_matches(*plan, program_id, accounts, rest) ==> step_tracks(r, *plan, rest),
{
    ExecuteStep { cursor: plan.prefix.cpi_cursor, next_index: plan.next_index, cpis_left: plan.prefix.cpi_count }
}

/// Step 6 of `execute`, once per CPI: when CPIs are left, decode the next CPI
/// block and return the call to invoke (signed by the vault PDA), advancing
/// the step; `None` once all declared CPIs have run.
pub fn execute_next_cpi(
    program_id: &Pubkey,
    plan: &ExecutePlan,
    accounts: &[AccountSnapshot],
    rest: &[u8],
    step: &mut ExecuteStep,
) -> (r: Result<Option<CpiCall>, SolverError>)
    requires
        plan_wf(*plan),
        accounts@.len() == plan.account_count,
        step_tracks(*old(step), *plan, rest@),
    ensures
        old(step).cpis_left == 0 ==> (r matches Ok(None) && *final(step) == *old(step)),
        old(step).cpis_left > 0 ==> match spec_next_cpi_fault(
            program_id@,
            accounts@,
            rest@,
            old(step).cursor as int,
            old(step).next_index as int,
        ) {
            Some(f) => r is Err && fault_of(r->Err_0) == f,
            None => {
                &&& r matches Ok(Some(call)) && cpi_matches(
                    call,
                    accounts@,
                    rest@,
                    old(step).cursor as int,
                    old(step).next_index as int,
                )
                &&& final(step).cursor == cpi_data_end(rest@, old(step).cursor as int)
                &&& final(step).next_index == old(step).next_index + rest@[old(step).cursor as int]
                &&& final(step).cpis_left == old(step).cpis_left - 1
                &&& step_tracks(*final(step), *plan, rest@)
            },
        },
{
    if step.cpis_left == 0 {
        return Ok(None);
    }
    let (call, cursor, next_index) = decode_cpi_block(program_id, accounts, rest, step.cursor, step.next_index)?;
    *step = ExecuteStep { cursor, next_index, cpis_left: step.cpis_left - 1 };
    Ok(Some(call))
}

/// A plan that `execute_finish` can run against: its counts agree with each
/// other and with the number of accounts it was made from.
pub open spec fn plan_wf(plan: ExecutePlan) -> bool {
    let nb = plan.prefix.transfer_nb as int;
    &&& plan.account_count >= 4
    &&& plan.source.from_is_spl ==> plan.account_count >= 5
    &&& plan.transfer_section_start + nb <= plan.account_count
    &&& plan.pre_balances@.len() == nb
    &&& plan.prefix.transfer_min_amounts@.len() == nb
}

/// A plan that agrees with the instruction is well formed.
pub proof fn lemma_plan_matches_wf(
    plan: ExecutePlan,
    program_id: Seq<u8>,
    accounts: Seq<AccountSnapshot>,
    rest: Seq<u8>,
)
    requires
        plan_matches(plan, program_id, accounts, rest),
    ensures
        plan_wf(plan),
{
}

/// How a finished `execute` hands the vault back to the executor: close the
/// source ATA, or sweep the SOL PDA's lamports.
#[derive(Debug, Clone, Copy, PartialEq, Eq, Structural)]
pub enum ExecuteCleanup {
    CloseSourceAta,
    SweepSol { lamports: u64 },
}

/// `post - pre`, or `0` when the balance fell.
pub open spec fn saturating_delta(post: u64, pre: u64) -> u64 {
    if post >= pre { (post - pre) as u64 } else { 0 }
}

/// Some leg gained less than its minimum.
pub open spec fn some_leg_short(plan: ExecutePlan, accounts: Seq<AccountSnapshot>) -> bool {
    let start = plan.transfer_section_start as int;
    exists|i: int|
        0 <= i < plan.prefix.transfer_nb && #[trigger] saturating_delta(
            spec_transfer_check_balance(
                accounts[start + i].owner@,
                accounts[start + i].lamports,
                accounts[start + i].data@,
            )->Some_0,
            plan.pre_balances@[i],
        ) < plan.prefix.transfer_min_amounts@[i]
}

/// The outcome of steps 7 to 9 of `execute`, in order: trailing CPI data, the
/// destinations' balances, the source drained (SPL ATA at zero, or SOL PDA at
/// exactly `rent_min`), every leg's gain at least its minimum.
pub open spec fn spec_execute_finish(
    plan: ExecutePlan,
    accounts: Seq<AccountSnapshot>,
    rest_len: int,
    cursor: int,
    rent_min: u64,
) -> Result<ExecuteCleanup, SolverFault> {
    let nb = plan.prefix.transfer_nb as nat;
    let start = plan.transfer_section_start as int;
    if cursor != rest_len {
        Err(SolverFault::InvalidInstructionData)
    } else if !balances_readable(accounts, start, nb) {
        Err(SolverFault::AccountData)
    } else if plan.source.from_is_spl && spec_spl_balance(accounts[4].owner@, accounts[4].data@) is None {
        Err(SolverFault::AccountData)
    } else if plan.source.from_is_spl && spec_spl_balance(accounts[4].owner@, accounts[4].data@) != Some(0u64) {
        Err(SolverFault::Custom(IntentSolverError::FromAtaNotEmpty))
    } else if !plan.source.from_is_spl && accounts[1].lamports != rent_min {
        Err(SolverFault::Custom(IntentSolverError::SolSourcePdaNotDrained))
    } else if some_leg_short(plan, accounts) {
        Err(SolverFault::Custom(IntentSolverError::MinAmountNotMet))
    } else if plan.source.from_is_spl {
        Ok(ExecuteCleanup::CloseSourceAta)
    } else {
        Ok(ExecuteCleanup::SweepSol { lamports: accounts[1].lamports })
    }
}

/// Steps 7 to 9 of `execute`, on the accounts as they are after the CPIs:
/// all CPI data consumed, source drained (`rent_min` is the rent-exempt minimum
/// for a 0-byte account), every transfer leg gained its minimum; returns the
/// cleanup to perform.
#[verifier::loop_isolation(false)]
pub fn execute_finish(
    plan: &ExecutePlan,
    step: &ExecuteStep,
    accounts: &[AccountSnapshot],
    rest_len: usize,
    rent_min: u64,
) -> (r: Result<ExecuteCleanup, SolverError>)
    requires
        plan_wf(*plan),
        accounts@.len() == plan.account_count,
        step.cpis_left == 0,
    ensures
        match spec_execute_finish(*plan, accounts@, rest_len as int, step.cursor as int, rent_min) {
            Ok(c) => r == Ok::<ExecuteCleanup, SolverError>(c),
            Err(f) => r is Err && fault_of(r->Err_0) == f,
        },
{
    if step.cursor != rest_len {
        return Err(SolverError::InvalidInstructionData);
    }
    let nb = plan.prefix.transfer_nb as usize;
    let start = plan.transfer_section_start;
    let mut post_balances: Vec<u64> = Vec::new();
    let mut i: usize = 0;
    while i < nb
        invariant
            0 <= i <= nb,
            post_balances@.len() == i,
            forall|j: int|
                0 <= j < i ==> spec_transfer_check_balance(
                    accounts@[start + j].owner@,
                    accounts@[start + j].lamports,
                    accounts@[start + j].data@,
                ) == Some(#[trigger] post_balances@[j]),
        decreases nb - i,
    {
        let v = match read_transfer_check_balance(&accounts[start + i]) {
            Ok(v) => v,
            Err(e) => {
                proof {
                    let a = accounts@[start + i];
                    assert(spec_transfer_check_balance(a.owner@, a.lamports, a.data@) is None);
                }
                return Err(e);
            },
        };
        post_balances.push(v);
        i += 1;
    }
    proof {
        assert forall|j: int| 0 <= j < nb implies (#[trigger] spec_transfer_check_balance(
            accounts@[start + j].owner@,
            accounts@[start + j].lamports,
            accounts@[start + j].data@,
        )) is Some by {
            assert(spec_transfer_check_balance(
                accounts@[start + j].owner@,
                accounts@[start + j].lamports,
                accounts@[start + j].data@,
            ) == Some(post_balances@[j]));
        }
    }
    if plan.source.from_is_spl {
        let left = read_spl_balance(&accounts[4])?;
        if left != 0 {
            return Err(SolverError::Custom(IntentSolverError::FromAtaNotEmpty));
        }
    } else {
        if accounts[1].lamports != rent_min {
            return Err(SolverError::Custom(IntentSolverError::SolSourcePdaNotDrained));
        }
    }
    let mut i: usize = 0;
    while i < nb
        invariant
            0 <= i <= nb,
            forall|j: int|
                0 <= j < i ==> #[trigger] saturating_delta(post_balances@[j], plan.pre_balances@[j])
                    >= plan.prefix.transfer_min_amounts@[j],
        decreases nb - i,
    {
        let delta = post_balances[i].saturating_sub(plan.pre_balances[i]);
        if delta < plan.prefix.transfer_min_amounts[i] {
            proof {
                let a = accounts@[start + i];
                assert(spec_transfer_check_balance(a.owner@, a.lamports, a.data@)->Some_0
                    == post_balances@[i as int]);
                assert(saturating_delta(
                    spec_transfer_check_balance(a.owner@, a.lamports, a.data@)->Some_0,
                    plan.pre_balances@[i as int],
                ) < plan.prefix.transfer_min_amounts@[i as int]);
                assert(some_leg_short(*plan, accounts@));
            }
            return Err(SolverError::Custom(IntentSolverError::MinAmountNotMet));
        }
        i += 1;
    }
    proof {
        if some_leg_short(*plan, accounts@) {
            let w = choose|w: int|
                0 <= w < plan.prefix.transfer_nb && #[trigger] saturating_delta(
                    spec_transfer_check_balance(
                        accounts@[start + w].owner@,
                        accounts@[start + w].lamports,
                        accounts@[start + w].data@,
                    )->Some_0,
                    plan.pre_balances@[w],
                ) < plan.prefix.transfer_min_amounts@[w];
            assert(saturating_delta(post_balances@[w], plan.pre_balances@[w])
                >= plan.prefix.transfer_min_amounts@[w]);
            assert(false);
        }
    }
    if plan.source.from_is_spl {
        Ok(ExecuteCleanup::CloseSourceAta)
    } else {
        Ok(ExecuteCleanup::SweepSol { lamports: accounts[1].lamports })
    }
}


/// The transfer-check balance of an account.
pub open spec fn check_balance(a: AccountSnapshot) -> Option<u64> {
    spec_transfer_check_balance(a.owner@, a.lamports, a.data@)
}

/// Account `k` has a readable balance before and after, and gained at least `min`.
pub open spec fn leg_gained(before: Seq<AccountSnapshot>, after: Seq<AccountSnapshot>, k: int, min: u64) -> bool {
    &&& check_balance(after[k]) is Some
    &&& check_balance(before[k]) is Some
    &&& saturating_delta(check_balance(after[k])->Some_0, check_balance(before[k])->Some_0) >= min
}

/// What a successful `execute` guarantees: exactly `cpi_count` CPI blocks
/// were run and they end at the end of the data, the source is drained (SPL
/// ATA at zero, or SOL PDA at exactly `rent_min`), and every transfer-check
/// destination gained at least its minimum (the data's leg minimums) over its
/// balance before the CPIs.
pub proof fn law_execute_outcomes_enforced(
    plan: ExecutePlan,
    program_id: Seq<u8>,
    before: Seq<AccountSnapshot>,
    rest: Seq<u8>,
    after: Seq<AccountSnapshot>,
    step: ExecuteStep,
    rent_min: u64,
)
    requires
        plan_matches(plan, program_id, before, rest),
        step_tracks(step, plan, rest),
        step.cpis_left == 0,
        spec_execute_finish(plan, after, rest.len() as int, step.cursor as int, rent_min) is Ok,
    ensures
        blocks_end(rest, plan.prefix.cpi_cursor as int, plan.prefix.cpi_count as nat) == rest.len(),
        plan.source.from_is_spl ==> spec_spl_balance(after[4].owner@, after[4].data@) == Some(0u64),
        !plan.source.from_is_spl ==> after[1].lamports == rent_min,
        forall|i: int|
            0 <= i < rest[40] ==> leg_gained(
                before,
                after,
                plan.transfer_section_start + i,
                #[trigger] prefix_mins(rest)[i],
            ),
{
    let start = plan.transfer_section_start as int;
    assert forall|i: int| 0 <= i < rest[40] implies leg_gained(
        before,
        after,
        plan.transfer_section_start + i,
        #[trigger] prefix_mins(rest)[i],
    ) by {
        let k = start + i;
        assert(spec_transfer_check_balance(before[k].owner@, before[k].lamports, before[k].data@)
            == Some(plan.pre_balances@[i]));
        assert(plan.prefix.transfer_min_amounts@[i] == spec_u64_from_le_bytes(
            rest.subrange(41 + 8 * i, 49 + 8 * i),
        ));
        assert(balances_readable(after, start, plan.prefix.transfer_nb as nat));
        assert((spec_transfer_check_balance(after[k].owner@, after[k].lamports, after[k].data@)) is Some);
        if saturating_delta(
            spec_transfer_check_balance(after[k].owner@, after[k].lamports, after[k].data@)->Some_0,
            plan.pre_balances@[i],
        ) < plan.prefix.transfer_min_amounts@[i] {
            assert(some_leg_short(plan, after));
        }
    }
}

/// A CPI count of zero or above 16 is refused as `InvalidCpiCount` by the
/// checks before the CPIs, whatever the accounts are (none of them is read).
pub proof fn law_execute_refuses_cpi_count(program_id: Seq<u8>, accounts: Seq<AccountSnapshot>, rest: Seq<u8>)
    requires
        rest.len() >= 41,
        1 <= rest[40] <= MAX_TRANSFER_NB,
        rest.len() >= 42 + 8 * rest[40],
        rest[41 + 8 * rest[40]] == 0 || rest[41 + 8 * rest[40]] > MAX_CPI_NB,
    ensures
        spec_execute_setup_fault(program_id, accounts, rest) == Some(
            SolverFault::Custom(IntentSolverError::InvalidCpiCount),
        ),
{
}

/// A run of `execute` consumes exactly the declared CPI blocks: a plan from
/// the checks declares between 1 and 16 CPIs; once all of them have been
/// stepped through, the cursor stands where that many blocks end; if bytes
/// remain after them the run is refused as invalid instruction data, so a run
/// that finishes has consumed the data exactly.
pub proof fn law_execute_consumes_declared_blocks(
    plan: ExecutePlan,
    program_id: Seq<u8>,
    before: Seq<AccountSnapshot>,
    rest: Seq<u8>,
    step: ExecuteStep,
    after: Seq<AccountSnapshot>,
    rent_min: u64,
)
    requires
        plan_matches(plan, program_id, before, rest),
        step_tracks(step, plan, rest),
        step.cpis_left == 0,
    ensures
        plan.prefix.cpi_count == rest[41 + 8 * rest[40]],
        1 <= plan.prefix.cpi_count <= MAX_CPI_NB,
        step.cursor == blocks_end(rest, plan.prefix.cpi_cursor as int, plan.prefix.cpi_count as nat),
        blocks_end(rest, plan.prefix.cpi_cursor as int, plan.prefix.cpi_count as nat) != rest.len()
            ==> spec_execute_finish(plan, after, rest.len() as int, step.cursor as int, rent_min)
            == Err::<ExecuteCleanup, SolverFault>(SolverFault::InvalidInstructionData),
        spec_execute_finish(plan, after, rest.len() as int, step.cursor as int, rent_min) is Ok
            ==> blocks_end(rest, plan.prefix.cpi_cursor as int, plan.prefix.cpi_count as nat) == rest.len(),
{
}

/// The transfer-check destinations follow the account header: for a System
/// Program source they start at account 4, for an SPL source after the vault
/// ATA at account 5; the plan's destinations are those accounts' keys, and
/// the intent hash is rebuilt from them, the funder (account 2), the executor
/// (account 0), the source's mint (the vault ATA's mint, or the System
/// Program for SOL) and the data's amount, salt and minimums; the vault
/// (account 1) is the program address of `("intent", intent hash)`.
pub proof fn law_execute_destinations_follow_header(
    plan: ExecutePlan,
    program_id: Seq<u8>,
    accounts: Seq<AccountSnapshot>,
    rest: Seq<u8>,
)
    requires
        plan_matches(plan, program_id, accounts, rest),
    ensures
        ({
            let sol = accounts[3].key@ == SYSTEM_PROGRAM_ID@;
            let start: int = if sol { 4 } else { 5 };
            let mint = if sol { SYSTEM_PROGRAM_ID@ } else { data_mint(accounts[4].data@) };
            &&& plan.source.from_is_spl == !sol
            &&& plan.source.mint@ == mint
            &&& plan.transfer_section_start == start
            &&& plan.next_index == start + rest[40]
            &&& keys_view(plan.transfer_destinations@) == Seq::new(rest[40] as nat, |i: int| accounts[start + i].key@)
            &&& plan.intent_hash@ == spec_hash_intent(
                accounts[2].key@,
                mint,
                spec_u64_from_le_bytes(rest.subrange(0, 8)),
                rest.subrange(8, 40),
                accounts[0].key@,
                rest[40],
                Seq::new(rest[40] as nat, |i: int| accounts[start + i].key@),
                prefix_mins(rest),
            )
            &&& program_address_search(seq![seq![105u8, 110u8, 116u8, 101u8, 110u8, 116u8], plan.intent_hash@], program_id)
                == Some((accounts[1].key@, plan.bump))
        }),
{
    law_intent_source_header(accounts);
    assert(crate::intent_factory_program::intent_hash::INTENT_PDA_SEED@ =~= seq![105u8, 110u8, 116u8, 101u8, 110u8, 116u8]);
    let sol = accounts[3].key@ == SYSTEM_PROGRAM_ID@;
    let start: int = if sol { 4 } else { 5 };
    assert(dest_keys(accounts, start, rest[40] as nat) =~= Seq::new(rest[40] as nat, |i: int| accounts[start + i].key@));
}

/// CPI safety: a call decoded from a CPI block takes its callee and its inner
/// accounts from the block's slice of the instruction's accounts, in order;
/// the callee is neither this program nor a BPF loader; only the vault PDA
/// (account 1) or the executor (account 0) may sign; no inner account is
/// writable unless it was writable in the instruction; and the data is the
/// block's inner data (after the `u16` length that follows the overrides).
pub proof fn law_cpi_call_safe(
    program_id: Seq<u8>,
    accounts: Seq<AccountSnapshot>,
    rest: Seq<u8>,
    c: int,
    idx: int,
    call: CpiCall,
)
    requires
        accounts.len() >= 2,
        0 <= c,
        0 <= idx,
        spec_next_cpi_fault(program_id, accounts, rest, c, idx) is None,
        cpi_matches(call, accounts, rest, c, idx),
    ensures
        idx + rest[c] <= accounts.len(),
        call.first_account == idx,
        call.program_id@ == accounts[idx].key@,
        call.program_id@ != program_id,
        call.program_id@ != BPF_LOADER_ID@,
        call.program_id@ != BPF_LOADER_UPGRADEABLE_ID@,
        call.metas@.len() + 1 == rest[c],
        forall|j: int|
            0 <= j < call.metas@.len() ==> {
                let m = #[trigger] call.metas@[j];
                let a = accounts[idx + 1 + j];
                &&& m.key == a.key
                &&& m.is_signer ==> (a.key@ == accounts[1].key@ || a.key@ == accounts[0].key@)
                &&& m.is_writable ==> a.is_writable
            },
        ({
            let lp = c + 2 + 2 * rest[c + 1];
            call.data@ == rest.subrange(lp + 2, lp + 2 + spec_u16_from_le_bytes(rest.subrange(lp, lp + 2)))
        }),
{
    assert forall|j: int| 0 <= j < call.metas@.len() implies {
        let m = #[trigger] call.metas@[j];
        let a = accounts[idx + 1 + j];
        &&& m.key == a.key
        &&& m.is_signer ==> (a.key@ == accounts[1].key@ || a.key@ == accounts[0].key@)
        &&& m.is_writable ==> a.is_writable
    } by {
        let a = accounts[idx + 1 + j];
        assert(spec_inner_meta(a.key@, a.is_writable, (j + 1) as u8, cpi_pairs(rest, c), accounts[1].key@, accounts[0].key@)
            == Ok::<(bool, bool), SolverFault>((call.metas@[j].is_signer, call.metas@[j].is_writable)));
    }
}

} // verus!
