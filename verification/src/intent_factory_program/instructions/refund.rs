//! `refund` (variant 1): return the vault's funds to the funder and close it.
//!
//! The data carries the whole intent preimage (destinations included, since a
//! refund never touches them). The runtime glue calls `refund_setup`, then
//! performs the returned action.

use vstd::prelude::*;
use vstd::bytes::*;
use crate::keys::{Pubkey, AccountSnapshot, key_eq, data_amount, data_mint, SYSTEM_PROGRAM_ID};
use crate::outside::program_address_search;
use crate::addresses::{spec_ata_address, get_associated_token_address_with_program_id};
use crate::intent_factory_program::constants::MAX_TRANSFER_NB;
use crate::intent_factory_program::errors::{IntentSolverError, SolverError, SolverFault, fault_of};
use crate::intent_factory_program::helpers::{
    read_u64_le, read_pubkey, resolve_intent_source, spec_intent_source, pda_ata_sweep_amount,
    IntentSource, law_intent_source_header,
};
use crate::intent_factory_program::instructions::execute::{
    spec_execute_prefix_fault, execute_intent_hash, dest_keys, prefix_mins,
};
use crate::intent_factory_program::intent_hash::{
    hash_intent, spec_hash_intent, find_intent_pda, intent_pda_seeds, keys_view,
};

verus! {

/// The intent preimage carried by `refund` data.
#[derive(Debug, Clone)]
pub struct RefundData {
    pub amount_in: u64,
    pub salt: [u8; 32],
    pub transfer_nb: u8,
    pub transfer_destinations: Vec<Pubkey>,
    pub transfer_min_amounts: Vec<u64>,
}

/// The length of `refund` data with `nb` legs.
pub open spec fn refund_data_len(nb: u8) -> int {
    41 + 40 * nb
}

/// Where parsing `refund` data fails: short data before the leg count, a leg
/// count outside `1..=8`, short legs, or bytes left over.
pub open spec fn spec_refund_data_fault(rest: Seq<u8>) -> Option<SolverFault> {
    if rest.len() < 41 {
        Some(SolverFault::Custom(IntentSolverError::InsufficientData))
    } else if rest[40] == 0 || rest[40] > MAX_TRANSFER_NB {
        Some(SolverFault::Custom(IntentSolverError::InvalidTransferNb))
    } else if rest.len() < refund_data_len(rest[40]) {
        Some(SolverFault::Custom(IntentSolverError::InsufficientData))
    } else if rest.len() != refund_data_len(rest[40]) {
        Some(SolverFault::InvalidInstructionData)
    } else {
        None
    }
}

/// The destinations that `refund` data declares.
pub open spec fn refund_dests(rest: Seq<u8>) -> Seq<Seq<u8>> {
    Seq::new(rest[40] as nat, |i: int| rest.subrange(41 + 40 * i, 73 + 40 * i))
}

/// The minimums that `refund` data declares.
pub open spec fn refund_mins(rest: Seq<u8>) -> Seq<u64> {
    Seq::new(
        rest[40] as nat,
        |i: int| spec_u64_from_le_bytes(rest.subrange(73 + 40 * i, 81 + 40 * i)),
    )
}

/// The parsed data agrees with `rest`: `amount_in` (LE), salt, leg count, then
/// each leg's destination and minimum (LE).
pub open spec fn refund_data_matches(d: RefundData, rest: Seq<u8>) -> bool {
    &&& d.amount_in == spec_u64_from_le_bytes(rest.subrange(0, 8))
    &&& d.salt@ == rest.subrange(8, 40)
    &&& d.transfer_nb == rest[40]
    &&& keys_view(d.transfer_destinations@) == refund_dests(rest)
    &&& d.transfer_min_amounts@ == refund_mins(rest)
}

/// Parses `refund` data (the whole intent preimage, nothing after it).
pub fn parse_refund_data(rest: &[u8]) -> (r: Result<RefundData, SolverError>)
    ensures
        match spec_refund_data_fault(rest@) {
            Some(f) => r is Err && fault_of(r->Err_0) == f,
            None => r matches Ok(d) && refund_data_matches(d, rest@),
        },
{
    if rest.len() < 41 {
        return Err(SolverError::Custom(IntentSolverError::InsufficientData));
    }
    let mut cursor = 0usize;
    let amount_in = read_u64_le(rest, &mut cursor)?;
    let mut salt = [0u8; 32];
    let mut k: usize = 0;
    while k < 32
        invariant
            0 <= k <= 32,
            rest@.len() >= 41,
            salt@.len() == 32,
            forall|j: int| 0 <= j < k ==> salt@[j] == rest@[8 + j],
        decreases 32 - k,
    {
        salt[k] = rest[8 + k];
        k += 1;
    }
    assert(salt@ =~= rest@.subrange(8, 40));
    let transfer_nb = rest[40];
    if transfer_nb == 0 || transfer_nb > MAX_TRANSFER_NB {
        return Err(SolverError::Custom(IntentSolverError::InvalidTransferNb));
    }
    let nb = transfer_nb as usize;
    if rest.len() < 41 + 40 * nb {
        return Err(SolverError::Custom(IntentSolverError::InsufficientData));
    }
    cursor = 41;
    let mut dests: Vec<Pubkey> = Vec::new();
    let mut mins: Vec<u64> = Vec::new();
    let mut i: usize = 0;
    while i < nb
        invariant
            0 <= i <= nb <= 8,
            nb == rest@[40],
            rest@.len() >= 41 + 40 * nb,
            cursor == 41 + 40 * i,
            dests@.len() == i,
            mins@.len() == i,
            forall|j: int| 0 <= j < i ==> (#[trigger] dests@[j])@ == rest@.subrange(41 + 40 * j, 73 + 40 * j),
            forall|j: int|
                0 <= j < i ==> #[trigger] mins@[j] == spec_u64_from_le_bytes(
                    rest@.subrange(73 + 40 * j, 81 + 40 * j),
                ),
        decreases nb - i,
    {
        let d = read_pubkey(rest, &mut cursor)?;
        let m = read_u64_le(rest, &mut cursor)?;
        dests.push(d);
        mins.push(m);
        i += 1;
    }
    if cursor != rest.len() {
        return Err(SolverError::InvalidInstructionData);
    }
    proof {
        assert(keys_view(dests@) =~= refund_dests(rest@));
        assert(mins@ =~= refund_mins(rest@));
    }
    Ok(RefundData {
        amount_in,
        salt,
        transfer_nb,
        transfer_destinations: dests,
        transfer_min_amounts: mins,
    })
}

/// The intent hash `refund` rebuilds: funder (account 2), the source's mint,
/// and the preimage carried in the data, with the executor (account 0).
pub open spec fn refund_intent_hash(accounts: Seq<AccountSnapshot>, rest: Seq<u8>, mint: Seq<u8>) -> Seq<u8> {
    spec_hash_intent(
        accounts[2].key@,
        mint,
        spec_u64_from_le_bytes(rest.subrange(0, 8)),
        rest.subrange(8, 40),
        accounts[0].key@,
        rest[40],
        refund_dests(rest),
        refund_mins(rest),
    )
}

/// Where `refund` fails, in order: its data, the account header and source,
/// the vault PDA (no address, or a different one), and, for an SPL vault, the
/// four trailing accounts (present, mint equal to the source's, destination the
/// funder's canonical ATA for that mint).
pub open spec fn spec_refund_fault(
    program_id: Seq<u8>,
    accounts: Seq<AccountSnapshot>,
    rest: Seq<u8>,
) -> Option<SolverFault> {
    match spec_refund_data_fault(rest) {
        Some(f) => Some(f),
        None => match spec_intent_source(accounts) {
            Err(f) => Some(f),
            Ok((spl, mint, start)) => match program_address_search(
                intent_pda_seeds(refund_intent_hash(accounts, rest, mint)),
                program_id,
            ) {
                None => Some(SolverFault::NoViableProgramAddress),
                Some((k, b)) => if k != accounts[1].key@ {
                    Some(SolverFault::Custom(IntentSolverError::InvalidPda))
                } else if !spl {
                    None
                } else if accounts.len() < 9 {
                    Some(SolverFault::Custom(IntentSolverError::NotEnoughAccounts))
                } else if accounts[6].key@ != mint {
                    Some(SolverFault::Custom(IntentSolverError::InvalidDestinationAta))
                } else {
                    match spec_ata_address(accounts[2].key@, accounts[6].key@, accounts[3].key@) {
                        None => Some(SolverFault::NoViableProgramAddress),
                        Some(a) => if a != accounts[5].key@ {
                            Some(SolverFault::Custom(IntentSolverError::InvalidDestinationAta))
                        } else {
                            None
                        },
                    }
                },
            },
        },
    }
}

/// What `refund` does once its checks pass: sweep the SOL vault's lamports to
/// the funder; or create the funder's ATA (idempotently), move `amount` tokens
/// into it when non-zero, and close the source ATA to the executor.
#[derive(Debug, Clone, Copy, PartialEq, Eq, Structural)]
pub enum RefundAction {
    SweepSol { lamports: u64 },
    RefundSpl { amount: Option<u64> },
}

/// Everything `refund` has established.
#[derive(Debug, Clone)]
pub struct RefundPlan {
    pub data: RefundData,
    pub source: IntentSource,
    pub intent_hash: [u8; 32],
    pub bump: u8,
    pub action: RefundAction,
}

/// The plan agrees with the instruction's accounts and data.
pub open spec fn refund_plan_matches(
    plan: RefundPlan,
    program_id: Seq<u8>,
    accounts: Seq<AccountSnapshot>,
    rest: Seq<u8>,
) -> bool {
    &&& refund_data_matches(plan.data, rest)
    &&& spec_intent_source(accounts) == Ok::<(bool, Seq<u8>, int), SolverFault>(
        (plan.source.from_is_spl, plan.source.mint@, plan.source.next_index as int),
    )
    &&& plan.intent_hash@ == refund_intent_hash(accounts, rest, plan.source.mint@)
    &&& program_address_search(intent_pda_seeds(plan.intent_hash@), program_id) == Some(
        (accounts[1].key@, plan.bump),
    )
    &&& plan.action == if plan.source.from_is_spl {
        let v = data_amount(accounts[4].data@);
        RefundAction::RefundSpl { amount: if v == 0 { None } else { Some(v) } }
    } else {
        RefundAction::SweepSol { lamports: accounts[1].lamports }
    }
}

/// All of `refund`'s checks: parse the preimage, check the account header and
/// source, rebuild the intent hash, verify the vault PDA, and for an SPL vault
/// bind the mint and the funder's destination ATA; returns what to do.
pub fn refund_setup(program_id: &Pubkey, accounts: &[AccountSnapshot], rest: &[u8]) -> (r: Result<
    RefundPlan,
    SolverError,
>)
    ensures
        match spec_refund_fault(program_id@, accounts@, rest@) {
            Some(f) => r is Err && fault_of(r->Err_0) == f,
            None => r matches Ok(plan) && refund_plan_matches(plan, program_id@, accounts@, rest@),
        },
{
    let data = parse_refund_data(rest)?;
    let source = resolve_intent_source(accounts)?;
    assert(data.transfer_destinations@.len() == keys_view(data.transfer_destinations@).len());
    let intent_hash = hash_intent(
        &accounts[2].key,
        &source.mint,
        data.amount_in,
        &data.salt,
        &accounts[0].key,
        data.transfer_nb,
        data.transfer_destinations.as_slice(),
        data.transfer_min_amounts.as_slice(),
    );
    let (pda_expected, bump) = match find_intent_pda(&intent_hash, program_id) {
        Some(found) => found,
        None => return Err(SolverError::NoViableProgramAddress),
    };
    if !key_eq(&accounts[1].key, &pda_expected) {
        return Err(SolverError::Custom(IntentSolverError::InvalidPda));
    }
    let action = if source.from_is_spl {
        if accounts.len() < 9 {
            return Err(SolverError::Custom(IntentSolverError::NotEnoughAccounts));
        }
        if !key_eq(&accounts[6].key, &source.mint) {
            return Err(SolverError::Custom(IntentSolverError::InvalidDestinationAta));
        }
        let expected = match get_associated_token_address_with_program_id(
            &accounts[2].key,
            &accounts[6].key,
            &accounts[3].key,
        ) {
            Some(k) => k,
            None => return Err(SolverError::NoViableProgramAddress),
        };
        if !key_eq(&accounts[5].key, &expected) {
            return Err(SolverError::Custom(IntentSolverError::InvalidDestinationAta));
        }
        let amount = pda_ata_sweep_amount(&accounts[4])?;
        RefundAction::RefundSpl { amount }
    } else {
        RefundAction::SweepSol { lamports: accounts[1].lamports }
    };
    Ok(RefundPlan { data, source, intent_hash, bump, action })
}


/// `execute` and `refund` bind to the same intent: with the same funder and
/// executor keys, the same `amount_in`, salt and leg count, and legs that agree
/// (`execute`'s destinations are accounts, `refund`'s are in its data), they
/// rebuild the same intent hash, hence the same vault PDA.
pub proof fn law_execute_and_refund_bind_same_intent(
    exec_accounts: Seq<AccountSnapshot>,
    exec_rest: Seq<u8>,
    start: int,
    refund_accounts: Seq<AccountSnapshot>,
    refund_rest: Seq<u8>,
    mint: Seq<u8>,
)
    requires
        spec_execute_prefix_fault(exec_rest) is None,
        spec_refund_data_fault(refund_rest) is None,
        exec_accounts.len() >= 3,
        refund_accounts.len() >= 3,
        exec_accounts[0].key@ == refund_accounts[0].key@,
        exec_accounts[2].key@ == refund_accounts[2].key@,
        exec_rest.subrange(0, 41) == refund_rest.subrange(0, 41),
        forall|i: int|
            0 <= i < exec_rest[40] ==> (#[trigger] exec_accounts[start + i]).key@ == refund_dests(
                refund_rest,
            )[i] && prefix_mins(exec_rest)[i] == refund_mins(refund_rest)[i],
    ensures
        execute_intent_hash(exec_accounts, exec_rest, mint, start) == refund_intent_hash(
            refund_accounts,
            refund_rest,
            mint,
        ),
{
    assert(exec_rest.subrange(0, 8) =~= exec_rest.subrange(0, 41).subrange(0, 8));
    assert(refund_rest.subrange(0, 8) =~= refund_rest.subrange(0, 41).subrange(0, 8));
    assert(exec_rest.subrange(8, 40) =~= exec_rest.subrange(0, 41).subrange(8, 40));
    assert(refund_rest.subrange(8, 40) =~= refund_rest.subrange(0, 41).subrange(8, 40));
    assert(exec_rest[40] == exec_rest.subrange(0, 41)[40]);
    assert(refund_rest[40] == refund_rest.subrange(0, 41)[40]);
    let nb = exec_rest[40] as nat;
    assert(dest_keys(exec_accounts, start, nb) =~= refund_dests(refund_rest)) by {
        assert forall|i: int| 0 <= i < nb implies dest_keys(exec_accounts, start, nb)[i]
            == refund_dests(refund_rest)[i] by {
            assert(exec_accounts[start + i].key@ == refund_dests(refund_rest)[i]);
        }
    }
    assert(prefix_mins(exec_rest) =~= refund_mins(refund_rest)) by {
        assert forall|i: int| 0 <= i < nb implies prefix_mins(exec_rest)[i] == refund_mins(
            refund_rest,
        )[i] by {
            assert(exec_accounts[start + i].key@ == refund_dests(refund_rest)[i]);
        }
    }
}

/// An SPL refund pays the funder: when `refund` accepts a vault whose
/// `from_program` (account 3) is not the System Program, there are nine
/// accounts, account 6 is the vault ATA's mint, and account 5 is the canonical
/// ATA of (account 2 = the funder hashed into the intent, that mint, account
/// 3); conversely, once the data, the header and the vault PDA check out, the
/// funder's ATA for the vault's mint is accepted.
pub proof fn law_refund_spl_pays_funder(program_id: Seq<u8>, accounts: Seq<AccountSnapshot>, rest: Seq<u8>)
    ensures
        spec_refund_fault(program_id, accounts, rest) is None && accounts.len() >= 4 && accounts[3].key@
            != SYSTEM_PROGRAM_ID@ ==> {
            &&& accounts.len() >= 9
            &&& accounts[6].key@ == data_mint(accounts[4].data@)
            &&& spec_ata_address(accounts[2].key@, accounts[6].key@, accounts[3].key@) == Some(accounts[5].key@)
        },
        ({
            let m = data_mint(accounts[4].data@);
            &&& spec_refund_data_fault(rest) is None
            &&& spec_intent_source(accounts) == Ok::<(bool, Seq<u8>, int), SolverFault>((true, m, 5))
            &&& program_address_search(intent_pda_seeds(refund_intent_hash(accounts, rest, m)), program_id)
                matches Some((k, b)) && k == accounts[1].key@
            &&& accounts.len() >= 9
            &&& accounts[6].key@ == m
            &&& spec_ata_address(accounts[2].key@, m, accounts[3].key@) == Some(accounts[5].key@)
        }) ==> spec_refund_fault(program_id, accounts, rest) is None,
{
    law_intent_source_header(accounts);
}

} // verus!
