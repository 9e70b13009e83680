//! Cursor readers over instruction data, and the account checks shared by
//! `execute` and `refund`.

use vstd::prelude::*;
use vstd::bytes::*;
use vstd::slice::slice_subrange;
use crate::keys::{
    Pubkey, AccountSnapshot, key_eq, data_mint, data_owner, data_amount, BPF_LOADER_ID, BPF_LOADER_UPGRADEABLE_ID, SYSTEM_PROGRAM_ID,
    SPL_TOKEN_ID, SPL_TOKEN_2022_ID,
};
use crate::outside::{token_account_accepts, token_account_fields_of, unpack_token_2022_account};
use crate::addresses::{spec_ata_address, get_associated_token_address_with_program_id};
use super::errors::{IntentSolverError, SolverError, SolverFault, fault_of};

verus! {

/// What `read_u64_le` reads at `cursor`: `Some` value when 8 bytes remain.
pub open spec fn spec_read_u64_le(rest: Seq<u8>, cursor: int) -> Option<u64> {
    if 0 <= cursor && cursor + 8 <= rest.len() {
        Some(spec_u64_from_le_bytes(rest.subrange(cursor, cursor + 8)))
    } else {
        None
    }
}

/// What `read_u16_le` reads at `cursor`: `Some` value when 2 bytes remain.
pub open spec fn spec_read_u16_le(rest: Seq<u8>, cursor: int) -> Option<u16> {
    if 0 <= cursor && cursor + 2 <= rest.len() {
        Some(spec_u16_from_le_bytes(rest.subrange(cursor, cursor + 2)))
    } else {
        None
    }
}

/// What `read_pubkey` reads at `cursor`: `Some` key when 32 bytes remain.
pub open spec fn spec_read_pubkey(rest: Seq<u8>, cursor: int) -> Option<Seq<u8>> {
    if 0 <= cursor && cursor + 32 <= rest.len() {
        Some(rest.subrange(cursor, cursor + 32))
    } else {
        None
    }
}

/// Reads a little-endian `u64` at `cursor` and advances it by 8; on short data the
/// cursor is left unchanged and `InsufficientData` is returned.
pub fn read_u64_le(rest: &[u8], cursor: &mut usize) -> (r: Result<u64, SolverError>)
    requires
        *old(cursor) + 8 <= usize::MAX,
    ensures
        match spec_read_u64_le(rest@, *old(cursor) as int) {
            Some(v) => r matches Ok(x) && x == v && *final(cursor) == *old(cursor) + 8,
            None => r matches Err(SolverError::Custom(IntentSolverError::InsufficientData))
                && *final(cursor) == *old(cursor),
        },
{
    let end = *cursor + 8;
    if end > rest.len() {
        return Err(SolverError::Custom(IntentSolverError::InsufficientData));
    }
    let slice = slice_subrange(rest, *cursor, end);
    let v = u64_from_le_bytes(slice);
    *cursor = end;
    Ok(v)
}

/// Reads a little-endian `u16` at `cursor` and advances it by 2; on short data the
/// cursor is left unchanged and `InsufficientData` is returned.
pub fn read_u16_le(rest: &[u8], cursor: &mut usize) -> (r: Result<u16, SolverError>)
    requires
        *old(cursor) + 2 <= usize::MAX,
    ensures
        match spec_read_u16_le(rest@, *old(cursor) as int) {
            Some(v) => r matches Ok(x) && x == v && *final(cursor) == *old(cursor) + 2,
            None => r matches Err(SolverError::Custom(IntentSolverError::InsufficientData))
                && *final(cursor) == *old(cursor),
        },
{
    let end = *cursor + 2;
    if end > rest.len() {
        return Err(SolverError::Custom(IntentSolverError::InsufficientData));
    }
    let slice = slice_subrange(rest, *cursor, end);
    let v = u16_from_le_bytes(slice);
    *cursor = end;
    Ok(v)
}

/// Reads a 32-byte key at `cursor` and advances it by 32; on short data the cursor
/// is left unchanged and `InsufficientData` is returned.
pub fn read_pubkey(rest: &[u8], cursor: &mut usize) -> (r: Result<Pubkey, SolverError>)
    requires
        *old(cursor) + 32 <= usize::MAX,
    ensures
        match spec_read_pubkey(rest@, *old(cursor) as int) {
            Some(k) => r matches Ok(x) && x@ == k && *final(cursor) == *old(cursor) + 32,
            None => r matches Err(SolverError::Custom(IntentSolverError::InsufficientData))
                && *final(cursor) == *old(cursor),
        },
{
    let end = *cursor + 32;
    if end > rest.len() {
        return Err(SolverError::Custom(IntentSolverError::InsufficientData));
    }
    let start = *cursor;
    let mut key = [0u8; 32];
    let mut i: usize = 0;
    while i < 32
        invariant
            0 <= i <= 32,
            start + 32 <= rest@.len(),
            end == start + 32,
            key@.len() == 32,
            forall|j: int| 0 <= j < i ==> key@[j] == rest@[start + j],
        decreases 32 - i,
    {
        key[i] = rest[start + i];
        i += 1;
    }
    assert(key@ =~= rest@.subrange(start as int, start + 32));
    *cursor = end;
    Ok(key)
}

/// CPI callee denylist: the legacy and the upgradeable BPF loaders.
pub fn is_cpi_program_denied(program_id: &Pubkey) -> (r: bool)
    ensures
        r == (program_id@ == BPF_LOADER_UPGRADEABLE_ID@ || program_id@ == BPF_LOADER_ID@),
{
    key_eq(program_id, &BPF_LOADER_UPGRADEABLE_ID) || key_eq(program_id, &BPF_LOADER_ID)
}

/// The outcome of checking the vault's SPL source account: its mint when the
/// account is owned by the token program, decodes as a token account owned by
/// the PDA, and is the canonical ATA of `(pda, mint, token program)`.
pub open spec fn spec_verify_spl_source_ata(
    pda: Seq<u8>,
    from_program: Seq<u8>,
    ata_key: Seq<u8>,
    ata_owner: Seq<u8>,
    data: Seq<u8>,
) -> Result<Seq<u8>, SolverFault> {
    if ata_owner != from_program || !token_account_accepts(data) || data_owner(data) != pda {
        Err(SolverFault::Custom(IntentSolverError::InvalidSourceAta))
    } else {
        match spec_ata_address(pda, data_mint(data), from_program) {
            None => Err(SolverFault::NoViableProgramAddress),
            Some(k) => if k == ata_key {
                Ok(data_mint(data))
            } else {
                Err(SolverFault::Custom(IntentSolverError::InvalidSourceAta))
            },
        }
    }
}

/// SPL source check: `pda_ata` must be owned by `from_program`, decode as a token
/// account whose owner is the PDA, and be the canonical ATA for
/// `(pda, mint, from_program)`; returns the mint read from the account.
pub fn verify_spl_source_ata(
    pda: &AccountSnapshot,
    from_program: &AccountSnapshot,
    pda_ata: &AccountSnapshot,
) -> (r: Result<Pubkey, SolverError>)
    ensures
        match spec_verify_spl_source_ata(
            pda.key@,
            from_program.key@,
            pda_ata.key@,
            pda_ata.owner@,
            pda_ata.data@,
        ) {
            Ok(m) => r matches Ok(x) && x@ == m,
            Err(f) => r is Err && fault_of(r->Err_0) == f,
        },
{
    if !key_eq(&pda_ata.owner, &from_program.key) {
        return Err(SolverError::Custom(IntentSolverError::InvalidSourceAta));
    }
    let ta = match unpack_token_2022_account(pda_ata.data.as_slice()) {
        Ok(t) => t,
        Err(_) => return Err(SolverError::Custom(IntentSolverError::InvalidSourceAta)),
    };
    if !key_eq(&ta.owner, &pda.key) {
        return Err(SolverError::Custom(IntentSolverError::InvalidSourceAta));
    }
    let expected = match get_associated_token_address_with_program_id(&pda.key, &ta.mint, &from_program.key) {
        Some(k) => k,
        None => return Err(SolverError::NoViableProgramAddress),
    };
    if !key_eq(&pda_ata.key, &expected) {
        return Err(SolverError::Custom(IntentSolverError::InvalidSourceAta));
    }
    Ok(ta.mint)
}

/// The SPL balance of an ATA-shaped account: `0` when it holds no data or is
/// system-owned (not created yet), else the decoded token amount.
pub open spec fn spec_spl_balance(owner: Seq<u8>, data: Seq<u8>) -> Option<u64> {
    if data.len() == 0 || owner == SYSTEM_PROGRAM_ID@ {
        Some(0)
    } else if token_account_accepts(data) {
        Some(data_amount(data))
    } else {
        None
    }
}

/// Reads the SPL token balance of an ATA-shaped account; `0` if it is not created
/// yet. A decoder error is passed on.
pub fn read_spl_balance(account: &AccountSnapshot) -> (r: Result<u64, SolverError>)
    ensures
        match spec_spl_balance(account.owner@, account.data@) {
            Some(v) => r == Ok::<u64, SolverError>(v),
            None => r matches Err(SolverError::Account(_)),
        },
{
    if account.data.len() == 0 || key_eq(&account.owner, &SYSTEM_PROGRAM_ID) {
        return Ok(0);
    }
    match unpack_token_2022_account(account.data.as_slice()) {
        Ok(ta) => Ok(ta.amount),
        Err(e) => Err(SolverError::Account(e)),
    }
}

/// The balance a transfer check reads: lamports of a system-owned account, the
/// token amount of an SPL Token or Token-2022 account, `0` otherwise.
pub open spec fn spec_transfer_check_balance(owner: Seq<u8>, lamports: u64, data: Seq<u8>) -> Option<u64> {
    if owner == SYSTEM_PROGRAM_ID@ {
        Some(lamports)
    } else if owner == SPL_TOKEN_ID@ || owner == SPL_TOKEN_2022_ID@ {
        spec_spl_balance(owner, data)
    } else {
        Some(0)
    }
}

/// Reads the transfer-check balance of a destination account.
pub fn read_transfer_check_balance(account: &AccountSnapshot) -> (r: Result<u64, SolverError>)
    ensures
        match spec_transfer_check_balance(account.owner@, account.lamports, account.data@) {
            Some(v) => r == Ok::<u64, SolverError>(v),
            None => r matches Err(SolverError::Account(_)),
        },
{
    if key_eq(&account.owner, &SYSTEM_PROGRAM_ID) {
        return Ok(account.lamports);
    }
    if key_eq(&account.owner, &SPL_TOKEN_ID) || key_eq(&account.owner, &SPL_TOKEN_2022_ID) {
        return read_spl_balance(account);
    }
    Ok(0)
}

/// How much a sweep of the vault's source ATA moves: `None` when the balance is
/// already zero (the transfer is skipped), else the whole balance.
pub fn pda_ata_sweep_amount(pda_ata: &AccountSnapshot) -> (r: Result<Option<u64>, SolverError>)
    ensures
        match spec_spl_balance(pda_ata.owner@, pda_ata.data@) {
            Some(v) => r == Ok::<Option<u64>, SolverError>(if v == 0 { None } else { Some(v) }),
            None => r matches Err(SolverError::Account(_)),
        },
{
    let amount = read_spl_balance(pda_ata)?;
    if amount == 0 {
        Ok(None)
    } else {
        Ok(Some(amount))
    }
}

/// Where an intent's funds sit: a SOL vault (the PDA itself) or an SPL vault
/// (the PDA's ATA at account index 4), the mint hashed into the intent
/// (the System Program id for SOL), and the index of the next account.
#[derive(Debug, Clone, Copy)]
pub struct IntentSource {
    pub from_is_spl: bool,
    pub mint: Pubkey,
    pub next_index: usize,
}

/// The account header `[executor (signer), pda, funder, from_program, (pda_ata)]`
/// checked in order: four accounts present, executor signed, `from_program` is
/// the System Program (SOL) or SPL Token / Token-2022 (SPL, then the source ATA
/// follows and is checked).
pub open spec fn spec_intent_source(accounts: Seq<AccountSnapshot>) -> Result<(bool, Seq<u8>, int), SolverFault> {
    if accounts.len() < 4 {
        Err(SolverFault::Custom(IntentSolverError::NotEnoughAccounts))
    } else if !accounts[0].is_signer {
        Err(SolverFault::MissingRequiredSignature)
    } else {
        let fp = accounts[3].key@;
        if fp == SYSTEM_PROGRAM_ID@ {
            Ok((false, SYSTEM_PROGRAM_ID@, 4))
        } else if fp == SPL_TOKEN_ID@ || fp == SPL_TOKEN_2022_ID@ {
            if accounts.len() < 5 {
                Err(SolverFault::Custom(IntentSolverError::NotEnoughAccounts))
            } else {
                match spec_verify_spl_source_ata(
                    accounts[1].key@,
                    fp,
                    accounts[4].key@,
                    accounts[4].owner@,
                    accounts[4].data@,
                ) {
                    Ok(m) => Ok((true, m, 5)),
                    Err(f) => Err(f),
                }
            }
        } else {
            Err(SolverFault::Custom(IntentSolverError::WrongTokenProgram))
        }
    }
}

/// Checks the account header shared by `execute` and `refund` and resolves the
/// intent's source.
pub fn resolve_intent_source(accounts: &[AccountSnapshot]) -> (r: Result<IntentSource, SolverError>)
    ensures
        match spec_intent_source(accounts@) {
            Ok((spl, mint, next)) => r matches Ok(src) && src.from_is_spl == spl && src.mint@ == mint
                && src.next_index == next,
            Err(f) => r is Err && fault_of(r->Err_0) == f,
        },
{
    if accounts.len() < 4 {
        return Err(SolverError::Custom(IntentSolverError::NotEnoughAccounts));
    }
    if !accounts[0].is_signer {
        return Err(SolverError::MissingRequiredSignature);
    }
    let from_program = &accounts[3];
    if key_eq(&from_program.key, &SYSTEM_PROGRAM_ID) {
        Ok(IntentSource { from_is_spl: false, mint: SYSTEM_PROGRAM_ID, next_index: 4 })
    } else if key_eq(&from_program.key, &SPL_TOKEN_ID) || key_eq(&from_program.key, &SPL_TOKEN_2022_ID) {
        if accounts.len() < 5 {
            return Err(SolverError::Custom(IntentSolverError::NotEnoughAccounts));
        }
        let mint = verify_spl_source_ata(&accounts[1], from_program, &accounts[4])?;
        Ok(IntentSource { from_is_spl: true, mint, next_index: 5 })
    } else {
        Err(SolverError::Custom(IntentSolverError::WrongTokenProgram))
    }
}

/// The account header of `execute` and `refund`: the executor signed; a
/// System Program source has the four accounts `[executor, pda, funder,
/// from_program]` and the SOL mint, so what follows starts at index 4; an SPL
/// source (SPL Token or Token-2022) adds the vault ATA at index 4, owned by
/// that program, whose mint is the intent's, so what follows starts at index 5.
pub proof fn law_intent_source_header(accounts: Seq<AccountSnapshot>)
    ensures
        spec_intent_source(accounts) is Ok ==> {
            let (spl, mint, next) = spec_intent_source(accounts)->Ok_0;
            &&& accounts.len() >= 4
            &&& accounts[0].is_signer
            &&& (spl <==> (accounts[3].key@ == SPL_TOKEN_ID@ || accounts[3].key@ == SPL_TOKEN_2022_ID@))
            &&& !spl ==> accounts[3].key@ == SYSTEM_PROGRAM_ID@ && mint == SYSTEM_PROGRAM_ID@ && next == 4
            &&& spl ==> {
                &&& next == 5
                &&& accounts.len() >= 5
                &&& accounts[4].owner@ == accounts[3].key@
                &&& mint == data_mint(accounts[4].data@)
                &&& data_owner(accounts[4].data@) == accounts[1].key@
                &&& spec_ata_address(accounts[1].key@, mint, accounts[3].key@) == Some(accounts[4].key@)
            }
        },
{
}

} // verus!
