//! Trusted declarations of the outside items that the verified logic calls.
//! Every contract here is believed, not proved; each doc comment says what it claims.

use vstd::prelude::*;
use sha2::Digest;
use solana_program::program_pack::Pack;
use solana_program::sysvar::Sysvar;
use anchor_lang::AccountDeserialize;
use crate::keys::{Pubkey, TokenAccountFields, CLOCK_SYSVAR_ID, SPL_TOKEN_ID, data_mint, data_owner, data_amount};
use vstd::bytes::spec_u64_to_le_bytes;

verus! {

/// The runtime's error type, carried through unchanged where a decoder returns it.
#[verifier::external_type_specification]
#[verifier::external_body]
pub struct ExProgramError(solana_program::program_error::ProgramError);

/// Anchor's error type, carried through unchanged where a decoder returns it.
#[verifier::external_type_specification]
#[verifier::external_body]
pub struct ExAnchorError(anchor_lang::error::Error);

/// The SHA-256 digest computed by the `sha2` crate.
pub uninterp spec fn sha256(data: Seq<u8>) -> Seq<u8>;

/// The SHA-256 digest computed by `solana_program::hash::hash`.
pub uninterp spec fn solana_sha256(data: Seq<u8>) -> Seq<u8>;

/// The Keccak-256 digest computed by `solana_program::keccak::hash`.
pub uninterp spec fn keccak256(data: Seq<u8>) -> Seq<u8>;

/// The result of `Pubkey::try_find_program_address(seeds, program_id)`: the
/// program address and bump for the first bump (from 255 down) whose address is
/// off the curve, or `None` when there is none or the seeds are too many or too long.
pub uninterp spec fn program_address_search(seeds: Seq<Seq<u8>>, program_id: Seq<u8>) -> Option<(Seq<u8>, u8)>;

/// The result of `Pubkey::create_program_address(seeds, program_id)`: the program
/// address, or `None` when the seeds are invalid or the hash lies on the curve.
pub uninterp spec fn program_address_create(seeds: Seq<Seq<u8>>, program_id: Seq<u8>) -> Option<Seq<u8>>;

/// The epoch that `Clock::from_account_info` reads from a clock sysvar account
/// with this key and data, or `None` when it refuses the account.
pub uninterp spec fn clock_epoch_of(key: Seq<u8>, data: Seq<u8>) -> Option<u64>;

/// A 4-byte `COption` tag as SPL token accounts store it: `0` or `1`, then three zeros.
pub open spec fn coption_tag_ok(data: Seq<u8>, at: int) -> bool {
    &&& data[at] == 0 || data[at] == 1
    &&& data[at + 1] == 0
    &&& data[at + 2] == 0
    &&& data[at + 3] == 0
}

/// When the SPL token account decoder (`Pack::unpack` of the token account state)
/// accepts `data`: exactly 165 bytes, valid option tags for the delegate (byte 72),
/// native amount (byte 109) and close authority (byte 129), and an initialized or
/// frozen state byte (byte 108).
pub open spec fn token_account_accepts(data: Seq<u8>) -> bool {
    &&& data.len() == 165
    &&& coption_tag_ok(data, 72)
    &&& data[108] == 1 || data[108] == 2
    &&& coption_tag_ok(data, 109)
    &&& coption_tag_ok(data, 129)
}

/// The fields an accepted token account decodes to: mint (bytes 0..32),
/// owner (32..64) and amount (little-endian, 64..72).
pub open spec fn token_account_fields_of(data: Seq<u8>, f: TokenAccountFields) -> bool {
    &&& f.mint@ == data_mint(data)
    &&& f.owner@ == data_owner(data)
    &&& f.amount == data_amount(data)
}

/// `sha2::Sha256::digest(data)`: the contract only names the 32-byte digest.
#[verifier::external_body]
pub(crate) fn sha2_digest(data: &[u8]) -> (r: [u8; 32])
    ensures
        r@ == sha256(data@),
{
    sha2::Sha256::digest(data).into()
}

/// `solana_program::hash::hash(data)`: the contract only names the 32-byte digest.
#[verifier::external_body]
pub(crate) fn solana_hash(data: &[u8]) -> (r: [u8; 32])
    ensures
        r@ == solana_sha256(data@),
{
    solana_program::hash::hash(data).to_bytes()
}

/// `solana_program::keccak::hash(data)`: the contract only names the 32-byte digest.
#[verifier::external_body]
pub(crate) fn keccak_hash(data: &[u8]) -> (r: [u8; 32])
    ensures
        r@ == keccak256(data@),
{
    solana_program::keccak::hash(data).to_bytes()
}

/// `Pubkey::try_find_program_address`: the contract names the result.
#[verifier::external_body]
pub(crate) fn try_find_program_address(seeds: &Vec<Vec<u8>>, program_id: &Pubkey) -> (r: Option<(Pubkey, u8)>)
    ensures
        match r {
            Some((k, b)) => program_address_search(seeds.deep_view(), program_id@) == Some((k@, b)),
            None => program_address_search(seeds.deep_view(), program_id@) is None,
        },
{
    let refs: Vec<&[u8]> = seeds.iter().map(|s| s.as_slice()).collect();
    let id = solana_program::pubkey::Pubkey::new_from_array(*program_id);
    solana_program::pubkey::Pubkey::try_find_program_address(&refs, &id).map(|(k, b)| (k.to_bytes(), b))
}

/// `Pubkey::create_program_address`: the contract names the result (an error becomes `None`).
#[verifier::external_body]
pub(crate) fn create_program_address(seeds: &Vec<Vec<u8>>, program_id: &Pubkey) -> (r: Option<Pubkey>)
    ensures
        match r {
            Some(k) => program_address_create(seeds.deep_view(), program_id@) == Some(k@),
            None => program_address_create(seeds.deep_view(), program_id@) is None,
        },
{
    let refs: Vec<&[u8]> = seeds.iter().map(|s| s.as_slice()).collect();
    let id = solana_program::pubkey::Pubkey::new_from_array(*program_id);
    solana_program::pubkey::Pubkey::create_program_address(&refs, &id).ok().map(|k| k.to_bytes())
}

/// `spl_token_2022::state::Account::unpack(data)`: accepts exactly the data that
/// `token_account_accepts` describes and yields its mint, owner and amount; the
/// error it returns otherwise is passed on unread.
#[verifier::external_body]
pub(crate) fn unpack_token_2022_account(data: &[u8]) -> (r: Result<TokenAccountFields, solana_program::program_error::ProgramError>)
    ensures
        r is Ok <==> token_account_accepts(data@),
        r matches Ok(f) ==> token_account_fields_of(data@, f),
{
    spl_token_2022::state::Account::unpack(data).map(|a| TokenAccountFields { mint: a.mint.to_bytes(), owner: a.owner.to_bytes(), amount: a.amount })
}

/// `anchor_spl::token::TokenAccount::try_deserialize(data)` (SPL Token's
/// `Account::unpack`): accepts exactly the data that `token_account_accepts`
/// describes and yields its mint, owner and amount; the error is passed on unread.
#[verifier::external_body]
pub(crate) fn deserialize_token_account(data: &[u8]) -> (r: Result<TokenAccountFields, anchor_lang::error::Error>)
    ensures
        r is Ok <==> token_account_accepts(data@),
        r matches Ok(f) ==> token_account_fields_of(data@, f),
{
    let mut buf: &[u8] = data;
    anchor_spl::token::TokenAccount::try_deserialize(&mut buf).map(|a| TokenAccountFields { mint: a.mint.to_bytes(), owner: a.owner.to_bytes(), amount: a.amount })
}

/// `Clock::from_account_info` on an account with this key and data: the contract
/// names the epoch it reads and states that it refuses any key but the clock sysvar's.
#[verifier::external_body]
pub(crate) fn clock_epoch(key: &Pubkey, data: &[u8]) -> (r: Option<u64>)
    ensures
        r == clock_epoch_of(key@, data@),
        r is Some ==> key@ == CLOCK_SYSVAR_ID@,
{
    let k = solana_program::pubkey::Pubkey::new_from_array(*key);
    let owner = solana_program::pubkey::Pubkey::default();
    let mut lamports = 0u64;
    let mut buf = data.to_vec();
    let info = solana_program::account_info::AccountInfo::new(&k, false, false, &mut lamports, &mut buf, &owner, false, 0);
    solana_program::clock::Clock::from_account_info(&info).ok().map(|c| c.epoch)
}


/// `spl_token::instruction::approve(token_program, source, delegate, owner, &[], amount)`:
/// it refuses any token program but SPL Token's (`check_program_account`), and
/// otherwise its instruction data is the `Approve` tag `4` then `amount`
/// (little-endian); the data is returned.
#[verifier::external_body]
pub(crate) fn spl_token_approve(
    token_program: &Pubkey,
    source: &Pubkey,
    delegate: &Pubkey,
    owner: &Pubkey,
    amount: u64,
) -> (r: Result<Vec<u8>, solana_program::program_error::ProgramError>)
    ensures
        r is Ok <==> token_program@ == SPL_TOKEN_ID@,
        r matches Ok(d) ==> d@ == seq![4u8] + spec_u64_to_le_bytes(amount),
{
    let tp = solana_program::pubkey::Pubkey::new_from_array(*token_program);
    let src = solana_program::pubkey::Pubkey::new_from_array(*source);
    let dl = solana_program::pubkey::Pubkey::new_from_array(*delegate);
    let ow = solana_program::pubkey::Pubkey::new_from_array(*owner);
    spl_token::instruction::approve(&tp, &src, &dl, &ow, &[], amount).map(|ix| ix.data)
}

} // verus!
