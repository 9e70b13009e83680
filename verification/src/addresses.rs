//! Program-derived addresses shared by the programs: the associated token
//! account of a wallet, derived through the runtime's address search.

use vstd::prelude::*;
use crate::keys::{Pubkey, ASSOCIATED_TOKEN_PROGRAM_ID};
use crate::outside::{program_address_search, try_find_program_address};

verus! {

/// The seeds of the associated token account of `wallet` for `mint` under `token_program`.
pub open spec fn ata_seeds(wallet: Seq<u8>, mint: Seq<u8>, token_program: Seq<u8>) -> Seq<Seq<u8>> {
    seq![wallet, token_program, mint]
}

/// The associated token account address: the program address the runtime finds
/// for the ATA seeds under the associated token account program.
pub open spec fn spec_ata_address(wallet: Seq<u8>, mint: Seq<u8>, token_program: Seq<u8>) -> Option<Seq<u8>> {
    match program_address_search(ata_seeds(wallet, mint, token_program), ASSOCIATED_TOKEN_PROGRAM_ID@) {
        Some((k, _)) => Some(k),
        None => None,
    }
}

fn key_to_vec(k: &Pubkey) -> (r: Vec<u8>)
    ensures
        r@ == k@,
{
    let mut v: Vec<u8> = Vec::new();
    crate::keys::push_all(&mut v, k.as_slice());
    v
}

/// Derives the associated token account address for `wallet`, `mint` and
/// `token_program`; `None` when the runtime finds no program address for the
/// seeds (where the runtime's own derivation panics).
pub fn get_associated_token_address_with_program_id(
    wallet: &Pubkey,
    mint: &Pubkey,
    token_program: &Pubkey,
) -> (r: Option<Pubkey>)
    ensures
        match r {
            Some(k) => spec_ata_address(wallet@, mint@, token_program@) == Some(k@),
            None => spec_ata_address(wallet@, mint@, token_program@) is None,
        },
{
    let mut seeds: Vec<Vec<u8>> = Vec::new();
    seeds.push(key_to_vec(wallet));
    seeds.push(key_to_vec(token_program));
    seeds.push(key_to_vec(mint));
    proof {
        assert(seeds@[0].deep_view() =~= wallet@);
        assert(seeds@[1].deep_view() =~= token_program@);
        assert(seeds@[2].deep_view() =~= mint@);
        assert(seeds.deep_view() =~= ata_seeds(wallet@, mint@, token_program@));
    }
    match try_find_program_address(&seeds, &ASSOCIATED_TOKEN_PROGRAM_ID) {
        Some((k, _)) => Some(k),
        None => None,
    }
}

} // verus!
