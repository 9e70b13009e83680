//! The vault authority PDA, whose seeds also sign the vault's close.

use vstd::prelude::*;
use crate::keys::{Pubkey, push_all};
use crate::outside::{program_address_search, try_find_program_address};

verus! {

/// First seed of the vault authority PDAs: `b"vault"`.
pub const VAULT_SEED: [u8; 5] = [118, 97, 117, 108, 116];

/// The seeds of the vault authority for a route and mint.
pub open spec fn vault_seeds(route_seed: Seq<u8>, mint: Seq<u8>) -> Seq<Seq<u8>> {
    seq![VAULT_SEED@, route_seed, mint]
}

/// Finds the vault authority PDA and its bump.
pub fn find_vault_authority(route_seed: &[u8; 8], mint: &Pubkey, program_id: &Pubkey) -> (r: Option<(Pubkey, u8)>)
    ensures
        match r {
            Some((k, b)) => program_address_search(vault_seeds(route_seed@, mint@), program_id@) == Some((k@, b)),
            None => program_address_search(vault_seeds(route_seed@, mint@), program_id@) is None,
        },
{
    let mut s0: Vec<u8> = Vec::new();
    push_all(&mut s0, VAULT_SEED.as_slice());
    let mut s1: Vec<u8> = Vec::new();
    push_all(&mut s1, route_seed.as_slice());
    let mut s2: Vec<u8> = Vec::new();
    push_all(&mut s2, mint.as_slice());
    let mut seeds: Vec<Vec<u8>> = Vec::new();
    seeds.push(s0);
    seeds.push(s1);
    seeds.push(s2);
    proof {
        assert(seeds@[0].deep_view() =~= VAULT_SEED@);
        assert(seeds@[1].deep_view() =~= route_seed@);
        assert(seeds@[2].deep_view() =~= mint@);
        assert(seeds.deep_view() =~= vault_seeds(route_seed@, mint@));
    }
    try_find_program_address(&seeds, program_id)
}

} // verus!
