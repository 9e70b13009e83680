//! Canonical intent preimage, its SHA-256 digest, and the vault PDA seeds.

use vstd::prelude::*;
use vstd::bytes::*;
use crate::keys::{Pubkey, push_all};
use crate::outside::{sha256, sha2_digest, program_address_search, try_find_program_address};

verus! {

/// First seed of the vault PDAs: `b"intent"`.
pub const INTENT_PDA_SEED: [u8; 6] = [105, 110, 116, 101, 110, 116];

/// Domain separator prepended to every preimage: `b"isv1"` (intent solver version 1).
pub const PREIMAGE_DOMAIN: [u8; 4] = [105, 115, 118, 49];

/// The transfer legs of the preimage: destination then minimum (LE), for the first `n` legs.
pub open spec fn transfer_legs_bytes(dests: Seq<Seq<u8>>, mins: Seq<u64>, n: nat) -> Seq<u8>
    decreases n,
{
    if n == 0 {
        Seq::empty()
    } else {
        transfer_legs_bytes(dests, mins, (n - 1) as nat) + dests[n - 1] + spec_u64_to_le_bytes(
            mins[n - 1],
        )
    }
}

/// The keys of `dests` as bytes.
pub open spec fn keys_view(dests: Seq<Pubkey>) -> Seq<Seq<u8>> {
    dests.map_values(|d: Pubkey| d@)
}

/// The intent preimage: domain, funder, mint, `amount_in` (LE), salt, executor,
/// `transfer_nb`, then the first `transfer_nb` (destination, minimum) legs.
pub open spec fn intent_preimage(
    funder: Seq<u8>,
    mint: Seq<u8>,
    amount_in: u64,
    salt: Seq<u8>,
    executor: Seq<u8>,
    transfer_nb: u8,
    dests: Seq<Seq<u8>>,
    mins: Seq<u64>,
) -> Seq<u8> {
    PREIMAGE_DOMAIN@ + funder + mint + spec_u64_to_le_bytes(amount_in) + salt + executor + seq![
        transfer_nb,
    ] + transfer_legs_bytes(dests, mins, transfer_nb as nat)
}

/// The intent hash: SHA-256 of the preimage.
pub open spec fn spec_hash_intent(
    funder: Seq<u8>,
    mint: Seq<u8>,
    amount_in: u64,
    salt: Seq<u8>,
    executor: Seq<u8>,
    transfer_nb: u8,
    dests: Seq<Seq<u8>>,
    mins: Seq<u64>,
) -> Seq<u8> {
    sha256(intent_preimage(funder, mint, amount_in, salt, executor, transfer_nb, dests, mins))
}

/// Hashes the canonical intent preimage (CPI payloads are not part of it).
pub fn hash_intent(
    funder: &Pubkey,
    mint: &Pubkey,
    amount_in: u64,
    salt: &[u8; 32],
    executor: &Pubkey,
    transfer_nb: u8,
    transfer_destinations: &[Pubkey],
    transfer_min_amounts: &[u64],
) -> (r: [u8; 32])
    requires
        transfer_destinations@.len() >= transfer_nb,
        transfer_min_amounts@.len() >= transfer_nb,
    ensures
        r@ == spec_hash_intent(
            funder@,
            mint@,
            amount_in,
            salt@,
            executor@,
            transfer_nb,
            keys_view(transfer_destinations@),
            transfer_min_amounts@,
        ),
{
    let mut buf: Vec<u8> = Vec::new();
    push_all(&mut buf, PREIMAGE_DOMAIN.as_slice());
    push_all(&mut buf, funder.as_slice());
    push_all(&mut buf, mint.as_slice());
    let amount_bytes = u64_to_le_bytes(amount_in);
    push_all(&mut buf, amount_bytes.as_slice());
    push_all(&mut buf, salt.as_slice());
    push_all(&mut buf, executor.as_slice());
    buf.push(transfer_nb);
    let ghost head = buf@;
    let n = transfer_nb as usize;
    let mut i: usize = 0;
    while i < n
        invariant
            0 <= i <= n,
            n == transfer_nb,
            transfer_destinations@.len() >= n,
            transfer_min_amounts@.len() >= n,
            buf@ == head + transfer_legs_bytes(
                keys_view(transfer_destinations@),
                transfer_min_amounts@,
                i as nat,
            ),
        decreases n - i,
    {
        let ghost before = buf@;
        push_all(&mut buf, transfer_destinations[i].as_slice());
        let min_bytes = u64_to_le_bytes(transfer_min_amounts[i]);
        push_all(&mut buf, min_bytes.as_slice());
        assert(buf@ =~= head + transfer_legs_bytes(
            keys_view(transfer_destinations@),
            transfer_min_amounts@,
            (i + 1) as nat,
        ));
        i += 1;
    }
    assert(buf@ =~= intent_preimage(
        funder@,
        mint@,
        amount_in,
        salt@,
        executor@,
        transfer_nb,
        keys_view(transfer_destinations@),
        transfer_min_amounts@,
    ));
    sha2_digest(buf.as_slice())
}

/// The seeds of the vault PDA for an intent hash.
pub open spec fn intent_pda_seeds(intent_hash: Seq<u8>) -> Seq<Seq<u8>> {
    seq![INTENT_PDA_SEED@, intent_hash]
}

/// Finds the vault PDA and bump for an intent hash under `program_id`.
pub fn find_intent_pda(intent_hash: &[u8; 32], program_id: &Pubkey) -> (r: Option<(Pubkey, u8)>)
    ensures
        match r {
            Some((k, b)) => program_address_search(intent_pda_seeds(intent_hash@), program_id@)
                == Some((k@, b)),
            None => program_address_search(intent_pda_seeds(intent_hash@), program_id@) is None,
        },
{
    let mut seed0: Vec<u8> = Vec::new();
    push_all(&mut seed0, INTENT_PDA_SEED.as_slice());
    let mut seed1: Vec<u8> = Vec::new();
    push_all(&mut seed1, intent_hash.as_slice());
    let mut seeds: Vec<Vec<u8>> = Vec::new();
    seeds.push(seed0);
    seeds.push(seed1);
    proof {
        assert(seeds@[0].deep_view() =~= INTENT_PDA_SEED@);
        assert(seeds@[1].deep_view() =~= intent_hash@);
        assert(seeds.deep_view() =~= intent_pda_seeds(intent_hash@));
    }
    try_find_program_address(&seeds, program_id)
}


/// The legs are `40 * n` bytes, leg `i` being its destination then its minimum.
proof fn lemma_transfer_legs_layout(dests: Seq<Seq<u8>>, mins: Seq<u64>, n: nat)
    requires
        forall|i: int| 0 <= i < n ==> (#[trigger] dests[i]).len() == 32,
    ensures
        transfer_legs_bytes(dests, mins, n).len() == 40 * n,
        forall|i: int|
            0 <= i < n ==> {
                &&& #[trigger] transfer_legs_bytes(dests, mins, n).subrange(40 * i, 40 * i + 32)
                    == dests[i]
                &&& transfer_legs_bytes(dests, mins, n).subrange(40 * i + 32, 40 * i + 40)
                    == spec_u64_to_le_bytes(mins[i])
            },
    decreases n,
{
    lemma_auto_spec_u64_to_from_le_bytes();
    if n > 0 {
        let m = (n - 1) as nat;
        lemma_transfer_legs_layout(dests, mins, m);
        let prev = transfer_legs_bytes(dests, mins, m);
        let all = transfer_legs_bytes(dests, mins, n);
        assert(all == prev + dests[m as int] + spec_u64_to_le_bytes(mins[m as int]));
        assert forall|i: int| 0 <= i < n implies {
            &&& #[trigger] all.subrange(40 * i, 40 * i + 32) == dests[i]
            &&& all.subrange(40 * i + 32, 40 * i + 40) == spec_u64_to_le_bytes(mins[i])
        } by {
            if i < m {
                assert(all.subrange(40 * i, 40 * i + 32) =~= prev.subrange(40 * i, 40 * i + 32));
                assert(all.subrange(40 * i + 32, 40 * i + 40) =~= prev.subrange(
                    40 * i + 32,
                    40 * i + 40,
                ));
            } else {
                assert(all.subrange(40 * i, 40 * i + 32) =~= dests[i]);
                assert(all.subrange(40 * i + 32, 40 * i + 40) =~= spec_u64_to_le_bytes(mins[i]));
            }
        }
    }
}

/// Every hashed field is bound by the preimage: two intents (32-byte keys and
/// salts) with the same preimage have the same funder, mint, `amount_in`, salt,
/// executor, leg count, and the same destination and minimum on every leg.
pub proof fn law_intent_preimage_injective(
    funder1: Seq<u8>, mint1: Seq<u8>, amount1: u64, salt1: Seq<u8>, executor1: Seq<u8>,
    nb1: u8, dests1: Seq<Seq<u8>>, mins1: Seq<u64>,
    funder2: Seq<u8>, mint2: Seq<u8>, amount2: u64, salt2: Seq<u8>, executor2: Seq<u8>,
    nb2: u8, dests2: Seq<Seq<u8>>, mins2: Seq<u64>,
)
    requires
        funder1.len() == 32 && mint1.len() == 32 && salt1.len() == 32 && executor1.len() == 32,
        funder2.len() == 32 && mint2.len() == 32 && salt2.len() == 32 && executor2.len() == 32,
        forall|i: int| 0 <= i < nb1 ==> (#[trigger] dests1[i]).len() == 32,
        forall|i: int| 0 <= i < nb2 ==> (#[trigger] dests2[i]).len() == 32,
        intent_preimage(funder1, mint1, amount1, salt1, executor1, nb1, dests1, mins1)
            == intent_preimage(funder2, mint2, amount2, salt2, executor2, nb2, dests2, mins2),
    ensures
        funder1 == funder2,
        mint1 == mint2,
        amount1 == amount2,
        salt1 == salt2,
        executor1 == executor2,
        nb1 == nb2,
        forall|i: int| 0 <= i < nb1 ==> #[trigger] dests1[i] == dests2[i] && mins1[i] == mins2[i],
{
    lemma_auto_spec_u64_to_from_le_bytes();
    let p1 = intent_preimage(funder1, mint1, amount1, salt1, executor1, nb1, dests1, mins1);
    let p2 = intent_preimage(funder2, mint2, amount2, salt2, executor2, nb2, dests2, mins2);
    let a1 = spec_u64_to_le_bytes(amount1);
    let a2 = spec_u64_to_le_bytes(amount2);
    let l1 = transfer_legs_bytes(dests1, mins1, nb1 as nat);
    let l2 = transfer_legs_bytes(dests2, mins2, nb2 as nat);
    lemma_transfer_legs_layout(dests1, mins1, nb1 as nat);
    lemma_transfer_legs_layout(dests2, mins2, nb2 as nat);
    assert(p1.subrange(4, 36) =~= funder1);
    assert(p2.subrange(4, 36) =~= funder2);
    assert(p1.subrange(36, 68) =~= mint1);
    assert(p2.subrange(36, 68) =~= mint2);
    assert(p1.subrange(68, 76) =~= a1);
    assert(p2.subrange(68, 76) =~= a2);
    assert(p1.subrange(76, 108) =~= salt1);
    assert(p2.subrange(76, 108) =~= salt2);
    assert(p1.subrange(108, 140) =~= executor1);
    assert(p2.subrange(108, 140) =~= executor2);
    assert(p1[140] == nb1);
    assert(p2[140] == nb2);
    assert(p1.subrange(141, p1.len() as int) =~= l1);
    assert(p2.subrange(141, p2.len() as int) =~= l2);
    assert(spec_u64_from_le_bytes(a1) == spec_u64_from_le_bytes(a2));
    assert forall|i: int| 0 <= i < nb1 implies #[trigger] dests1[i] == dests2[i] && mins1[i] == mins2[i] by {
        assert(l1.subrange(40 * i, 40 * i + 32) == dests1[i]);
        assert(l2.subrange(40 * i, 40 * i + 32) == dests2[i]);
        assert(l1.subrange(40 * i + 32, 40 * i + 40) == spec_u64_to_le_bytes(mins1[i]));
        assert(l2.subrange(40 * i + 32, 40 * i + 40) == spec_u64_to_le_bytes(mins2[i]));
        assert(spec_u64_from_le_bytes(spec_u64_to_le_bytes(mins1[i])) == mins1[i]);
        assert(spec_u64_from_le_bytes(spec_u64_to_le_bytes(mins2[i])) == mins2[i]);
    }
}

} // verus!
