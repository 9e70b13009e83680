//! The intent PDA: `create_program_address(["intent", intent_hash, [bump]], factory)`.

use vstd::prelude::*;
use crate::keys::{Pubkey, key_eq, push_all, INTENT_FACTORY_PROGRAM_ID};
use crate::outside::{program_address_create, create_program_address};
use crate::intent_factory::errors::{IntentError, FactoryError, FactoryFault, fault_of_result};

verus! {

/// First seed of the intent PDAs: `b"intent"`.
pub const INTENT_SEED: [u8; 6] = [105, 110, 116, 101, 110, 116];

/// The seeds of the intent PDA for a hash and bump.
pub open spec fn intent_pda_seeds(intent_hash: Seq<u8>, bump: u8) -> Seq<Seq<u8>> {
    seq![INTENT_SEED@, intent_hash, seq![bump]]
}

/// The intent PDA is the program address of the intent seeds with `bump`
/// under the factory program, and it is `expected_key`.
pub open spec fn spec_intent_pda_ok(intent_hash: Seq<u8>, bump: u8, expected_key: Seq<u8>) -> bool {
    program_address_create(intent_pda_seeds(intent_hash, bump), INTENT_FACTORY_PROGRAM_ID@) == Some(
        expected_key,
    )
}

/// Checks that `expected_key` is the intent PDA for `intent_hash` and `bump`.
pub fn verify_intent_pda(intent_hash: &[u8; 32], bump: u8, expected_key: &Pubkey) -> (r: Result<(), FactoryError>)
    ensures
        fault_of_result(r) == if spec_intent_pda_ok(intent_hash@, bump, expected_key@) {
            None
        } else {
            Some(FactoryFault::Intent(IntentError::BadIntentPda))
        },
{
    let mut seed0: Vec<u8> = Vec::new();
    push_all(&mut seed0, INTENT_SEED.as_slice());
    let mut seed1: Vec<u8> = Vec::new();
    push_all(&mut seed1, intent_hash.as_slice());
    let mut seed2: Vec<u8> = Vec::new();
    seed2.push(bump);
    let mut seeds: Vec<Vec<u8>> = Vec::new();
    seeds.push(seed0);
    seeds.push(seed1);
    seeds.push(seed2);
    proof {
        assert(seeds@[0].deep_view() =~= INTENT_SEED@);
        assert(seeds@[1].deep_view() =~= intent_hash@);
        assert(seeds@[2].deep_view() =~= seq![bump]);
        assert(seeds.deep_view() =~= intent_pda_seeds(intent_hash@, bump));
    }
    match create_program_address(&seeds, &INTENT_FACTORY_PROGRAM_ID) {
        None => Err(FactoryError::Intent(IntentError::BadIntentPda)),
        Some(derived) => if key_eq(&derived, expected_key) {
            Ok(())
        } else {
            Err(FactoryError::Intent(IntentError::BadIntentPda))
        },
    }
}

} // verus!
