//! The intent hash: SHA-256 of the canonical header bytes.

use vstd::prelude::*;
use crate::outside::{solana_sha256, solana_hash};

verus! {

/// Computes the intent hash from the canonical header bytes only; the route
/// (calls and trailing accounts) is not part of it.
pub fn compute_intent_hash(header_bytes: &[u8]) -> (r: [u8; 32])
    ensures
        r@ == solana_sha256(header_bytes@),
{
    solana_hash(header_bytes)
}

} // verus!
