//! The route's virtual account list: intent PDA, source ATA, then the trailing accounts.

use vstd::prelude::*;
use crate::keys::{Pubkey, AccountSnapshot};

verus! {

/// The keys of the virtual account list: `[intent_pda, source_ata, remaining...]`.
pub open spec fn spec_virtual_keys(intent_pda: Pubkey, source_ata: Pubkey, remaining: Seq<AccountSnapshot>) -> Seq<Pubkey> {
    seq![intent_pda, source_ata] + remaining.map_values(|a: AccountSnapshot| a.key)
}

/// Builds the keys of the virtual account list that route indices refer to.
pub fn build_virtual_list(intent_pda: &Pubkey, source_ata: &Pubkey, remaining: &[AccountSnapshot]) -> (r: Vec<Pubkey>)
    ensures
        r@ == spec_virtual_keys(*intent_pda, *source_ata, remaining@),
        r@.len() == remaining@.len() + 2,
        r@[0] == *intent_pda,
        r@[1] == *source_ata,
        forall|i: int| 0 <= i < remaining@.len() ==> r@[i + 2] == (#[trigger] remaining@[i]).key,
{
    let mut list: Vec<Pubkey> = Vec::new();
    list.push(*intent_pda);
    list.push(*source_ata);
    let mut i: usize = 0;
    while i < remaining.len()
        invariant
            0 <= i <= remaining@.len(),
            list@ == seq![*intent_pda, *source_ata] + remaining@.subrange(0, i as int).map_values(
                |a: AccountSnapshot| a.key,
            ),
        decreases remaining@.len() - i,
    {
        list.push(remaining[i].key);
        i += 1;
        assert(list@ =~= seq![*intent_pda, *source_ata] + remaining@.subrange(0, i as int).map_values(
            |a: AccountSnapshot| a.key,
        ));
    }
    assert(remaining@.subrange(0, remaining@.len() as int) =~= remaining@);
    list
}

/// The layout of the virtual list: index 0 is the intent PDA (the one account
/// a route may have sign), index 1 the source ATA, and index `2 + i` the `i`-th
/// trailing account, with nothing else in the list.
pub proof fn law_virtual_list_layout(intent_pda: Pubkey, source_ata: Pubkey, remaining: Seq<AccountSnapshot>)
    ensures
        spec_virtual_keys(intent_pda, source_ata, remaining).len() == remaining.len() + 2,
        spec_virtual_keys(intent_pda, source_ata, remaining)[0] == intent_pda,
        spec_virtual_keys(intent_pda, source_ata, remaining)[1] == source_ata,
        forall|i: int|
            0 <= i < remaining.len() ==> spec_virtual_keys(intent_pda, source_ata, remaining)[i + 2]
                == (#[trigger] remaining[i]).key,
{
}

} // verus!
