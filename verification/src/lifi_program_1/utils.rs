//! Account-list helpers and the hex rendering of transaction ids.

use vstd::prelude::*;
use vstd::bytes::spec_u64_to_le_bytes;
use crate::keys::{Pubkey, AccountSnapshot, key_eq, push_all};
use crate::outside::{program_address_search, try_find_program_address};
use super::error::TrackError;

verus! {

/// Takes the account at `cursor` if it is `matches_account` and read-only.
/// With no account left, `NotEnoughAccountKeys` and the cursor stays; otherwise
/// the cursor moves past it and a wrong key or a writable account is an
/// `InvalidArgument`.
pub fn get_verified_readonly_account(
    accounts: &[AccountSnapshot],
    cursor: &mut usize,
    matches_account: &Pubkey,
) -> (r: Result<usize, TrackError>)
    requires
        *old(cursor) <= accounts@.len(),
    ensures
        *old(cursor) == accounts@.len() ==> r == Err::<usize, TrackError>(
            TrackError::NotEnoughAccountKeys,
        ) && *final(cursor) == *old(cursor),
        *old(cursor) < accounts@.len() ==> {
            let a = accounts@[*old(cursor) as int];
            &&& *final(cursor) == *old(cursor) + 1
            &&& r == if a.key@ != matches_account@ || a.is_writable {
                Err::<usize, TrackError>(TrackError::InvalidArgument)
            } else {
                Ok::<usize, TrackError>(*old(cursor))
            }
        },
{
    if *cursor >= accounts.len() {
        return Err(TrackError::NotEnoughAccountKeys);
    }
    let i = *cursor;
    *cursor = i + 1;
    if !key_eq(&accounts[i].key, matches_account) {
        return Err(TrackError::InvalidArgument);
    }
    assert_account_is_readonly(&accounts[i])?;
    Ok(i)
}

/// Takes the account at `cursor` if it is read-only (any key).
pub fn get_unverified_readonly_account(accounts: &[AccountSnapshot], cursor: &mut usize) -> (r: Result<
    usize,
    TrackError,
>)
    requires
        *old(cursor) <= accounts@.len(),
    ensures
        *old(cursor) == accounts@.len() ==> r == Err::<usize, TrackError>(
            TrackError::NotEnoughAccountKeys,
        ) && *final(cursor) == *old(cursor),
        *old(cursor) < accounts@.len() ==> {
            &&& *final(cursor) == *old(cursor) + 1
            &&& r == if accounts@[*old(cursor) as int].is_writable {
                Err::<usize, TrackError>(TrackError::InvalidArgument)
            } else {
                Ok::<usize, TrackError>(*old(cursor))
            }
        },
{
    if *cursor >= accounts.len() {
        return Err(TrackError::NotEnoughAccountKeys);
    }
    let i = *cursor;
    *cursor = i + 1;
    assert_account_is_readonly(&accounts[i])?;
    Ok(i)
}

/// A writable account is an `InvalidArgument`.
pub fn assert_account_is_readonly(account: &AccountSnapshot) -> (r: Result<(), TrackError>)
    ensures
        r == if account.is_writable {
            Err::<(), TrackError>(TrackError::InvalidArgument)
        } else {
            Ok::<(), TrackError>(())
        },
{
    if account.is_writable {
        return Err(TrackError::InvalidArgument);
    }
    Ok(())
}

/// The uppercase hex digit of `n` (below 16).
pub open spec fn hex_char(n: int) -> char {
    if n < 10 {
        (48 + n) as char
    } else {
        (55 + n) as char
    }
}

/// Bytes as uppercase hex, two digits per byte, high nibble first.
pub open spec fn hex_string(bytes: Seq<u8>) -> Seq<char> {
    Seq::new(
        2 * bytes.len(),
        |i: int| if i % 2 == 0 { hex_char((bytes[i / 2] / 16) as int) } else { hex_char((bytes[i / 2] % 16) as int) },
    )
}

fn hex_digit_str(n: u8) -> (r: &'static str)
    requires
        n < 16,
    ensures
        r@ == seq![hex_char(n as int)],
{
    proof {
        reveal_strlit("0");
        reveal_strlit("1");
        reveal_strlit("2");
        reveal_strlit("3");
        reveal_strlit("4");
        reveal_strlit("5");
        reveal_strlit("6");
        reveal_strlit("7");
        reveal_strlit("8");
        reveal_strlit("9");
        reveal_strlit("A");
        reveal_strlit("B");
        reveal_strlit("C");
        reveal_strlit("D");
        reveal_strlit("E");
        reveal_strlit("F");
    }
    match n {
        0 => "0",
        1 => "1",
        2 => "2",
        3 => "3",
        4 => "4",
        5 => "5",
        6 => "6",
        7 => "7",
        8 => "8",
        9 => "9",
        10 => "A",
        11 => "B",
        12 => "C",
        13 => "D",
        14 => "E",
        _ => "F",
    }
}

/// Renders bytes as uppercase hex (two digits per byte).
pub fn vec_u8to_hex_string(array: &[u8]) -> (r: String)
    ensures
        r@ == hex_string(array@),
{
    let mut hex = String::new();
    let mut i: usize = 0;
    while i < array.len()
        invariant
            0 <= i <= array@.len(),
            hex@ == hex_string(array@.subrange(0, i as int)),
        decreases array@.len() - i,
    {
        let byte = array[i];
        let hi = byte >> 4;
        let lo = byte & 0xF;
        assert(hi == byte / 16 && lo == byte % 16) by (bit_vector)
            requires
                hi == byte >> 4,
                lo == byte & 0xF,
        ;
        hex.append(hex_digit_str(hi));
        hex.append(hex_digit_str(lo));
        i += 1;
        assert(hex@ =~= hex_string(array@.subrange(0, i as int)));
    }
    assert(array@.subrange(0, array@.len() as int) =~= array@);
    hex
}

/// The epoch before `epoch`, wrapping at zero.
pub open spec fn prev_epoch(epoch: u64) -> u64 {
    if epoch == 0 { u64::MAX } else { (epoch - 1) as u64 }
}

/// The tracking account of `epoch`: the program address found for the seed
/// `epoch` (8 bytes, little-endian) under the program.
pub open spec fn spec_epoch_track_account(epoch: u64, program_id: Seq<u8>) -> Option<Seq<u8>> {
    match program_address_search(seq![spec_u64_to_le_bytes(epoch)], program_id) {
        Some((k, _)) => Some(k),
        None => None,
    }
}

/// Finds the tracking account of `epoch`.
pub fn epoch_track_account(epoch: u64, program_id: &Pubkey) -> (r: Option<Pubkey>)
    ensures
        match r {
            Some(k) => spec_epoch_track_account(epoch, program_id@) == Some(k@),
            None => spec_epoch_track_account(epoch, program_id@) is None,
        },
{
    let bytes = vstd::bytes::u64_to_le_bytes(epoch);
    let mut seed: Vec<u8> = Vec::new();
    push_all(&mut seed, bytes.as_slice());
    let mut seeds: Vec<Vec<u8>> = Vec::new();
    seeds.push(seed);
    proof {
        assert(seeds@[0].deep_view() =~= spec_u64_to_le_bytes(epoch));
        assert(seeds.deep_view() =~= seq![spec_u64_to_le_bytes(epoch)]);
    }
    match try_find_program_address(&seeds, program_id) {
        Some((k, _)) => Some(k),
        None => None,
    }
}

} // verus!
