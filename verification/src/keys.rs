//! 32-byte account keys and the well-known program ids the programs compare against.

use vstd::prelude::*;
use vstd::bytes::spec_u64_from_le_bytes;

verus! {

/// An account address, as its 32 raw bytes.
pub type Pubkey = [u8; 32];

/// Byte-wise equality of two keys.
pub fn key_eq(a: &Pubkey, b: &Pubkey) -> (r: bool)
    ensures
        r == (a@ == b@),
{
    let mut i: usize = 0;
    while i < 32
        invariant
            0 <= i <= 32,
            a@.len() == 32,
            b@.len() == 32,
            forall|j: int| 0 <= j < i ==> a@[j] == b@[j],
        decreases 32 - i,
    {
        if a[i] != b[i] {
            assert(a@[i as int] != b@[i as int]);
            return false;
        }
        i += 1;
    }
    assert(a@ =~= b@);
    true
}

/// Two keys with the same bytes are the same key.
pub proof fn lemma_key_view_injective(a: Pubkey, b: Pubkey)
    requires
        a@ == b@,
    ensures
        a == b,
{
    broadcast use vstd::array::group_array_axioms;

    assert(a =~= b);
}

/// Appends all of `src` to `buf`.
pub fn push_all(buf: &mut Vec<u8>, src: &[u8])
    ensures
        final(buf)@ == old(buf)@ + src@,
{
    let mut i: usize = 0;
    while i < src.len()
        invariant
            0 <= i <= src@.len(),
            buf@ == old(buf)@ + src@.subrange(0, i as int),
        decreases src@.len() - i,
    {
        buf.push(src[i]);
        i += 1;
        assert(buf@ =~= old(buf)@ + src@.subrange(0, i as int));
    }
    assert(src@.subrange(0, src@.len() as int) =~= src@);
}

/// What a token account's data holds that the programs read.
#[derive(Debug, Clone, Copy, PartialEq, Eq)]
pub struct TokenAccountFields {
    pub mint: Pubkey,
    pub owner: Pubkey,
    pub amount: u64,
}

/// A token account's mint, as bytes.
pub open spec fn data_mint(data: Seq<u8>) -> Seq<u8> {
    data.subrange(0, 32)
}

/// A token account's owner, as bytes.
pub open spec fn data_owner(data: Seq<u8>) -> Seq<u8> {
    data.subrange(32, 64)
}

/// A token account's amount.
pub open spec fn data_amount(data: Seq<u8>) -> u64 {
    spec_u64_from_le_bytes(data.subrange(64, 72))
}

/// An account as the runtime hands it to an instruction, read at one moment.
#[derive(Debug, Clone)]
pub struct AccountSnapshot {
    pub key: Pubkey,
    pub is_signer: bool,
    pub is_writable: bool,
    pub owner: Pubkey,
    pub lamports: u64,
    pub data: Vec<u8>,
}

/// The System Program (all-zero key).
pub const SYSTEM_PROGRAM_ID: Pubkey = [0, 0, 0, 0, 0, 0, 0, 0, 0, 0, 0, 0, 0, 0, 0, 0, 0, 0, 0, 0, 0, 0, 0, 0, 0, 0, 0, 0, 0, 0, 0, 0];

/// The legacy BPF loader (`BPFLoader2111111111111111111111111111111111`).
pub const BPF_LOADER_ID: Pubkey = [2, 168, 246, 145, 78, 136, 161, 110, 57, 90, 225, 40, 148, 143, 250, 105, 86, 147, 55, 104, 24, 221, 71, 67, 82, 33, 243, 198, 0, 0, 0, 0];

/// The upgradeable BPF loader (`BPFLoaderUpgradeab1e11111111111111111111111`).
pub const BPF_LOADER_UPGRADEABLE_ID: Pubkey = [2, 168, 246, 145, 78, 136, 161, 176, 226, 16, 21, 62, 247, 99, 174, 43, 0, 194, 185, 61, 22, 193, 36, 210, 192, 83, 122, 16, 4, 128, 0, 0];

/// SPL Token (`TokenkegQfeZyiNwAJbNbGKPFXCWuBvf9Ss623VQ5DA`).
pub const SPL_TOKEN_ID: Pubkey = [6, 221, 246, 225, 215, 101, 161, 147, 217, 203, 225, 70, 206, 235, 121, 172, 28, 180, 133, 237, 95, 91, 55, 145, 58, 140, 245, 133, 126, 255, 0, 169];

/// SPL Token-2022 (`TokenzQdBNbLqP5VEhdkAS6EPFLC1PHnBqCXEpPxuEb`).
pub const SPL_TOKEN_2022_ID: Pubkey = [6, 221, 246, 225, 238, 117, 143, 222, 24, 66, 93, 188, 228, 108, 205, 218, 182, 26, 252, 77, 131, 185, 13, 39, 254, 189, 249, 40, 216, 161, 139, 252];

/// The associated token account program (`ATokenGPvbdGVxr1b2hvZbsiqW5xWH25efTNsLJA8knL`).
pub const ASSOCIATED_TOKEN_PROGRAM_ID: Pubkey = [140, 151, 37, 143, 78, 36, 137, 241, 187, 61, 16, 41, 20, 142, 13, 131, 11, 90, 19, 153, 218, 255, 16, 132, 4, 142, 123, 216, 219, 233, 248, 89];

/// The intent factory program (`CNHojkSgGgdQvVGRXY667mpRP6Ne2dZzBUwE4sTWMRZU`).
pub const INTENT_FACTORY_PROGRAM_ID: Pubkey = [168, 228, 193, 109, 39, 83, 55, 149, 149, 95, 226, 240, 169, 143, 200, 72, 133, 14, 3, 247, 228, 176, 82, 4, 136, 212, 211, 8, 155, 8, 39, 235];

/// The swap-and-bridge router program (`75uzRTFJRYCtNHGHYiLmcL57no3DDZtvnGbqhztLJnKf`).
pub const ROUTER_PROGRAM_ID: Pubkey = [90, 104, 92, 94, 3, 106, 62, 142, 55, 184, 147, 131, 197, 44, 67, 31, 217, 170, 111, 124, 153, 238, 36, 37, 176, 113, 24, 97, 119, 4, 215, 134];

/// The Across SVM spoke program on mainnet (`DLv3NggMiSaef97YCkew5xKUHDh13tVGZ7tydt3ZeAru`).
pub const ACROSS_PROGRAM_ID: Pubkey = [183, 102, 64, 134, 222, 55, 238, 112, 130, 28, 16, 68, 91, 22, 47, 44, 126, 200, 121, 91, 208, 128, 12, 20, 98, 148, 158, 35, 40, 209, 221, 90];

/// The clock sysvar (`SysvarC1ock11111111111111111111111111111111`).
pub const CLOCK_SYSVAR_ID: Pubkey = [6, 167, 213, 23, 24, 199, 116, 201, 40, 86, 99, 152, 105, 29, 94, 182, 139, 94, 184, 163, 155, 75, 109, 92, 115, 85, 91, 33, 0, 0, 0, 0];

} // verus!
