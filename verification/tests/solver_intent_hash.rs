use sha2::Digest;
use lifi_solana_programs::intent_factory_program::intent_hash::hash_intent;

#[test]
fn hash_is_deterministic_and_field_sensitive() {
    let funder = [1u8; 32];
    let mint = [2u8; 32];
    let executor = [3u8; 32];
    let dest = [4u8; 32];
    let salt = [9u8; 32];
    let other = [0xAAu8; 32];

    let base = hash_intent(&funder, &mint, 100, &salt, &executor, 1, &[dest], &[50]);

    assert_eq!(base, hash_intent(&funder, &mint, 100, &salt, &executor, 1, &[dest], &[50]));

    assert_ne!(base, hash_intent(&other, &mint, 100, &salt, &executor, 1, &[dest], &[50]));
    assert_ne!(base, hash_intent(&funder, &other, 100, &salt, &executor, 1, &[dest], &[50]));
    assert_ne!(base, hash_intent(&funder, &mint, 101, &salt, &executor, 1, &[dest], &[50]));
    let mut salt2 = salt;
    salt2[0] ^= 1;
    assert_ne!(base, hash_intent(&funder, &mint, 100, &salt2, &executor, 1, &[dest], &[50]));
    assert_ne!(base, hash_intent(&funder, &mint, 100, &salt, &other, 1, &[dest], &[50]));
    assert_ne!(base, hash_intent(&funder, &mint, 100, &salt, &executor, 1, &[other], &[50]));
    assert_ne!(base, hash_intent(&funder, &mint, 100, &salt, &executor, 1, &[dest], &[51]));
}

#[test]
fn hash_is_sha256_of_the_documented_preimage() {
    let mut pre = Vec::new();
    pre.extend_from_slice(b"isv1");
    pre.extend_from_slice(&[1u8; 32]);
    pre.extend_from_slice(&[2u8; 32]);
    pre.extend_from_slice(&100u64.to_le_bytes());
    pre.extend_from_slice(&[9u8; 32]);
    pre.extend_from_slice(&[3u8; 32]);
    pre.push(1);
    pre.extend_from_slice(&[4u8; 32]);
    pre.extend_from_slice(&50u64.to_le_bytes());
    let expected: [u8; 32] = sha2::Sha256::digest(&pre).into();
    assert_eq!(hash_intent(&[1u8; 32], &[2u8; 32], 100, &[9u8; 32], &[3u8; 32], 1, &[[4u8; 32]], &[50]), expected);
}
