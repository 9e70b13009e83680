use lifi_solana_programs::intent_factory::state::intent_header::{IntentHeader, IntentOutcome, MAX_OUTCOMES};
use solana_program::pubkey::Pubkey as SolKey;

fn unique() -> [u8; 32] {
    SolKey::new_unique().to_bytes()
}

fn test_header_spl_outcomes() -> IntentHeader {
    IntentHeader {
        user: unique(),
        src_mint: Some(unique()),
        amount_in: 1_000_000,
        outcomes: vec![
            IntentOutcome { mint: Some([3u8; 32]), account: [4u8; 32], amount: 950_000 },
            IntentOutcome { mint: Some([5u8; 32]), account: [6u8; 32], amount: 10_000 },
        ],
        deadline: 1_700_000_000,
        salt: [42u8; 32],
        executor: unique(),
    }
}

fn test_header_native_outcome() -> IntentHeader {
    IntentHeader {
        user: unique(),
        src_mint: Some(unique()),
        amount_in: 1_000_000,
        outcomes: vec![IntentOutcome { mint: None, account: [4u8; 32], amount: 950_000 }],
        deadline: 1_700_000_000,
        salt: [42u8; 32],
        executor: unique(),
    }
}

#[test]
fn encode_decode_roundtrip_spl() {
    let header = test_header_spl_outcomes();
    let bytes = header.canonical_encode();
    let decoded = IntentHeader::decode(&bytes).unwrap();
    assert_eq!(decoded.canonical_encode(), bytes);
    assert_eq!(decoded.user, header.user);
    assert_eq!(decoded.src_mint, header.src_mint);
    assert_eq!(decoded.amount_in, header.amount_in);
    assert_eq!(decoded.outcomes.len(), 2);
    assert_eq!(decoded.outcomes[0].mint, header.outcomes[0].mint);
    assert_eq!(decoded.outcomes[0].account, header.outcomes[0].account);
    assert_eq!(decoded.outcomes[0].amount, header.outcomes[0].amount);
    assert_eq!(decoded.deadline, header.deadline);
    assert_eq!(decoded.salt, header.salt);
    assert_eq!(decoded.executor, header.executor);
}

#[test]
fn encode_decode_roundtrip_native() {
    let header = test_header_native_outcome();
    let bytes = header.canonical_encode();
    let decoded = IntentHeader::decode(&bytes).unwrap();
    assert_eq!(decoded.canonical_encode(), bytes);
    assert_eq!(decoded.outcomes.len(), 1);
    assert_eq!(decoded.outcomes[0].mint, None);
    assert_eq!(decoded.outcomes[0].account, header.outcomes[0].account);
    assert_eq!(decoded.outcomes[0].amount, header.outcomes[0].amount);
}

#[test]
fn native_outcome_is_shorter_than_spl() {
    let native = test_header_native_outcome();
    let spl = test_header_spl_outcomes();
    let native_bytes = native.canonical_encode();
    let spl_bytes = spl.canonical_encode();
    assert!(native_bytes.len() < spl_bytes.len());
}

#[test]
fn decode_rejects_bad_option_tag() {
    let header = test_header_spl_outcomes();
    let mut bytes = header.canonical_encode();
    bytes[32] = 2;
    assert!(IntentHeader::decode(&bytes).is_err());
}

#[test]
fn decode_rejects_outcome_count_over_max() {
    let header = test_header_spl_outcomes();
    let mut bytes = header.canonical_encode();
    bytes[73] = 5;
    assert!(IntentHeader::decode(&bytes).is_err());
}

#[test]
fn decode_rejects_trailing_bytes() {
    let header = test_header_spl_outcomes();
    let mut bytes = header.canonical_encode();
    bytes.push(0);
    assert!(IntentHeader::decode(&bytes).is_err());
}

#[test]
fn decode_rejects_truncated_bytes() {
    let header = test_header_spl_outcomes();
    let bytes = header.canonical_encode();
    assert!(IntentHeader::decode(&bytes[..bytes.len() - 1]).is_err());
}

#[test]
fn none_options_roundtrip() {
    let mut header = test_header_native_outcome();
    header.src_mint = None;
    header.outcomes = vec![];
    let bytes = header.canonical_encode();
    let decoded = IntentHeader::decode(&bytes).unwrap();
    assert_eq!(decoded.src_mint, None);
    assert!(decoded.outcomes.is_empty());
}

#[test]
fn executor_roundtrip() {
    let header = test_header_spl_outcomes();
    let bytes = header.canonical_encode();
    let decoded = IntentHeader::decode(&bytes).unwrap();
    assert_eq!(decoded.executor, header.executor);
}

#[test]
fn outcomes_preserve_declared_order() {
    let header = test_header_spl_outcomes();
    let bytes = header.canonical_encode();
    let decoded = IntentHeader::decode(&bytes).unwrap();
    for (i, outcome) in decoded.outcomes.iter().enumerate() {
        assert_eq!(outcome.mint, header.outcomes[i].mint);
        assert_eq!(outcome.account, header.outcomes[i].account);
        assert_eq!(outcome.amount, header.outcomes[i].amount);
    }
}

#[test]
fn decode_rejects_bad_outcome_mint_tag() {
    let header = test_header_spl_outcomes();
    let mut bytes = header.canonical_encode();
    bytes[74] = 2;
    assert!(IntentHeader::decode(&bytes).is_err());
}

#[test]
fn zero_amount_outcome_allowed() {
    let mut header = test_header_native_outcome();
    header.outcomes[0].amount = 0;
    let bytes = header.canonical_encode();
    let decoded = IntentHeader::decode(&bytes).unwrap();
    assert_eq!(decoded.outcomes[0].amount, 0);
}

#[test]
fn max_outcomes_roundtrip() {
    let mut header = test_header_spl_outcomes();
    header.outcomes = (0..MAX_OUTCOMES)
        .map(|i| IntentOutcome {
            mint: Some([i as u8 + 10; 32]),
            account: [i as u8 + 20; 32],
            amount: (i as u64 + 1) * 1000,
        })
        .collect();
    let bytes = header.canonical_encode();
    let decoded = IntentHeader::decode(&bytes).unwrap();
    assert_eq!(decoded.outcomes.len(), MAX_OUTCOMES);
}

#[test]
fn header_layout_and_negative_deadline() {
    let mut header = test_header_native_outcome();
    header.deadline = -2;
    let bytes = header.canonical_encode();
    // user 32 + tag/mint 33 + amount 8 + count 1 + row (1 + 32 + 8) + deadline 8 + salt 32 + executor 32
    assert_eq!(bytes.len(), 32 + 33 + 8 + 1 + 41 + 8 + 32 + 32);
    assert_eq!(&bytes[115..123], &(-2i64).to_le_bytes());
    assert_eq!(IntentHeader::decode(&bytes).unwrap().deadline, -2);
}
