use lifi_solana_programs::intent_factory::wire::{
    encode_calls, flag_for, CallSpecOwned, CallsIter, MAX_CALLS, MAX_DATA_LEN, NAMED_PREFIX,
};
use lifi_solana_programs::intent_factory::errors::WireError;

#[test]
fn encode_decode_roundtrip_single_call() {
    let call = CallSpecOwned::new(4, vec![0, 1, 2], vec![true, false, true], vec![false, false, false], vec![1, 2, 3, 4]);
    let encoded = encode_calls(&[call]);
    let remaining_len = 10;
    let mut iter = CallsIter::new(&encoded, remaining_len).unwrap();
    let decoded = iter.next_call().unwrap().unwrap();
    assert_eq!(decoded.program_ix, 4);
    assert_eq!(decoded.accounts, &[0, 1, 2]);
    assert_eq!(decoded.data, &[1, 2, 3, 4]);
    let (w, s) = decoded.flag_for(0);
    assert!(w);
    assert!(!s);
    assert!(iter.next_call().is_none());
    iter.assert_exhausted().unwrap();
}

#[test]
fn encode_decode_roundtrip_max_calls() {
    let calls: Vec<CallSpecOwned> = (0..MAX_CALLS)
        .map(|i| CallSpecOwned::new((NAMED_PREFIX + i) as u8, vec![0], vec![true], vec![false], vec![i as u8]))
        .collect();
    let encoded = encode_calls(&calls);
    let mut iter = CallsIter::new(&encoded, MAX_CALLS + 10).unwrap();
    for i in 0..MAX_CALLS {
        let c = iter.next_call().unwrap().unwrap();
        assert_eq!(c.program_ix, (NAMED_PREFIX + i) as u8);
        assert_eq!(c.data, &[i as u8]);
    }
    assert!(iter.next_call().is_none());
    iter.assert_exhausted().unwrap();
}

#[test]
fn rejects_too_many_calls() {
    let mut buf = vec![9u8];
    buf.extend_from_slice(&[0u8; 100]);
    assert!(CallsIter::new(&buf, 10).is_err());
}

#[test]
fn rejects_program_in_named_prefix() {
    let call = CallSpecOwned { program_ix: 3, accounts: vec![0], flags_bitmap: vec![0b01], data: vec![] };
    let encoded = encode_calls(&[call]);
    let mut iter = CallsIter::new(&encoded, 10).unwrap();
    assert!(iter.next_call().unwrap().is_err());
}

#[test]
fn rejects_account_index_oob() {
    let call = CallSpecOwned::new(4, vec![0, 255], vec![false, false], vec![false, false], vec![]);
    let encoded = encode_calls(&[call]);
    let mut iter = CallsIter::new(&encoded, 1).unwrap();
    assert!(iter.next_call().unwrap().is_err());
}

#[test]
fn rejects_non_canonical_bitmap() {
    let call = CallSpecOwned { program_ix: 4, accounts: vec![0], flags_bitmap: vec![0b11111101], data: vec![] };
    let encoded = encode_calls(&[call]);
    let mut iter = CallsIter::new(&encoded, 10).unwrap();
    assert!(iter.next_call().unwrap().is_err());
}

#[test]
fn rejects_trailing_wire_bytes() {
    let call = CallSpecOwned::new(4, vec![0], vec![true], vec![false], vec![]);
    let mut encoded = encode_calls(&[call]);
    encoded.push(0xFF);
    let mut iter = CallsIter::new(&encoded, 10).unwrap();
    iter.next_call().unwrap().unwrap();
    assert!(iter.next_call().is_none());
    assert!(iter.assert_exhausted().is_err());
}

#[test]
fn rejects_data_too_large() {
    let call = CallSpecOwned::new(4, vec![0], vec![false], vec![false], vec![0u8; MAX_DATA_LEN + 1]);
    let encoded = encode_calls(&[call]);
    let mut iter = CallsIter::new(&encoded, 10).unwrap();
    assert!(iter.next_call().unwrap().is_err());
}

#[test]
fn empty_calls_roundtrip() {
    let encoded = encode_calls(&[]);
    let mut iter = CallsIter::new(&encoded, 0).unwrap();
    assert!(iter.next_call().is_none());
    iter.assert_exhausted().unwrap();
}

#[test]
fn flag_for_multiple_accounts() {
    let bitmap = &[0x39u8];
    assert_eq!(flag_for(bitmap, 0), (true, false));
    assert_eq!(flag_for(bitmap, 1), (false, true));
    assert_eq!(flag_for(bitmap, 2), (true, true));
    assert_eq!(flag_for(bitmap, 3), (false, false));
}

#[test]
fn wire_errors_are_specific() {
    assert!(matches!(CallsIter::new(&[], 0), Err(WireError::MalformedWireBytes)));
    assert!(matches!(CallsIter::new(&[9], 0), Err(WireError::TooManyCalls)));
    let call = CallSpecOwned::new(4, vec![0; 65], vec![], vec![], vec![]);
    let encoded = encode_calls(&[call]);
    let mut iter = CallsIter::new(&encoded, 10).unwrap();
    assert!(matches!(iter.next_call(), Some(Err(WireError::TooManyAccountsPerCall))));
    let call = CallSpecOwned::new(20, vec![0], vec![], vec![], vec![]);
    let encoded = encode_calls(&[call]);
    let mut iter = CallsIter::new(&encoded, 10).unwrap();
    assert!(matches!(iter.next_call(), Some(Err(WireError::AccountIndexOutOfBounds))));
}

#[test]
fn new_packs_flags_lsb_first() {
    let call = CallSpecOwned::new(4, vec![0, 1, 2, 3, 4], vec![true, true, false, true, false], vec![true, false, false, false, true], vec![]);
    // bits: a0 w,s; a1 w; a3 w; a4 s -> byte0 = 0b0100_0111, byte1 = 0b0000_0010
    assert_eq!(call.flags_bitmap, vec![0b0100_0111, 0b0000_0010]);
}
