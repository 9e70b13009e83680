use lifi_solana_programs::lifi_program_1::error::TrackError;
use lifi_solana_programs::lifi_program_1::processor::{
    decode_instruction_data, encode_instruction_data, process_instruction, InstructionData,
};
use lifi_solana_programs::lifi_program_1::track_v1::{TrackV1InstructionData, track_log_line};
use lifi_solana_programs::lifi_program_1::utils::{
    vec_u8to_hex_string, get_verified_readonly_account, get_unverified_readonly_account,
    assert_account_is_readonly, epoch_track_account,
};
use lifi_solana_programs::transaction_tracking::processor::{
    process_instruction as tracking_process_instruction, decode_tracking_instruction, TrackingInstructionData,
};
use lifi_solana_programs::keys::{AccountSnapshot, CLOCK_SYSVAR_ID};
use solana_program::pubkey::Pubkey as SolKey;

const PROGRAM: [u8; 32] = [33u8; 32];

fn clock_data(epoch: u64) -> Vec<u8> {
    let clock = solana_program::clock::Clock { slot: 1, epoch_start_timestamp: 2, epoch, leader_schedule_epoch: 4, unix_timestamp: 5 };
    let mut data = Vec::new();
    data.extend_from_slice(&clock.slot.to_le_bytes());
    data.extend_from_slice(&clock.epoch_start_timestamp.to_le_bytes());
    data.extend_from_slice(&clock.epoch.to_le_bytes());
    data.extend_from_slice(&clock.leader_schedule_epoch.to_le_bytes());
    data.extend_from_slice(&clock.unix_timestamp.to_le_bytes());
    data
}

fn ro(key: [u8; 32], data: Vec<u8>) -> AccountSnapshot {
    AccountSnapshot { key, is_signer: false, is_writable: false, owner: [0u8; 32], lamports: 1, data }
}

fn track_key(epoch: u64) -> [u8; 32] {
    SolKey::find_program_address(&[&epoch.to_le_bytes()], &SolKey::new_from_array(PROGRAM)).0.to_bytes()
}

#[test]
fn hex_rendering_is_uppercase_two_digits_per_byte() {
    assert_eq!(vec_u8to_hex_string(&[0x00, 0x0f, 0xa5, 0xff]), "000FA5FF");
    assert_eq!(vec_u8to_hex_string(&[]), "");
    assert_eq!(track_log_line(&[1, 2, 3, 4, 5, 6, 7, 0xab]), "LI.FI TX: 0x01020304050607AB");
}

#[test]
fn instruction_data_is_variant_then_eight_bytes() {
    let ix = decode_instruction_data(&[0, 1, 2, 3, 4, 5, 6, 7, 8]).unwrap();
    let InstructionData::TrackV1(d) = ix;
    assert_eq!(d.transaction_id, [1, 2, 3, 4, 5, 6, 7, 8]);
    assert_eq!(encode_instruction_data(&ix), vec![0, 1, 2, 3, 4, 5, 6, 7, 8]);
    assert!(decode_instruction_data(&[0, 1, 2, 3, 4, 5, 6, 7]).is_none());
    assert!(decode_instruction_data(&[0, 1, 2, 3, 4, 5, 6, 7, 8, 9]).is_none());
    assert!(decode_instruction_data(&[1, 1, 2, 3, 4, 5, 6, 7, 8]).is_none());
    assert!(matches!(decode_tracking_instruction(&[0, 9, 9, 9, 9, 9, 9, 9, 9]), Some(TrackingInstructionData::TrackV1(_))));
}

#[test]
fn account_cursor_helpers() {
    let mut w = ro([1u8; 32], vec![]);
    w.is_writable = true;
    let accounts = vec![ro(CLOCK_SYSVAR_ID, vec![]), w];
    let mut cursor = 0usize;
    assert_eq!(get_verified_readonly_account(&accounts, &mut cursor, &CLOCK_SYSVAR_ID), Ok(0));
    assert_eq!(get_unverified_readonly_account(&accounts, &mut cursor), Err(TrackError::InvalidArgument));
    assert_eq!(cursor, 2);
    assert_eq!(get_unverified_readonly_account(&accounts, &mut cursor), Err(TrackError::NotEnoughAccountKeys));
    assert_eq!(cursor, 2);
    let mut c = 1usize;
    assert_eq!(get_verified_readonly_account(&accounts, &mut c, &CLOCK_SYSVAR_ID), Err(TrackError::InvalidArgument));
    assert_eq!(assert_account_is_readonly(&accounts[1]), Err(TrackError::InvalidArgument));
}

#[test]
fn track_accepts_current_and_previous_epoch() {
    assert_eq!(epoch_track_account(42, &PROGRAM), Some(track_key(42)));
    let data = [0u8, 1, 2, 3, 4, 5, 6, 7, 8];
    for key in [track_key(42), track_key(41)] {
        let accounts = vec![ro(CLOCK_SYSVAR_ID, clock_data(42)), ro(key, vec![])];
        assert_eq!(process_instruction(&PROGRAM, &accounts, &data).unwrap(), "LI.FI TX: 0x0102030405060708");
        assert_eq!(tracking_process_instruction(&PROGRAM, &accounts, &data).unwrap(), "LI.FI TX: 0x0102030405060708");
    }
    let stale = vec![ro(CLOCK_SYSVAR_ID, clock_data(42)), ro(track_key(40), vec![])];
    assert_eq!(process_instruction(&PROGRAM, &stale, &data), Err(TrackError::InvalidArgument));
    assert_eq!(process_instruction(&PROGRAM, &stale, &data[..8]), Err(TrackError::InvalidInstructionData));
}

#[test]
fn account_order_differs_between_the_programs() {
    let data = [0u8, 1, 2, 3, 4, 5, 6, 7, 8];
    // Clock data that does not decode, and no tracking account.
    let accounts = vec![ro(CLOCK_SYSVAR_ID, vec![1, 2, 3])];
    assert_eq!(process_instruction(&PROGRAM, &accounts, &data), Err(TrackError::InvalidArgument));
    assert_eq!(tracking_process_instruction(&PROGRAM, &accounts, &data), Err(TrackError::NotEnoughAccountKeys));
    let wrong_clock = vec![ro([5u8; 32], clock_data(1)), ro(track_key(1), vec![])];
    assert_eq!(process_instruction(&PROGRAM, &wrong_clock, &data), Err(TrackError::InvalidArgument));
    assert_eq!(process_instruction(&PROGRAM, &[], &data), Err(TrackError::NotEnoughAccountKeys));
}

#[test]
fn epoch_zero_wraps_to_the_last_epoch() {
    let data = [0u8, 1, 2, 3, 4, 5, 6, 7, 8];
    let accounts = vec![ro(CLOCK_SYSVAR_ID, clock_data(0)), ro(track_key(u64::MAX), vec![])];
    assert!(process_instruction(&PROGRAM, &accounts, &data).is_ok());
    let d = TrackV1InstructionData { transaction_id: [0; 8] };
    assert_eq!(d.transaction_id, [0; 8]);
}

#[test]
fn clock_id_matches_the_runtime() {
    assert_eq!(CLOCK_SYSVAR_ID, solana_program::sysvar::clock::ID.to_bytes());
}
