use lifi_solana_programs::intent_factory_program::helpers::{
    read_u64_le, read_u16_le, read_pubkey, is_cpi_program_denied, read_spl_balance,
    read_transfer_check_balance, verify_spl_source_ata, resolve_intent_source,
};
use lifi_solana_programs::intent_factory_program::errors::{IntentSolverError, SolverError};
use lifi_solana_programs::keys::{
    AccountSnapshot, SYSTEM_PROGRAM_ID, SPL_TOKEN_ID, SPL_TOKEN_2022_ID, BPF_LOADER_ID,
    BPF_LOADER_UPGRADEABLE_ID,
};

fn token_account_data(mint: &[u8; 32], owner: &[u8; 32], amount: u64) -> Vec<u8> {
    let mut data = vec![0u8; 165];
    data[0..32].copy_from_slice(mint);
    data[32..64].copy_from_slice(owner);
    data[64..72].copy_from_slice(&amount.to_le_bytes());
    data[108] = 1;
    data
}

fn account(key: [u8; 32], owner: [u8; 32], lamports: u64, data: Vec<u8>) -> AccountSnapshot {
    AccountSnapshot { key, is_signer: false, is_writable: false, owner, lamports, data }
}

#[test]
fn read_u64_le_reads_and_advances() {
    let bytes = 0x0102_0304_0506_0708u64.to_le_bytes();
    let mut cursor = 0usize;
    assert_eq!(read_u64_le(&bytes, &mut cursor).unwrap(), 0x0102_0304_0506_0708);
    assert_eq!(cursor, 8);
}

#[test]
fn read_u64_le_errors_when_short() {
    let bytes = [0u8; 4];
    let mut cursor = 0usize;
    assert!(read_u64_le(&bytes, &mut cursor).is_err());
}

#[test]
fn read_u16_le_reads_and_advances() {
    let mut cursor = 0usize;
    assert_eq!(read_u16_le(&[0x34, 0x12], &mut cursor).unwrap(), 0x1234);
    assert_eq!(cursor, 2);
}

#[test]
fn read_pubkey_reads_32_and_advances() {
    let mut raw = [0u8; 32];
    for (i, b) in raw.iter_mut().enumerate() {
        *b = i as u8;
    }
    let mut cursor = 0usize;
    assert_eq!(read_pubkey(&raw, &mut cursor).unwrap(), raw);
    assert_eq!(cursor, 32);
}

#[test]
fn read_pubkey_errors_when_short() {
    let mut cursor = 0usize;
    assert!(read_pubkey(&[0u8; 31], &mut cursor).is_err());
}

#[test]
fn readers_share_one_cursor() {
    let mut buf = Vec::new();
    buf.extend_from_slice(&7u64.to_le_bytes());
    buf.extend_from_slice(&[5u8; 32]);
    let mut cursor = 0usize;
    assert_eq!(read_u64_le(&buf, &mut cursor).unwrap(), 7);
    assert_eq!(read_pubkey(&buf, &mut cursor).unwrap(), [5u8; 32]);
    assert_eq!(cursor, buf.len());
}

#[test]
fn short_read_leaves_cursor_and_reports_insufficient_data() {
    let mut cursor = 2usize;
    let r = read_u16_le(&[1, 2, 3, 4], &mut cursor);
    assert!(matches!(r, Ok(0x0403)));
    assert_eq!(cursor, 4);
    let r = read_u16_le(&[1, 2, 3, 4, 5], &mut cursor);
    assert!(matches!(r, Err(SolverError::Custom(IntentSolverError::InsufficientData))));
    assert_eq!(cursor, 4);
}

#[test]
fn program_ids_match_the_runtime_crates() {
    assert_eq!(SYSTEM_PROGRAM_ID, solana_program::system_program::ID.to_bytes());
    assert_eq!(SPL_TOKEN_ID, spl_token::ID.to_bytes());
    assert_eq!(SPL_TOKEN_2022_ID, spl_token_2022::ID.to_bytes());
    assert_eq!(BPF_LOADER_ID, solana_program::bpf_loader::ID.to_bytes());
    assert_eq!(BPF_LOADER_UPGRADEABLE_ID, solana_program::bpf_loader_upgradeable::ID.to_bytes());
}

#[test]
fn denylist_blocks_both_loaders_only() {
    assert!(is_cpi_program_denied(&BPF_LOADER_ID));
    assert!(is_cpi_program_denied(&BPF_LOADER_UPGRADEABLE_ID));
    assert!(!is_cpi_program_denied(&SPL_TOKEN_ID));
    assert!(!is_cpi_program_denied(&SYSTEM_PROGRAM_ID));
}

#[test]
fn spl_balance_of_uncreated_account_is_zero() {
    let empty = account([1u8; 32], SPL_TOKEN_ID, 5, vec![]);
    assert_eq!(read_spl_balance(&empty).unwrap(), 0);
    let system_owned = account([1u8; 32], SYSTEM_PROGRAM_ID, 5, vec![1, 2, 3]);
    assert_eq!(read_spl_balance(&system_owned).unwrap(), 0);
    let ta = account([1u8; 32], SPL_TOKEN_ID, 5, token_account_data(&[2u8; 32], &[3u8; 32], 777));
    assert_eq!(read_spl_balance(&ta).unwrap(), 777);
    let garbage = account([1u8; 32], SPL_TOKEN_ID, 5, vec![9u8; 40]);
    assert!(matches!(read_spl_balance(&garbage), Err(SolverError::Account(_))));
}

#[test]
fn transfer_check_balance_by_owner() {
    let sol = account([1u8; 32], SYSTEM_PROGRAM_ID, 1234, vec![]);
    assert_eq!(read_transfer_check_balance(&sol).unwrap(), 1234);
    let tok = account([1u8; 32], SPL_TOKEN_2022_ID, 9, token_account_data(&[2u8; 32], &[3u8; 32], 55));
    assert_eq!(read_transfer_check_balance(&tok).unwrap(), 55);
    let other = account([1u8; 32], [7u8; 32], 9, vec![1]);
    assert_eq!(read_transfer_check_balance(&other).unwrap(), 0);
}

#[test]
fn spl_source_ata_must_be_canonical_and_pda_owned() {
    let pda = [11u8; 32];
    let mint = [12u8; 32];
    let ata = spl_associated_token_account::get_associated_token_address_with_program_id(
        &solana_program::pubkey::Pubkey::new_from_array(pda),
        &solana_program::pubkey::Pubkey::new_from_array(mint),
        &spl_token::ID,
    )
    .to_bytes();
    let pda_acc = account(pda, SYSTEM_PROGRAM_ID, 0, vec![]);
    let prog = account(SPL_TOKEN_ID, [0u8; 32], 0, vec![]);
    let good = account(ata, SPL_TOKEN_ID, 0, token_account_data(&mint, &pda, 10));
    assert_eq!(verify_spl_source_ata(&pda_acc, &prog, &good).unwrap(), mint);
    let wrong_key = account([13u8; 32], SPL_TOKEN_ID, 0, token_account_data(&mint, &pda, 10));
    assert!(matches!(
        verify_spl_source_ata(&pda_acc, &prog, &wrong_key),
        Err(SolverError::Custom(IntentSolverError::InvalidSourceAta))
    ));
    let wrong_owner = account(ata, SPL_TOKEN_ID, 0, token_account_data(&mint, &[14u8; 32], 10));
    assert!(matches!(
        verify_spl_source_ata(&pda_acc, &prog, &wrong_owner),
        Err(SolverError::Custom(IntentSolverError::InvalidSourceAta))
    ));
}

#[test]
fn intent_source_header_checks() {
    let mut exec = account([1u8; 32], SYSTEM_PROGRAM_ID, 0, vec![]);
    exec.is_signer = true;
    let pda = account([2u8; 32], SYSTEM_PROGRAM_ID, 0, vec![]);
    let funder = account([3u8; 32], SYSTEM_PROGRAM_ID, 0, vec![]);
    let sys = account(SYSTEM_PROGRAM_ID, [0u8; 32], 0, vec![]);
    let accounts = vec![exec.clone(), pda.clone(), funder.clone(), sys.clone()];
    let src = resolve_intent_source(&accounts).unwrap();
    assert!(!src.from_is_spl);
    assert_eq!(src.mint, SYSTEM_PROGRAM_ID);
    assert_eq!(src.next_index, 4);
    assert!(matches!(
        resolve_intent_source(&accounts[..3]),
        Err(SolverError::Custom(IntentSolverError::NotEnoughAccounts))
    ));
    let mut unsigned = accounts.clone();
    unsigned[0].is_signer = false;
    assert!(matches!(resolve_intent_source(&unsigned), Err(SolverError::MissingRequiredSignature)));
    let mut wrong_prog = accounts.clone();
    wrong_prog[3].key = [9u8; 32];
    assert!(matches!(
        resolve_intent_source(&wrong_prog),
        Err(SolverError::Custom(IntentSolverError::WrongTokenProgram))
    ));
}
