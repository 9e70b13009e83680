use lifi_solana_programs::intent_factory::errors::{FactoryError, IntentError};
use lifi_solana_programs::intent_factory::guards::common::{
    assert_src_mint_some, assert_tail_len, assert_deadline_not_passed, assert_deadline_passed,
    validate_executor,
};
use lifi_solana_programs::intent_factory::guards::route::{
    check_deny_list, check_signer_flag, check_writable_intent_pda,
};
use lifi_solana_programs::intent_factory::guards::token::{
    assert_source_amount, validate_source_ata, assert_source_drained, read_spl_amount,
};
use lifi_solana_programs::intent_factory::guards::refund::{
    validate_refund_user, validate_src_mint_account, validate_user_source_ata, MINT_LEN,
};
use lifi_solana_programs::intent_factory::guards::receiver::{
    validate_receiver, validate_receiver_token_spl, validate_receiver_token_native,
};
use lifi_solana_programs::intent_factory::guards::common::assert_executor_signer;
use lifi_solana_programs::intent_factory::wire::NAMED_PREFIX;
use lifi_solana_programs::keys::{AccountSnapshot, INTENT_FACTORY_PROGRAM_ID, SPL_TOKEN_ID, SYSTEM_PROGRAM_ID};
use solana_program::pubkey::Pubkey as SolKey;

fn unique() -> [u8; 32] {
    SolKey::new_unique().to_bytes()
}

fn ai(key: [u8; 32], is_signer: bool, lamports: u64, data: Vec<u8>, owner: [u8; 32]) -> AccountSnapshot {
    AccountSnapshot { key, is_signer, is_writable: false, owner, lamports, data }
}

fn ata(wallet: &[u8; 32], mint: &[u8; 32]) -> [u8; 32] {
    spl_associated_token_account::get_associated_token_address(
        &SolKey::new_from_array(*wallet),
        &SolKey::new_from_array(*mint),
    )
    .to_bytes()
}

fn make_mint_data(decimals: u8) -> Vec<u8> {
    let mut data = vec![0u8; MINT_LEN];
    data[44] = decimals;
    data
}

fn make_token_account_data(mint: &[u8; 32], owner: &[u8; 32], amount: u64) -> Vec<u8> {
    let mut data = vec![0u8; 165];
    data[0..32].copy_from_slice(mint);
    data[32..64].copy_from_slice(owner);
    data[64..72].copy_from_slice(&amount.to_le_bytes());
    data[108] = 1;
    data
}

fn is_intent_err<T>(r: &Result<T, FactoryError>, e: IntentError) -> bool {
    matches!(r, Err(FactoryError::Intent(x)) if *x == e)
}

#[test]
fn common_src_mint_some_returns_value() {
    let pk = unique();
    assert_eq!(assert_src_mint_some(&Some(pk)).unwrap(), pk);
}

#[test]
fn common_src_mint_none_rejects() {
    assert!(assert_src_mint_some(&None).is_err());
}

#[test]
fn common_deadline_not_passed_at_boundary() {
    assert!(assert_deadline_not_passed(100, 100).is_ok());
    assert!(assert_deadline_not_passed(99, 100).is_ok());
    assert!(assert_deadline_not_passed(101, 100).is_err());
}

#[test]
fn common_deadline_passed_at_boundary() {
    assert!(assert_deadline_passed(101, 100).is_ok());
    assert!(assert_deadline_passed(100, 100).is_err());
    assert!(assert_deadline_passed(99, 100).is_err());
}

#[test]
fn common_deadline_passed_strict_gt() {
    assert!(assert_deadline_passed(100, 100).is_err());
    assert!(assert_deadline_passed(101, 100).is_ok());
}

#[test]
fn common_tail_len_boundary() {
    let max_tail = u8::MAX as usize - NAMED_PREFIX;
    assert!(assert_tail_len(max_tail).is_ok());
    assert!(assert_tail_len(max_tail + 1).is_err());
    assert!(assert_tail_len(0).is_ok());
}

#[test]
fn validate_executor_matching_signer_passes() {
    let pk = unique();
    let a = ai(pk, true, 0, vec![], SYSTEM_PROGRAM_ID);
    assert!(validate_executor(&pk, &a).is_ok());
}

#[test]
fn validate_executor_matching_non_signer_rejects() {
    let pk = unique();
    let a = ai(pk, false, 0, vec![], SYSTEM_PROGRAM_ID);
    assert!(validate_executor(&pk, &a).is_err());
}

#[test]
fn validate_executor_wrong_pubkey_signer_rejects() {
    let pk = unique();
    let wrong = unique();
    let a = ai(wrong, true, 0, vec![], SYSTEM_PROGRAM_ID);
    assert!(validate_executor(&pk, &a).is_err());
}

#[test]
fn refund_refund_user_matches() {
    let pk = unique();
    let a = ai(pk, false, 0, vec![], SYSTEM_PROGRAM_ID);
    assert!(validate_refund_user(&a, &pk).is_ok());
}

#[test]
fn refund_refund_user_mismatch_rejects() {
    let pk = unique();
    let wrong = unique();
    let a = ai(pk, false, 0, vec![], SYSTEM_PROGRAM_ID);
    assert!(validate_refund_user(&a, &wrong).is_err());
}

#[test]
fn refund_src_mint_account_valid() {
    let pk = unique();
    let a = ai(pk, false, 1_000_000, make_mint_data(6), SPL_TOKEN_ID);
    let result = validate_src_mint_account(&a, &pk);
    assert!(result.is_ok());
    assert_eq!(result.unwrap(), 6);
}

#[test]
fn refund_src_mint_account_wrong_pubkey_rejects() {
    let pk = unique();
    let wrong = unique();
    let a = ai(pk, false, 1_000_000, make_mint_data(6), SPL_TOKEN_ID);
    assert!(validate_src_mint_account(&a, &wrong).is_err());
}

#[test]
fn refund_src_mint_account_wrong_owner_rejects() {
    let pk = unique();
    let a = ai(pk, false, 1_000_000, make_mint_data(6), SYSTEM_PROGRAM_ID);
    assert!(validate_src_mint_account(&a, &pk).is_err());
}

#[test]
fn refund_src_mint_account_wrong_len_rejects() {
    let pk = unique();
    let a = ai(pk, false, 1_000_000, vec![0u8; 50], SPL_TOKEN_ID);
    assert!(validate_src_mint_account(&a, &pk).is_err());
}

#[test]
fn refund_src_mint_account_extracts_decimals() {
    let pk = unique();
    let a = ai(pk, false, 1_000_000, make_mint_data(9), SPL_TOKEN_ID);
    assert_eq!(validate_src_mint_account(&a, &pk).unwrap(), 9);
}

#[test]
fn refund_user_source_ata_wrong_pubkey_rejects() {
    let user = unique();
    let mint = unique();
    let wrong_key = unique();
    let a = ai(wrong_key, false, 0, vec![], SYSTEM_PROGRAM_ID);
    assert!(validate_user_source_ata(&a, &user, &mint).is_err());
}

#[test]
fn refund_user_source_ata_uninitialized_accepts() {
    let user = unique();
    let mint = unique();
    let expected = ata(&user, &mint);
    let a = ai(expected, false, 0, vec![], SYSTEM_PROGRAM_ID);
    assert!(validate_user_source_ata(&a, &user, &mint).is_ok());
}

#[test]
fn refund_user_source_ata_initialized_valid() {
    let user = unique();
    let mint = unique();
    let expected = ata(&user, &mint);
    let a = ai(expected, false, 1_000_000, make_token_account_data(&mint, &user, 500), SPL_TOKEN_ID);
    assert!(validate_user_source_ata(&a, &user, &mint).is_ok());
}

#[test]
fn refund_user_source_ata_initialized_wrong_mint_rejects() {
    let user = unique();
    let mint = unique();
    let wrong_mint = unique();
    let expected = ata(&user, &mint);
    let a = ai(expected, false, 1_000_000, make_token_account_data(&wrong_mint, &user, 500), SPL_TOKEN_ID);
    assert!(validate_user_source_ata(&a, &user, &mint).is_err());
}

#[test]
fn refund_user_source_ata_initialized_wrong_owner_rejects() {
    let user = unique();
    let mint = unique();
    let wrong_user = unique();
    let expected = ata(&user, &mint);
    let a = ai(expected, false, 1_000_000, make_token_account_data(&mint, &wrong_user, 500), SPL_TOKEN_ID);
    assert!(validate_user_source_ata(&a, &user, &mint).is_err());
}

#[test]
fn refund_user_source_ata_initialized_wrong_program_owner_rejects() {
    let user = unique();
    let mint = unique();
    let expected = ata(&user, &mint);
    let a = ai(expected, false, 1_000_000, make_token_account_data(&mint, &user, 500), SYSTEM_PROGRAM_ID);
    assert!(validate_user_source_ata(&a, &user, &mint).is_err());
}

#[test]
fn refund_user_source_ata_initialized_wrong_data_len_rejects() {
    let user = unique();
    let mint = unique();
    let expected = ata(&user, &mint);
    let a = ai(expected, false, 1_000_000, vec![0u8; 100], SPL_TOKEN_ID);
    assert!(validate_user_source_ata(&a, &user, &mint).is_err());
}

#[test]
fn route_deny_list_rejects_self_program() {
    assert!(check_deny_list(&INTENT_FACTORY_PROGRAM_ID, &[]).is_err());
}

#[test]
fn route_deny_list_rejects_bpf_loader() {
    assert!(check_deny_list(&solana_program::bpf_loader_upgradeable::ID.to_bytes(), &[]).is_err());
}

#[test]
fn route_deny_list_rejects_system_assign() {
    let data = 1u32.to_le_bytes();
    assert!(check_deny_list(&SYSTEM_PROGRAM_ID, &data).is_err());
}

#[test]
fn route_deny_list_rejects_system_allocate() {
    let data = 8u32.to_le_bytes();
    assert!(check_deny_list(&SYSTEM_PROGRAM_ID, &data).is_err());
}

#[test]
fn route_deny_list_rejects_system_allocate_with_seed() {
    let data = 9u32.to_le_bytes();
    assert!(check_deny_list(&SYSTEM_PROGRAM_ID, &data).is_err());
}

#[test]
fn route_deny_list_rejects_system_assign_with_seed() {
    let data = 10u32.to_le_bytes();
    assert!(check_deny_list(&SYSTEM_PROGRAM_ID, &data).is_err());
}

#[test]
fn route_deny_list_allows_system_transfer() {
    let data = 2u32.to_le_bytes();
    assert!(check_deny_list(&SYSTEM_PROGRAM_ID, &data).is_ok());
}

#[test]
fn route_deny_list_allows_system_create_account() {
    let data = 0u32.to_le_bytes();
    assert!(check_deny_list(&SYSTEM_PROGRAM_ID, &data).is_ok());
}

#[test]
fn route_deny_list_allows_unrelated_program() {
    let pk = unique();
    assert!(check_deny_list(&pk, &[0xAA, 0xBB]).is_ok());
}

#[test]
fn route_deny_list_allows_system_short_data() {
    assert!(check_deny_list(&SYSTEM_PROGRAM_ID, &[1, 0, 0]).is_ok());
}

#[test]
fn route_signer_flag_allows_intent_pda() {
    assert!(check_signer_flag(0, true).is_ok());
}

#[test]
fn route_signer_flag_rejects_non_pda() {
    assert!(check_signer_flag(1, true).is_err());
    assert!(check_signer_flag(3, true).is_err());
    assert!(check_signer_flag(5, true).is_err());
}

#[test]
fn route_signer_flag_allows_non_signer() {
    assert!(check_signer_flag(1, false).is_ok());
    assert!(check_signer_flag(5, false).is_ok());
}

#[test]
fn token_source_amount_match() {
    assert!(assert_source_amount(1000, 1000).is_ok());
    assert!(assert_source_amount(999, 1000).is_err());
    assert!(assert_source_amount(1001, 1000).is_err());
}

#[test]
fn factory_program_id_matches_declared_id() {
    let declared: SolKey = "CNHojkSgGgdQvVGRXY667mpRP6Ne2dZzBUwE4sTWMRZU".parse().unwrap();
    assert_eq!(INTENT_FACTORY_PROGRAM_ID, declared.to_bytes());
}

#[test]
fn writable_intent_pda_rejected() {
    assert!(is_intent_err(&check_writable_intent_pda(0, true), IntentError::InvalidWritableIntentPda));
    assert!(check_writable_intent_pda(0, false).is_ok());
    assert!(check_writable_intent_pda(2, true).is_ok());
}

#[test]
fn source_ata_validation_errors() {
    let pda = unique();
    let mint = unique();
    let key = ata(&pda, &mint);
    let good = ai(key, false, 0, make_token_account_data(&mint, &pda, 77), SPL_TOKEN_ID);
    let ta = validate_source_ata(&good, &pda, &mint).unwrap();
    assert_eq!(ta.amount, 77);
    assert_eq!(ta.mint, mint);
    let wrong_key = ai(unique(), false, 0, make_token_account_data(&mint, &pda, 77), SPL_TOKEN_ID);
    assert!(is_intent_err(&validate_source_ata(&wrong_key, &pda, &mint), IntentError::BadSourceAta));
    let short = ai(key, false, 0, vec![0u8; 100], SPL_TOKEN_ID);
    assert!(is_intent_err(&validate_source_ata(&short, &pda, &mint), IntentError::SourceAccountMalformed));
    let mut bad_state = make_token_account_data(&mint, &pda, 77);
    bad_state[108] = 0;
    let uninit = ai(key, false, 0, bad_state, SPL_TOKEN_ID);
    assert!(matches!(validate_source_ata(&uninit, &pda, &mint), Err(FactoryError::Account(_))));
    let other_owner = ai(key, false, 0, make_token_account_data(&mint, &unique(), 77), SPL_TOKEN_ID);
    assert!(is_intent_err(&validate_source_ata(&other_owner, &pda, &mint), IntentError::BadSourceAta));
}

#[test]
fn source_drained_checks() {
    let mint = unique();
    let owner = unique();
    let empty = ai(unique(), false, 0, make_token_account_data(&mint, &owner, 0), SPL_TOKEN_ID);
    assert!(assert_source_drained(&empty, &mint).is_ok());
    let left = ai(unique(), false, 0, make_token_account_data(&mint, &owner, 1), SPL_TOKEN_ID);
    assert!(is_intent_err(&assert_source_drained(&left, &mint), IntentError::SourceNotDrained));
    assert!(is_intent_err(&assert_source_drained(&empty, &unique()), IntentError::BadSourceAta));
    assert_eq!(read_spl_amount(&left).unwrap(), 1);
}

#[test]
fn receiver_must_match() {
    let pk = unique();
    let a = ai(pk, false, 0, vec![], SYSTEM_PROGRAM_ID);
    assert!(validate_receiver(&a, &pk).is_ok());
    assert!(is_intent_err(&validate_receiver(&a, &unique()), IntentError::BadReceiver));
}

#[test]
fn receiver_token_native_is_system_program() {
    let sys = ai(SYSTEM_PROGRAM_ID, false, 1, vec![], [0u8; 32]);
    assert!(validate_receiver_token_native(&sys).is_ok());
    let other = ai(unique(), false, 1, vec![], [0u8; 32]);
    assert!(is_intent_err(&validate_receiver_token_native(&other), IntentError::BadReceiverTokenNativeOutput));
}

#[test]
fn receiver_token_spl_checks() {
    let receiver = unique();
    let mint = unique();
    let expected = ata(&receiver, &mint);
    let good = ai(expected, false, 1_000_000, make_token_account_data(&mint, &receiver, 0), SPL_TOKEN_ID);
    assert!(validate_receiver_token_spl(&good, &receiver, &mint).is_ok());
    let wrong_key = ai(unique(), false, 1_000_000, make_token_account_data(&mint, &receiver, 0), SPL_TOKEN_ID);
    assert!(is_intent_err(&validate_receiver_token_spl(&wrong_key, &receiver, &mint), IntentError::BadReceiverToken));
    let short = ai(expected, false, 1_000_000, vec![0u8; 100], SPL_TOKEN_ID);
    assert!(is_intent_err(&validate_receiver_token_spl(&short, &receiver, &mint), IntentError::BadReceiverToken));
    let wrong_mint = ai(expected, false, 1_000_000, make_token_account_data(&unique(), &receiver, 0), SPL_TOKEN_ID);
    assert!(is_intent_err(&validate_receiver_token_spl(&wrong_mint, &receiver, &mint), IntentError::BadReceiverToken));
    let wrong_owner = ai(expected, false, 1_000_000, make_token_account_data(&mint, &unique(), 0), SPL_TOKEN_ID);
    assert!(is_intent_err(&validate_receiver_token_spl(&wrong_owner, &receiver, &mint), IntentError::BadReceiverToken));
    let mut raw = make_token_account_data(&mint, &receiver, 0);
    raw[108] = 0;
    let uninit = ai(expected, false, 1_000_000, raw, SPL_TOKEN_ID);
    assert!(matches!(validate_receiver_token_spl(&uninit, &receiver, &mint), Err(FactoryError::Account(_))));
}

#[test]
fn executor_signer_among_accounts() {
    let exec = unique();
    let accounts = vec![ai(unique(), true, 0, vec![], SYSTEM_PROGRAM_ID), ai(exec, true, 0, vec![], SYSTEM_PROGRAM_ID)];
    assert!(assert_executor_signer(&None, &[]).is_ok());
    assert!(assert_executor_signer(&Some(exec), &accounts).is_ok());
    let unsigned = vec![ai(exec, false, 0, vec![], SYSTEM_PROGRAM_ID)];
    assert!(is_intent_err(&assert_executor_signer(&Some(exec), &unsigned), IntentError::ExecutorNotSigner));
    assert!(is_intent_err(&assert_executor_signer(&Some(exec), &[]), IntentError::ExecutorNotSigner));
}
