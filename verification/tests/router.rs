use lifi_solana_programs::router::errors::{ErrorCode, RouterError};
use lifi_solana_programs::router::swap_and_bridge::{swap_and_bridge, SwapAndBridgeParams, Adapter};
use lifi_solana_programs::router::adapters::unit::{
    bridge_via_unit, encode_unit_payload, decode_unit_payload, UnitAdapterPayload,
};
use lifi_solana_programs::router::adapters::across::{
    bridge_via_across, encode_across_payload, decode_across_payload, u128_to_bytes32_be,
    AcrossAdapterPayload, DEPOSIT_DISCRIMINATOR,
};
use lifi_solana_programs::keys::{AccountSnapshot, ROUTER_PROGRAM_ID, ACROSS_PROGRAM_ID, SPL_TOKEN_ID, SPL_TOKEN_2022_ID};
use solana_program::pubkey::Pubkey as SolKey;

fn k(b: [u8; 32]) -> SolKey {
    SolKey::new_from_array(b)
}

fn vault_setup(seed: [u8; 8], mint: [u8; 32], amount: u64) -> ([u8; 32], AccountSnapshot) {
    let (auth, _) = SolKey::find_program_address(&[b"vault", &seed, &mint], &k(ROUTER_PROGRAM_ID));
    let vault = spl_associated_token_account::get_associated_token_address_with_program_id(&auth, &k(mint), &spl_token::ID);
    let mut data = vec![0u8; 165];
    data[64..72].copy_from_slice(&amount.to_le_bytes());
    (auth.to_bytes(), AccountSnapshot { key: vault.to_bytes(), is_signer: false, is_writable: true, owner: SPL_TOKEN_ID, lamports: 0, data })
}

fn params(adapter_id: u8, min_amount: u64) -> SwapAndBridgeParams {
    SwapAndBridgeParams { route_seed: [7u8; 8], min_amount, adapter_id, adapter_payload: vec![] }
}

fn across_payload(multiplier: u128) -> AcrossAdapterPayload {
    AcrossAdapterPayload {
        recipient: [1u8; 32],
        output_token: [2u8; 32],
        output_amount_multiplier: multiplier,
        destination_chain_id: 10,
        exclusive_relayer: [0u8; 32],
        quote_timestamp: 100,
        fill_deadline: 200,
        exclusivity_parameter: 0,
        message: vec![0xde, 0xad],
    }
}

#[test]
fn program_ids_match_declared_ids() {
    assert_eq!(ROUTER_PROGRAM_ID, "75uzRTFJRYCtNHGHYiLmcL57no3DDZtvnGbqhztLJnKf".parse::<SolKey>().unwrap().to_bytes());
    assert_eq!(ACROSS_PROGRAM_ID, "DLv3NggMiSaef97YCkew5xKUHDh13tVGZ7tydt3ZeAru".parse::<SolKey>().unwrap().to_bytes());
}

#[test]
fn swap_guards() {
    let mint = [9u8; 32];
    let (auth, vault) = vault_setup([7u8; 8], mint, 500);
    let plan = swap_and_bridge(&ROUTER_PROGRAM_ID, &params(1, 500), &auth, &mint, &SPL_TOKEN_ID, &vault).unwrap();
    assert_eq!(plan.amount, 500);
    assert_eq!(plan.adapter, Adapter::Across);
    assert_eq!(
        swap_and_bridge(&ROUTER_PROGRAM_ID, &params(0, 501), &auth, &mint, &SPL_TOKEN_ID, &vault).err(),
        Some(RouterError::Code(ErrorCode::SlippageExceeded))
    );
    assert_eq!(
        swap_and_bridge(&ROUTER_PROGRAM_ID, &params(2, 1), &auth, &mint, &SPL_TOKEN_ID, &vault).err(),
        Some(RouterError::Code(ErrorCode::UnknownAdapter))
    );
    assert_eq!(
        swap_and_bridge(&ROUTER_PROGRAM_ID, &params(0, 1), &[1u8; 32], &mint, &SPL_TOKEN_ID, &vault).err(),
        Some(RouterError::Code(ErrorCode::InvalidVaultAuthority))
    );
    assert_eq!(
        swap_and_bridge(&ROUTER_PROGRAM_ID, &params(0, 1), &auth, &mint, &SPL_TOKEN_2022_ID, &vault).err(),
        Some(RouterError::Code(ErrorCode::InvalidVaultAta))
    );
    let (_, empty) = vault_setup([7u8; 8], mint, 0);
    assert_eq!(
        swap_and_bridge(&ROUTER_PROGRAM_ID, &params(0, 0), &auth, &mint, &SPL_TOKEN_ID, &empty).err(),
        Some(RouterError::Code(ErrorCode::EmptyVault))
    );
    let mut short = vault.clone();
    short.data.truncate(71);
    assert_eq!(
        swap_and_bridge(&ROUTER_PROGRAM_ID, &params(0, 0), &auth, &mint, &SPL_TOKEN_ID, &short).err(),
        Some(RouterError::Code(ErrorCode::InvalidVaultAccount))
    );
}

#[test]
fn unit_adapter_checks() {
    let mint = [9u8; 32];
    let wallet = [4u8; 32];
    let payload = encode_unit_payload(&UnitAdapterPayload { unit_deposit_wallet: wallet, is_native: 0 });
    assert_eq!(payload.len(), 33);
    assert_eq!(decode_unit_payload(&payload).unwrap().unit_deposit_wallet, wallet);
    let deposit_ata = spl_associated_token_account::get_associated_token_address_with_program_id(&k(wallet), &k(mint), &spl_token::ID).to_bytes();
    let plan = bridge_via_unit(&payload, 500, &mint, &SPL_TOKEN_ID, &[wallet, deposit_ata]).unwrap();
    assert_eq!(plan.deposit_ata, deposit_ata);
    assert_eq!(plan.amount, 500);
    assert_eq!(bridge_via_unit(&payload[..32], 500, &mint, &SPL_TOKEN_ID, &[wallet, deposit_ata]).err(), Some(RouterError::Code(ErrorCode::InvalidAdapterPayload)));
    assert_eq!(bridge_via_unit(&payload, 500, &mint, &SPL_TOKEN_ID, &[wallet]).err(), Some(RouterError::Code(ErrorCode::InsufficientAccounts)));
    assert_eq!(bridge_via_unit(&payload, 500, &mint, &SPL_TOKEN_ID, &[[5u8; 32], deposit_ata]).err(), Some(RouterError::Code(ErrorCode::DepositWalletMismatch)));
    assert_eq!(bridge_via_unit(&payload, 500, &mint, &SPL_TOKEN_ID, &[wallet, [6u8; 32]]).err(), Some(RouterError::Code(ErrorCode::InvalidUnitDepositAta)));
}

#[test]
fn u128_to_bytes32_is_big_endian_low_half() {
    let b = u128_to_bytes32_be(0x0102);
    assert_eq!(&b[..30], &[0u8; 30]);
    assert_eq!(&b[30..], &[1, 2]);
    let m = u128_to_bytes32_be(u128::MAX);
    assert_eq!(&m[..16], &[0u8; 16]);
    assert_eq!(&m[16..], &[0xffu8; 16]);
}

#[test]
fn across_payload_roundtrip_and_exactness() {
    let p = across_payload(5);
    let bytes = encode_across_payload(&p);
    assert_eq!(bytes.len(), 138);
    let d = decode_across_payload(&bytes).unwrap();
    assert_eq!(d.message, vec![0xde, 0xad]);
    assert_eq!(d.fill_deadline, 200);
    let mut trailing = bytes.clone();
    trailing.push(0);
    assert!(decode_across_payload(&trailing).is_none());
    assert!(decode_across_payload(&bytes[..137]).is_none());
}

#[test]
fn across_adapter_builds_deposit() {
    let mint = [9u8; 32];
    let auth = [8u8; 32];
    let vault = [3u8; 32];
    // 1.5 output per input, scaled by 1e18.
    let payload = encode_across_payload(&across_payload(1_500_000_000_000_000_000));
    let remaining = [[10u8; 32], [11u8; 32], ACROSS_PROGRAM_ID];
    let plan = bridge_via_across(&payload, 1_000, &auth, &mint, &SPL_TOKEN_ID, &vault, &remaining).unwrap();
    assert_eq!(plan.output_amount, u128_to_bytes32_be(1_500));
    let mut seed = Vec::new();
    seed.extend_from_slice(&auth);
    seed.extend_from_slice(&[1u8; 32]);
    seed.extend_from_slice(&mint);
    seed.extend_from_slice(&[2u8; 32]);
    seed.extend_from_slice(&1_000u64.to_le_bytes());
    seed.extend_from_slice(&u128_to_bytes32_be(1_500));
    seed.extend_from_slice(&10u64.to_le_bytes());
    seed.extend_from_slice(&[0u8; 32]);
    seed.extend_from_slice(&100u32.to_le_bytes());
    seed.extend_from_slice(&200u32.to_le_bytes());
    seed.extend_from_slice(&0u32.to_le_bytes());
    seed.extend_from_slice(&2u32.to_le_bytes());
    seed.extend_from_slice(&[0xde, 0xad]);
    let mut expected = DEPOSIT_DISCRIMINATOR.to_vec();
    expected.extend_from_slice(&seed);
    assert_eq!(plan.deposit_data, expected);
    let hash = solana_program::keccak::hash(&seed).to_bytes();
    let (delegate, _) = SolKey::find_program_address(&[b"delegate", &hash], &k(ACROSS_PROGRAM_ID));
    assert_eq!(plan.delegate, delegate.to_bytes());
    let mut approve = vec![4u8];
    approve.extend_from_slice(&1_000u64.to_le_bytes());
    assert_eq!(plan.approve_data, approve);
    assert_eq!(
        bridge_via_across(&payload, 1_000, &auth, &mint, &SPL_TOKEN_2022_ID, &vault, &remaining).err(),
        Some(RouterError::Code(ErrorCode::ApproveError))
    );
    assert_eq!(
        bridge_via_across(&payload, 1_000, &auth, &mint, &SPL_TOKEN_ID, &vault, &remaining[..2]).err(),
        Some(RouterError::Code(ErrorCode::InsufficientAccounts))
    );
    let wrong = [[10u8; 32], [11u8; 32], [12u8; 32]];
    assert_eq!(
        bridge_via_across(&payload, 1_000, &auth, &mint, &SPL_TOKEN_ID, &vault, &wrong).err(),
        Some(RouterError::Code(ErrorCode::InvalidAcrossProgram))
    );
    let huge = encode_across_payload(&across_payload(u128::MAX));
    assert_eq!(
        bridge_via_across(&huge, 2, &auth, &mint, &SPL_TOKEN_ID, &vault, &remaining).err(),
        Some(RouterError::Code(ErrorCode::MathOverflow))
    );
    assert_eq!(
        bridge_via_across(&[1, 2, 3], 2, &auth, &mint, &SPL_TOKEN_ID, &vault, &remaining).err(),
        Some(RouterError::Code(ErrorCode::InvalidAdapterPayload))
    );
}
