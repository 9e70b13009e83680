use lifi_solana_programs::intent_factory::errors::{FactoryError, IntentError, WireError};
use lifi_solana_programs::intent_factory::hash::compute_intent_hash;
use lifi_solana_programs::intent_factory::pda::verify_intent_pda;
use lifi_solana_programs::intent_factory::ix::init_intent::handle_init_intent;
use lifi_solana_programs::intent_factory::ix::execute_intent::{
    handle_execute_intent, route_call, finish_execute_intent,
};
use lifi_solana_programs::intent_factory::ix::refund_intent::{handle_refund_intent, close_intent_state};
use lifi_solana_programs::intent_factory::ix::balance_outcome::{BalanceKind, BalanceOutcome};
use lifi_solana_programs::intent_factory::ix::virtual_accounts::build_virtual_list;
use lifi_solana_programs::intent_factory::state::intent_header::{IntentHeader, IntentOutcome};
use lifi_solana_programs::intent_factory::state::intent_state::{IntentState, IntentStatus, INTENT_STATE_MAX_SIZE};
use lifi_solana_programs::intent_factory::wire::{encode_calls, CallSpecOwned, CallsIter};
use lifi_solana_programs::keys::{AccountSnapshot, INTENT_FACTORY_PROGRAM_ID, SPL_TOKEN_ID, SYSTEM_PROGRAM_ID};
use solana_program::pubkey::Pubkey as SolKey;

fn snap(key: [u8; 32], is_signer: bool, owner: [u8; 32], lamports: u64, data: Vec<u8>) -> AccountSnapshot {
    AccountSnapshot { key, is_signer, is_writable: true, owner, lamports, data }
}

fn token_data(mint: &[u8; 32], owner: &[u8; 32], amount: u64) -> Vec<u8> {
    let mut data = vec![0u8; 165];
    data[0..32].copy_from_slice(mint);
    data[32..64].copy_from_slice(owner);
    data[64..72].copy_from_slice(&amount.to_le_bytes());
    data[108] = 1;
    data
}

fn ata(wallet: &[u8; 32], mint: &[u8; 32]) -> [u8; 32] {
    spl_associated_token_account::get_associated_token_address(&SolKey::new_from_array(*wallet), &SolKey::new_from_array(*mint))
        .to_bytes()
}

struct Setup {
    header: IntentHeader,
    bytes: Vec<u8>,
    pda: [u8; 32],
    bump: u8,
}

fn setup() -> Setup {
    let header = IntentHeader {
        user: [1u8; 32],
        src_mint: Some([2u8; 32]),
        amount_in: 1_000,
        outcomes: vec![
            IntentOutcome { mint: Some([3u8; 32]), account: [4u8; 32], amount: 900 },
            IntentOutcome { mint: None, account: [5u8; 32], amount: 10 },
        ],
        deadline: 1_000,
        salt: [6u8; 32],
        executor: [7u8; 32],
    };
    let bytes = header.canonical_encode();
    let hash = compute_intent_hash(&bytes);
    let (pda, bump) = SolKey::find_program_address(&[b"intent", &hash], &SolKey::new_from_array(INTENT_FACTORY_PROGRAM_ID));
    Setup { header, bytes, pda: pda.to_bytes(), bump }
}

fn initialized_state(s: &Setup) -> IntentState {
    let exec = snap([7u8; 32], true, SYSTEM_PROGRAM_ID, 0, vec![]);
    let pda = snap(s.pda, false, SYSTEM_PROGRAM_ID, 100, vec![]);
    handle_init_intent(&s.bytes, s.bump, &pda, &exec, 5_000).unwrap().state
}

#[test]
fn init_stores_the_header() {
    let s = setup();
    let exec = snap([7u8; 32], true, SYSTEM_PROGRAM_ID, 0, vec![]);
    let pda = snap(s.pda, false, SYSTEM_PROGRAM_ID, 100, vec![]);
    let plan = handle_init_intent(&s.bytes, s.bump, &pda, &exec, 5_000).unwrap();
    assert_eq!(plan.lamports_needed, 4_900);
    assert_eq!(plan.space, INTENT_STATE_MAX_SIZE);
    assert_eq!(INTENT_STATE_MAX_SIZE, 480);
    let st = plan.state;
    assert_eq!(st.status, IntentStatus::Initialized);
    assert_eq!(st.intent_hash, compute_intent_hash(&s.bytes));
    assert_eq!(st.outcomes(), s.header.outcomes);
    assert_eq!(st.outcome_mint_tags, [1, 0, 0, 0]);
    // The mintless outcome and the unused slots hold zeros.
    assert_eq!(st.outcome_mints, [[3u8; 32], [0u8; 32], [0u8; 32], [0u8; 32]]);
    assert_eq!(st.outcome_accounts, [[4u8; 32], [5u8; 32], [0u8; 32], [0u8; 32]]);
    assert_eq!(st.outcome_amounts, [900, 10, 0, 0]);
    assert!(verify_intent_pda(&st.intent_hash, st.bump, &s.pda).is_ok());
    let rich = snap(s.pda, false, SYSTEM_PROGRAM_ID, 9_000, vec![]);
    assert_eq!(handle_init_intent(&s.bytes, s.bump, &rich, &exec, 5_000).unwrap().lamports_needed, 0);
}

#[test]
fn init_rejections() {
    let s = setup();
    let exec = snap([7u8; 32], true, SYSTEM_PROGRAM_ID, 0, vec![]);
    let pda = snap(s.pda, false, SYSTEM_PROGRAM_ID, 100, vec![]);
    let mut trailing = s.bytes.clone();
    trailing.push(0);
    assert!(matches!(handle_init_intent(&trailing, s.bump, &pda, &exec, 0), Err(FactoryError::Intent(IntentError::MalformedHeader))));
    let unsigned = snap([7u8; 32], false, SYSTEM_PROGRAM_ID, 0, vec![]);
    assert!(matches!(handle_init_intent(&s.bytes, s.bump, &pda, &unsigned, 0), Err(FactoryError::Intent(IntentError::ExecutorNotSigner))));
    let wrong = snap([8u8; 32], true, SYSTEM_PROGRAM_ID, 0, vec![]);
    assert!(matches!(handle_init_intent(&s.bytes, s.bump, &pda, &wrong, 0), Err(FactoryError::Intent(IntentError::BadExecutor))));
    let other_pda = snap([9u8; 32], false, SYSTEM_PROGRAM_ID, 100, vec![]);
    assert!(matches!(handle_init_intent(&s.bytes, s.bump, &other_pda, &exec, 0), Err(FactoryError::Intent(IntentError::BadIntentPda))));
    let used = snap(s.pda, false, SYSTEM_PROGRAM_ID, 100, vec![1]);
    assert!(matches!(handle_init_intent(&s.bytes, s.bump, &used, &exec, 0), Err(FactoryError::Intent(IntentError::IntentAlreadyInitialized))));
    let mut no_mint = s.header.clone();
    no_mint.src_mint = None;
    assert!(matches!(handle_init_intent(&no_mint.canonical_encode(), s.bump, &pda, &exec, 0), Err(FactoryError::Intent(IntentError::InvalidSrcMint))));
}

#[test]
fn execute_intent_flow() {
    let s = setup();
    let mut state = initialized_state(&s);
    let mint = [2u8; 32];
    let source = snap(ata(&s.pda, &mint), false, SPL_TOKEN_ID, 0, token_data(&mint, &s.pda, 1_000));
    let exec = snap([7u8; 32], true, SYSTEM_PROGRAM_ID, 0, vec![]);
    let remaining = vec![
        snap([40u8; 32], false, [0u8; 32], 1, vec![]),
        snap([4u8; 32], false, SPL_TOKEN_ID, 0, token_data(&[3u8; 32], &[1u8; 32], 50)),
        snap([5u8; 32], false, SYSTEM_PROGRAM_ID, 500, vec![]),
    ];
    let plan = handle_execute_intent(&state, &s.pda, &source, 999, &exec, &remaining).unwrap();
    assert_eq!(plan.outcomes.len(), 2);
    assert_eq!((plan.outcomes[0].account_index, plan.outcomes[0].kind, plan.outcomes[0].pre), (1, BalanceKind::SplToken, 50));
    assert_eq!((plan.outcomes[1].account_index, plan.outcomes[1].kind, plan.outcomes[1].pre), (2, BalanceKind::NativeLamports, 500));
    assert_eq!(plan.virtual_keys, build_virtual_list(&s.pda, &source.key, &remaining));
    assert_eq!(plan.virtual_keys[2], [40u8; 32]);

    let calls = encode_calls(&[CallSpecOwned::new(4, vec![0, 3], vec![false, true], vec![true, false], vec![2, 0, 0, 0])]);
    let mut iter = CallsIter::new(&calls, remaining.len()).unwrap();
    let call = iter.next_call().unwrap().unwrap();
    let cpi = route_call(&plan.virtual_keys, &call).unwrap();
    assert_eq!(cpi.program_id, [5u8; 32]);
    assert_eq!(cpi.metas.len(), 2);
    assert!(cpi.metas[0].is_signer && !cpi.metas[0].is_writable);
    assert_eq!(cpi.metas[1].key, [4u8; 32]);
    assert!(iter.next_call().is_none());
    iter.assert_exhausted().unwrap();

    let drained = snap(source.key, false, SPL_TOKEN_ID, 0, token_data(&mint, &s.pda, 0));
    let mut after = remaining.clone();
    after[1].data = token_data(&[3u8; 32], &[1u8; 32], 950);
    after[2].lamports = 510;
    let saved = state;
    assert!(finish_execute_intent(&mut state, &plan, &iter, &drained, &after).is_ok());
    assert_eq!(state.status, IntentStatus::Executed);
    assert_eq!(state.intent_hash, saved.intent_hash);

    // Replay is refused.
    assert!(matches!(
        handle_execute_intent(&state, &s.pda, &source, 999, &exec, &remaining),
        Err(FactoryError::Intent(IntentError::IntentAlreadyExecuted))
    ));
}

#[test]
fn execute_intent_rejections() {
    let s = setup();
    let mut state = initialized_state(&s);
    let mint = [2u8; 32];
    let source = snap(ata(&s.pda, &mint), false, SPL_TOKEN_ID, 0, token_data(&mint, &s.pda, 1_000));
    let exec = snap([7u8; 32], true, SYSTEM_PROGRAM_ID, 0, vec![]);
    let remaining = vec![
        snap([4u8; 32], false, SPL_TOKEN_ID, 0, token_data(&[3u8; 32], &[1u8; 32], 50)),
        snap([5u8; 32], false, SYSTEM_PROGRAM_ID, 500, vec![]),
    ];
    assert!(matches!(handle_execute_intent(&state, &s.pda, &source, 1_001, &exec, &remaining), Err(FactoryError::Intent(IntentError::IntentExpired))));
    let short = snap(source.key, false, SPL_TOKEN_ID, 0, token_data(&mint, &s.pda, 999));
    assert!(matches!(handle_execute_intent(&state, &s.pda, &short, 1_000, &exec, &remaining), Err(FactoryError::Intent(IntentError::SourceAmountMismatch))));
    assert!(matches!(handle_execute_intent(&state, &s.pda, &source, 1_000, &exec, &remaining[..1]), Err(FactoryError::Intent(IntentError::BadOutcomeAccount))));
    let plan = handle_execute_intent(&state, &s.pda, &source, 1_000, &exec, &remaining).unwrap();
    // Deny-listed and flag-violating calls.
    let call_bytes = encode_calls(&[CallSpecOwned::new(4, vec![2], vec![false], vec![true], vec![])]);
    let mut it = CallsIter::new(&call_bytes, remaining.len()).unwrap();
    let call = it.next_call().unwrap().unwrap();
    let mut vkeys = plan.virtual_keys.clone();
    vkeys.push([0u8; 32]);
    vkeys.push([0u8; 32]);
    assert!(matches!(route_call(&vkeys, &call), Err(FactoryError::Intent(IntentError::InvalidSignerFlag))));
    // The reader admits virtual index 4 with two remaining accounts; the list has four keys.
    assert_eq!(plan.virtual_keys.len(), 4);
    assert!(matches!(route_call(&plan.virtual_keys, &call), Err(FactoryError::Wire(WireError::AccountIndexOutOfBounds))));
    // An account index past the list, with the callee inside it.
    let past_end = encode_calls(&[CallSpecOwned::new(4, vec![0, 5], vec![false, false], vec![false, false], vec![])]);
    let mut it2 = CallsIter::new(&past_end, remaining.len()).unwrap();
    let call2 = it2.next_call().unwrap().unwrap();
    let mut five = plan.virtual_keys.clone();
    five.push([9u8; 32]);
    assert!(matches!(route_call(&five, &call2), Err(FactoryError::Wire(WireError::AccountIndexOutOfBounds))));
    // Outcome not met: lamports grew by 9 < 10; the state stays Initialized.
    let drained = snap(source.key, false, SPL_TOKEN_ID, 0, token_data(&mint, &s.pda, 0));
    let mut after = remaining.clone();
    after[0].data = token_data(&[3u8; 32], &[1u8; 32], 950);
    after[1].lamports = 509;
    assert!(matches!(finish_execute_intent(&mut state, &plan, &it, &drained, &after), Err(FactoryError::Intent(IntentError::InsufficientOutcome))));
    assert_eq!(state.status, IntentStatus::Initialized);
    assert!(matches!(finish_execute_intent(&mut state, &plan, &it, &source, &after), Err(FactoryError::Intent(IntentError::SourceNotDrained))));
    // Calls bytes not consumed to the end: the outcome checks are not reached.
    let mut trailing = encode_calls(&[]);
    trailing.push(0);
    let unread = CallsIter::new(&trailing, remaining.len()).unwrap();
    assert!(matches!(finish_execute_intent(&mut state, &plan, &unread, &drained, &after), Err(FactoryError::Wire(WireError::MalformedWireBytes))));
    assert_eq!(state.status, IntentStatus::Initialized);
}

#[test]
fn balance_outcome_delta() {
    let a = snap([1u8; 32], false, SYSTEM_PROGRAM_ID, 100, vec![]);
    let b = BalanceOutcome::snapshot(&a, 0, BalanceKind::NativeLamports, 10).unwrap();
    assert_eq!(b.pre, 100);
    let mut after = a.clone();
    after.lamports = 110;
    assert!(b.assert_delta(&after).is_ok());
    after.lamports = 109;
    assert!(b.assert_delta(&after).is_err());
    after.lamports = 50;
    assert!(matches!(b.assert_delta(&after), Err(FactoryError::Intent(IntentError::InsufficientOutcome))));
    let bad = snap([1u8; 32], false, SPL_TOKEN_ID, 0, vec![0u8; 10]);
    assert!(matches!(BalanceOutcome::snapshot(&bad, 0, BalanceKind::SplToken, 1), Err(FactoryError::Account(_))));
}

#[test]
fn refund_intent_flow() {
    let s = setup();
    let mut state = initialized_state(&s);
    let mint = [2u8; 32];
    let user = snap([1u8; 32], false, SYSTEM_PROGRAM_ID, 10, vec![]);
    let source = snap(ata(&s.pda, &mint), false, SPL_TOKEN_ID, 0, token_data(&mint, &s.pda, 1_000));
    let user_ata = snap(ata(&[1u8; 32], &mint), false, SYSTEM_PROGRAM_ID, 0, vec![]);
    let mut mint_data = vec![0u8; 82];
    mint_data[44] = 6;
    let mint_acc = snap(mint, false, SPL_TOKEN_ID, 0, mint_data);
    assert!(matches!(
        handle_refund_intent(&state, &s.pda, &source, &user, &user_ata, &mint_acc, 1_000),
        Err(FactoryError::Intent(IntentError::IntentNotExpired))
    ));
    let plan = handle_refund_intent(&state, &s.pda, &source, &user, &user_ata, &mint_acc, 1_001).unwrap();
    let tokens = plan.tokens.unwrap();
    assert!(tokens.create_user_ata);
    assert_eq!(tokens.amount, 1_000);
    assert_eq!(tokens.decimals, 6);
    let empty_source = snap(source.key, false, SYSTEM_PROGRAM_ID, 0, vec![]);
    assert!(handle_refund_intent(&state, &s.pda, &empty_source, &user, &user_ata, &mint_acc, 1_001).unwrap().tokens.is_none());
    assert_eq!(close_intent_state(&mut state, 10, 5).unwrap(), 15);
    assert_eq!(state.status, IntentStatus::Refunded);
    assert!(matches!(close_intent_state(&mut state, u64::MAX, 1), Err(FactoryError::Intent(IntentError::LamportOverflow))));
    assert!(matches!(
        handle_refund_intent(&state, &s.pda, &source, &user, &user_ata, &mint_acc, 1_001),
        Err(FactoryError::Intent(IntentError::IntentAlreadyRefunded))
    ));
    let wrong_user = snap([9u8; 32], false, SYSTEM_PROGRAM_ID, 10, vec![]);
    let fresh = initialized_state(&s);
    assert!(matches!(
        handle_refund_intent(&fresh, &s.pda, &source, &wrong_user, &user_ata, &mint_acc, 1_001),
        Err(FactoryError::Intent(IntentError::BadUser))
    ));
}
