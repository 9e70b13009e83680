use lifi_solana_programs::intent_factory_program::entry::{decode_solver_instruction, SolverInstruction};
use lifi_solana_programs::intent_factory_program::errors::{IntentSolverError, SolverError};
use lifi_solana_programs::intent_factory_program::intent_hash::hash_intent;
use lifi_solana_programs::intent_factory_program::instructions::execute::{
    parse_execute_prefix, execute_setup, execute_next_cpi, execute_finish, inner_account_meta,
    decode_cpi_block, first_cpi_step, ExecuteCleanup, ExecuteStep,
};
use lifi_solana_programs::intent_factory_program::instructions::refund::{
    parse_refund_data, refund_setup, RefundAction,
};
use lifi_solana_programs::keys::{AccountSnapshot, SYSTEM_PROGRAM_ID, BPF_LOADER_ID};
use solana_program::pubkey::Pubkey as SolKey;

const PROGRAM: [u8; 32] = [77u8; 32];

fn acc(key: [u8; 32], signer: bool, writable: bool, owner: [u8; 32], lamports: u64) -> AccountSnapshot {
    AccountSnapshot { key, is_signer: signer, is_writable: writable, owner, lamports, data: vec![] }
}

fn pda_for(hash: &[u8; 32]) -> [u8; 32] {
    let (k, _) = SolKey::find_program_address(&[b"intent", hash], &SolKey::new_from_array(PROGRAM));
    k.to_bytes()
}

struct Sol {
    executor: [u8; 32],
    funder: [u8; 32],
    dest: [u8; 32],
    salt: [u8; 32],
    amount_in: u64,
    min: u64,
}

fn sol_intent() -> Sol {
    Sol { executor: [1u8; 32], funder: [3u8; 32], dest: [4u8; 32], salt: [9u8; 32], amount_in: 100, min: 50 }
}

fn execute_prefix(s: &Sol, cpi_count: u8) -> Vec<u8> {
    let mut d = Vec::new();
    d.extend_from_slice(&s.amount_in.to_le_bytes());
    d.extend_from_slice(&s.salt);
    d.push(1);
    d.extend_from_slice(&s.min.to_le_bytes());
    d.push(cpi_count);
    d
}

fn sol_accounts(s: &Sol, pda: [u8; 32], dest_lamports: u64) -> Vec<AccountSnapshot> {
    vec![
        acc(s.executor, true, true, SYSTEM_PROGRAM_ID, 0),
        acc(pda, false, true, SYSTEM_PROGRAM_ID, 1_000_000),
        acc(s.funder, false, true, SYSTEM_PROGRAM_ID, 0),
        acc(SYSTEM_PROGRAM_ID, false, false, [0u8; 32], 1),
        acc(s.dest, false, true, SYSTEM_PROGRAM_ID, dest_lamports),
        acc([20u8; 32], false, false, [0u8; 32], 1),
        acc([21u8; 32], false, true, SYSTEM_PROGRAM_ID, 0),
    ]
}

fn sol_hash(s: &Sol) -> [u8; 32] {
    hash_intent(&s.funder, &SYSTEM_PROGRAM_ID, s.amount_in, &s.salt, &s.executor, 1, &[s.dest], &[s.min])
}

#[test]
fn dispatch_reads_variant_byte() {
    assert_eq!(decode_solver_instruction(&[0, 1, 2]).unwrap(), SolverInstruction::Execute);
    assert_eq!(decode_solver_instruction(&[1]).unwrap(), SolverInstruction::Refund);
    assert!(matches!(decode_solver_instruction(&[]), Err(SolverError::InvalidInstructionData)));
    assert!(matches!(decode_solver_instruction(&[2]), Err(SolverError::InvalidInstructionData)));
}

#[test]
fn error_codes_follow_the_readme() {
    assert_eq!(IntentSolverError::InvalidPda.code(), 0);
    assert_eq!(IntentSolverError::FromAtaNotEmpty.code(), 6);
    assert_eq!(IntentSolverError::InvalidCpiCount.code(), 8);
    assert_eq!(IntentSolverError::InvalidDestinationAta.code(), 16);
}

#[test]
fn execute_prefix_bounds() {
    let s = sol_intent();
    let p = parse_execute_prefix(&execute_prefix(&s, 1)).unwrap();
    assert_eq!(p.amount_in, 100);
    assert_eq!(p.transfer_min_amounts, vec![50]);
    assert_eq!(p.cpi_cursor, 50);
    let mut bad_nb = execute_prefix(&s, 1);
    bad_nb[40] = 9;
    assert!(matches!(
        parse_execute_prefix(&bad_nb),
        Err(SolverError::Custom(IntentSolverError::InvalidTransferNb))
    ));
    assert!(matches!(
        parse_execute_prefix(&execute_prefix(&s, 17)),
        Err(SolverError::Custom(IntentSolverError::InvalidCpiCount))
    ));
    assert!(matches!(
        parse_execute_prefix(&execute_prefix(&s, 1)[..45]),
        Err(SolverError::Custom(IntentSolverError::InsufficientData))
    ));
}

#[test]
fn execute_sol_flow() {
    let s = sol_intent();
    let hash = sol_hash(&s);
    let pda = pda_for(&hash);
    let accounts = sol_accounts(&s, pda, 10);
    let mut rest = execute_prefix(&s, 1);
    // One CPI: program [20;32], one inner account [21;32], override making it writable.
    rest.extend_from_slice(&[2, 1, 1, 1]);
    rest.extend_from_slice(&3u16.to_le_bytes());
    rest.extend_from_slice(&[7, 8, 9]);
    let plan = execute_setup(&PROGRAM, &accounts, &rest).unwrap();
    assert_eq!(plan.intent_hash, hash);
    assert_eq!(plan.pre_balances, vec![10]);
    assert_eq!(plan.next_index, 5);
    let mut step = first_cpi_step(&plan);
    assert_eq!(step, ExecuteStep { cursor: plan.prefix.cpi_cursor, next_index: 5, cpis_left: 1 });
    let call = execute_next_cpi(&PROGRAM, &plan, &accounts, &rest, &mut step).unwrap().unwrap();
    assert_eq!(call.program_id, [20u8; 32]);
    assert_eq!(call.data, vec![7, 8, 9]);
    assert_eq!(call.metas.len(), 1);
    assert_eq!(call.first_account, 5);
    assert!(call.metas[0].is_writable && !call.metas[0].is_signer);
    assert_eq!(step, ExecuteStep { cursor: rest.len(), next_index: 7, cpis_left: 0 });
    // All declared CPIs have run: the next step hands back nothing and stays put.
    assert!(execute_next_cpi(&PROGRAM, &plan, &accounts, &rest, &mut step).unwrap().is_none());
    assert_eq!(step.cursor, rest.len());
    let mut after = accounts.clone();
    after[4].lamports = 70;
    after[1].lamports = 890_880;
    let c = execute_finish(&plan, &step, &after, rest.len(), 890_880).unwrap();
    assert_eq!(c, ExecuteCleanup::SweepSol { lamports: 890_880 });
    after[4].lamports = 59;
    assert!(matches!(
        execute_finish(&plan, &step, &after, rest.len(), 890_880),
        Err(SolverError::Custom(IntentSolverError::MinAmountNotMet))
    ));
    after[4].lamports = 70;
    assert!(matches!(
        execute_finish(&plan, &step, &after, rest.len(), 890_000),
        Err(SolverError::Custom(IntentSolverError::SolSourcePdaNotDrained))
    ));
    // Bytes left after the last declared CPI block.
    assert!(matches!(
        execute_finish(&plan, &step, &after, rest.len() + 1, 890_880),
        Err(SolverError::InvalidInstructionData)
    ));
}

#[test]
fn execute_declared_count_bounds_cpis() {
    let s = sol_intent();
    let pda = pda_for(&sol_hash(&s));
    let accounts = sol_accounts(&s, pda, 10);
    // Two CPI blocks in the data, one declared: the second block is trailing data.
    let mut rest = execute_prefix(&s, 1);
    rest.extend_from_slice(&[1, 0, 0, 0]);
    let one_block_end = rest.len();
    rest.extend_from_slice(&[1, 0, 0, 0]);
    let plan = execute_setup(&PROGRAM, &accounts, &rest).unwrap();
    let mut step = first_cpi_step(&plan);
    assert!(execute_next_cpi(&PROGRAM, &plan, &accounts, &rest, &mut step).unwrap().is_some());
    assert!(execute_next_cpi(&PROGRAM, &plan, &accounts, &rest, &mut step).unwrap().is_none());
    assert_eq!(step.cursor, one_block_end);
    let mut after = accounts.clone();
    after[4].lamports = 70;
    after[1].lamports = 890_880;
    assert!(matches!(
        execute_finish(&plan, &step, &after, rest.len(), 890_880),
        Err(SolverError::InvalidInstructionData)
    ));
}

#[test]
fn execute_rejects_wrong_pda() {
    let s = sol_intent();
    let accounts = sol_accounts(&s, [55u8; 32], 10);
    let mut rest = execute_prefix(&s, 1);
    rest.extend_from_slice(&[1, 0, 0, 0]);
    assert!(matches!(
        execute_setup(&PROGRAM, &accounts, &rest),
        Err(SolverError::Custom(IntentSolverError::InvalidPda))
    ));
}

#[test]
fn cpi_block_checks() {
    let s = sol_intent();
    let pda = pda_for(&sol_hash(&s));
    let mut accounts = sol_accounts(&s, pda, 10);
    let base = execute_prefix(&s, 1);
    let c0 = base.len();
    // Self call.
    accounts[5].key = PROGRAM;
    let mut rest = base.clone();
    rest.extend_from_slice(&[1, 0, 0, 0]);
    assert!(matches!(
        decode_cpi_block(&PROGRAM, &accounts, &rest, c0, 5),
        Err(SolverError::Custom(IntentSolverError::CpiToSelfNotAllowed))
    ));
    // Denied loader.
    accounts[5].key = BPF_LOADER_ID;
    assert!(matches!(
        decode_cpi_block(&PROGRAM, &accounts, &rest, c0, 5),
        Err(SolverError::Custom(IntentSolverError::CpiProgramDenied))
    ));
    accounts[5].key = [20u8; 32];
    // Account count zero.
    let mut zero = base.clone();
    zero.extend_from_slice(&[0, 0, 0, 0]);
    assert!(matches!(
        decode_cpi_block(&PROGRAM, &accounts, &zero, c0, 5),
        Err(SolverError::Custom(IntentSolverError::InvalidCpiAccountSpec))
    ));
    // Override position out of range.
    let mut pos = base.clone();
    pos.extend_from_slice(&[2, 1, 2, 1, 0, 0]);
    assert!(matches!(
        decode_cpi_block(&PROGRAM, &accounts, &pos, c0, 5),
        Err(SolverError::Custom(IntentSolverError::InvalidCpiAccountSpec))
    ));
    // Signer override on a stranger.
    let mut sign = base.clone();
    sign.extend_from_slice(&[2, 1, 1, 2, 0, 0]);
    assert!(matches!(
        decode_cpi_block(&PROGRAM, &accounts, &sign, c0, 5),
        Err(SolverError::Custom(IntentSolverError::InnerSignerNotAllowed))
    ));
    // Data longer than what is left.
    let mut long = base.clone();
    long.extend_from_slice(&[1, 0, 5, 0, 1]);
    assert!(matches!(
        decode_cpi_block(&PROGRAM, &accounts, &long, c0, 5),
        Err(SolverError::Custom(IntentSolverError::InsufficientData))
    ));
    // Not enough accounts for the slice.
    assert!(matches!(
        decode_cpi_block(&PROGRAM, &accounts, &rest, c0, 7),
        Err(SolverError::Custom(IntentSolverError::NotEnoughAccounts))
    ));
}

#[test]
fn inner_meta_rules() {
    let pda = [2u8; 32];
    let exec = [1u8; 32];
    let readonly = acc([30u8; 32], false, false, SYSTEM_PROGRAM_ID, 0);
    assert!(matches!(
        inner_account_meta(&readonly, 1, &[(1, 1)], &pda, &exec),
        Err(SolverError::Custom(IntentSolverError::WritableEscalationNotAllowed))
    ));
    let pda_acc = acc(pda, false, true, SYSTEM_PROGRAM_ID, 0);
    let m = inner_account_meta(&pda_acc, 3, &[(3, 2), (1, 1)], &pda, &exec).unwrap();
    assert!(m.is_signer && !m.is_writable);
    // The last matching override wins.
    let m = inner_account_meta(&pda_acc, 3, &[(3, 2), (3, 1)], &pda, &exec).unwrap();
    assert!(!m.is_signer && m.is_writable);
    // No override: outer writability, never a signer.
    let m = inner_account_meta(&pda_acc, 3, &[], &pda, &exec).unwrap();
    assert!(!m.is_signer && m.is_writable);
}

#[test]
fn refund_sol_flow() {
    let s = sol_intent();
    let hash = sol_hash(&s);
    let pda = pda_for(&hash);
    let accounts = sol_accounts(&s, pda, 10);
    let mut rest = Vec::new();
    rest.extend_from_slice(&s.amount_in.to_le_bytes());
    rest.extend_from_slice(&s.salt);
    rest.push(1);
    rest.extend_from_slice(&s.dest);
    rest.extend_from_slice(&s.min.to_le_bytes());
    let data = parse_refund_data(&rest).unwrap();
    assert_eq!(data.transfer_destinations, vec![s.dest]);
    let plan = refund_setup(&PROGRAM, &accounts, &rest).unwrap();
    // The same intent hash as `execute` builds.
    assert_eq!(plan.intent_hash, hash);
    assert_eq!(plan.action, RefundAction::SweepSol { lamports: 1_000_000 });
    let mut trailing = rest.clone();
    trailing.push(0);
    assert!(matches!(refund_setup(&PROGRAM, &accounts, &trailing), Err(SolverError::InvalidInstructionData)));
    assert!(matches!(
        refund_setup(&PROGRAM, &accounts, &rest[..60]),
        Err(SolverError::Custom(IntentSolverError::InsufficientData))
    ));
}

#[test]
fn cpi_blocks_do_not_change_the_hash() {
    let s = sol_intent();
    let pda = pda_for(&sol_hash(&s));
    let accounts = sol_accounts(&s, pda, 10);
    let mut a = execute_prefix(&s, 1);
    a.extend_from_slice(&[1, 0, 0, 0]);
    let mut b = execute_prefix(&s, 1);
    b.extend_from_slice(&[2, 0, 2, 0, 1, 2]);
    let pa = execute_setup(&PROGRAM, &accounts, &a).unwrap();
    let pb = execute_setup(&PROGRAM, &accounts, &b).unwrap();
    assert_eq!(pa.intent_hash, pb.intent_hash);
}

#[test]
fn execute_cpi_count_refused_before_accounts() {
    let s = sol_intent();
    for count in [0u8, 17, 255] {
        let rest = execute_prefix(&s, count);
        assert!(matches!(
            execute_setup(&PROGRAM, &[], &rest),
            Err(SolverError::Custom(IntentSolverError::InvalidCpiCount))
        ));
    }
}
