//! The Across adapter: approve Across's delegate PDA on the vault, then deposit
//! into the Across spoke program.

use vstd::prelude::*;
use vstd::bytes::*;
use vstd::slice::slice_subrange;
use crate::keys::{Pubkey, key_eq, push_all, ACROSS_PROGRAM_ID, SPL_TOKEN_ID};
use crate::outside::{keccak256, keccak_hash, program_address_search, try_find_program_address, spl_token_approve};
use crate::router::errors::{ErrorCode, RouterError};

verus! {

/// Across state seed for mainnet.
pub const ACROSS_STATE_SEED: u64 = 0;

/// Base of the output amount multiplier (1e18, as on EVM chains).
pub const MULTIPLIER_BASE: u128 = 1_000_000_000_000_000_000;

/// First seed of Across's delegate PDAs: `b"delegate"`.
pub const DELEGATE_SEED: [u8; 8] = [100, 101, 108, 101, 103, 97, 116, 101];

/// Anchor discriminator of Across's `deposit` instruction.
pub const DEPOSIT_DISCRIMINATOR: [u8; 8] = [242, 35, 198, 137, 82, 225, 242, 182];

/// The Across adapter's payload.
#[derive(Clone, Debug)]
pub struct AcrossAdapterPayload {
    /// Recipient on the destination chain.
    pub recipient: Pubkey,
    /// Output token on the destination chain.
    pub output_token: Pubkey,
    /// Output amount multiplier, scaled by 1e18.
    pub output_amount_multiplier: u128,
    /// Destination chain id.
    pub destination_chain_id: u64,
    /// Exclusive relayer (or the default key).
    pub exclusive_relayer: Pubkey,
    /// Quote timestamp.
    pub quote_timestamp: u32,
    /// Fill deadline timestamp.
    pub fill_deadline: u32,
    /// Exclusivity parameter.
    pub exclusivity_parameter: u32,
    /// Message for cross-chain calls (usually empty).
    pub message: Vec<u8>,
}

/// The payload's encoding: the three keys and integers in declaration order
/// (integers little-endian), the message as a 4-byte length then its bytes.
pub open spec fn spec_across_payload_bytes(p: AcrossAdapterPayload) -> Seq<u8> {
    p.recipient@ + p.output_token@ + spec_u128_to_le_bytes(p.output_amount_multiplier)
        + spec_u64_to_le_bytes(p.destination_chain_id) + p.exclusive_relayer@ + spec_u32_to_le_bytes(
        p.quote_timestamp,
    ) + spec_u32_to_le_bytes(p.fill_deadline) + spec_u32_to_le_bytes(p.exclusivity_parameter)
        + spec_u32_to_le_bytes(p.message@.len() as u32) + p.message@
}

/// The bytes of an encoded payload: 136 fixed bytes then exactly the message
/// length that bytes 132..136 declare.
pub open spec fn across_payload_ok(b: Seq<u8>) -> bool {
    b.len() >= 136 && b.len() - 136 == spec_u32_from_le_bytes(b.subrange(132, 136))
}

/// Field readers of an encoded payload.
pub open spec fn ap_recipient(b: Seq<u8>) -> Seq<u8> {
    b.subrange(0, 32)
}

pub open spec fn ap_output_token(b: Seq<u8>) -> Seq<u8> {
    b.subrange(32, 64)
}

pub open spec fn ap_multiplier(b: Seq<u8>) -> u128 {
    spec_u128_from_le_bytes(b.subrange(64, 80))
}

pub open spec fn ap_chain_id(b: Seq<u8>) -> u64 {
    spec_u64_from_le_bytes(b.subrange(80, 88))
}

pub open spec fn ap_relayer(b: Seq<u8>) -> Seq<u8> {
    b.subrange(88, 120)
}

pub open spec fn ap_quote_timestamp(b: Seq<u8>) -> u32 {
    spec_u32_from_le_bytes(b.subrange(120, 124))
}

pub open spec fn ap_fill_deadline(b: Seq<u8>) -> u32 {
    spec_u32_from_le_bytes(b.subrange(124, 128))
}

pub open spec fn ap_exclusivity(b: Seq<u8>) -> u32 {
    spec_u32_from_le_bytes(b.subrange(128, 132))
}

pub open spec fn ap_message(b: Seq<u8>) -> Seq<u8> {
    b.subrange(136, b.len() as int)
}

fn copy_key(b: &[u8], at: usize) -> (r: Pubkey)
    requires
        at + 32 <= b@.len(),
    ensures
        r@ == b@.subrange(at as int, at + 32),
{
    let mut k = [0u8; 32];
    let mut i: usize = 0;
    while i < 32
        invariant
            0 <= i <= 32,
            at + 32 <= b.len(),
            forall|j: int| 0 <= j < i ==> k@[j] == b@[at + j],
        decreases 32 - i,
    {
        k[i] = b[at + i];
        i += 1;
    }
    assert(k@ =~= b@.subrange(at as int, at + 32));
    k
}

/// Decodes an Across payload; it must be encoded exactly (nothing left over).
pub fn decode_across_payload(b: &[u8]) -> (r: Option<AcrossAdapterPayload>)
    ensures
        r is Some <==> across_payload_ok(b@),
        r matches Some(p) ==> {
            &&& p.recipient@ == ap_recipient(b@)
            &&& p.output_token@ == ap_output_token(b@)
            &&& p.output_amount_multiplier == ap_multiplier(b@)
            &&& p.destination_chain_id == ap_chain_id(b@)
            &&& p.exclusive_relayer@ == ap_relayer(b@)
            &&& p.quote_timestamp == ap_quote_timestamp(b@)
            &&& p.fill_deadline == ap_fill_deadline(b@)
            &&& p.exclusivity_parameter == ap_exclusivity(b@)
            &&& p.message@ == ap_message(b@)
            &&& p.message@.len() <= u32::MAX
        },
{
    if b.len() < 136 {
        return None;
    }
    let declared = u32_from_le_bytes(slice_subrange(b, 132, 136));
    if (b.len() - 136) as u64 != declared as u64 {
        return None;
    }
    let recipient = copy_key(b, 0);
    let output_token = copy_key(b, 32);
    let output_amount_multiplier = u128_from_le_bytes(slice_subrange(b, 64, 80));
    let destination_chain_id = u64_from_le_bytes(slice_subrange(b, 80, 88));
    let exclusive_relayer = copy_key(b, 88);
    let quote_timestamp = u32_from_le_bytes(slice_subrange(b, 120, 124));
    let fill_deadline = u32_from_le_bytes(slice_subrange(b, 124, 128));
    let exclusivity_parameter = u32_from_le_bytes(slice_subrange(b, 128, 132));
    let mut message: Vec<u8> = Vec::new();
    push_all(&mut message, slice_subrange(b, 136, b.len()));
    Some(AcrossAdapterPayload {
        recipient,
        output_token,
        output_amount_multiplier,
        destination_chain_id,
        exclusive_relayer,
        quote_timestamp,
        fill_deadline,
        exclusivity_parameter,
        message,
    })
}

/// Decoding reads back every field of an encoded payload.
pub proof fn law_across_payload_roundtrip(p: AcrossAdapterPayload)
    requires
        p.message@.len() <= u32::MAX,
    ensures
        ({
            let b = spec_across_payload_bytes(p);
            &&& across_payload_ok(b)
            &&& ap_recipient(b) == p.recipient@
            &&& ap_output_token(b) == p.output_token@
            &&& ap_multiplier(b) == p.output_amount_multiplier
            &&& ap_chain_id(b) == p.destination_chain_id
            &&& ap_relayer(b) == p.exclusive_relayer@
            &&& ap_quote_timestamp(b) == p.quote_timestamp
            &&& ap_fill_deadline(b) == p.fill_deadline
            &&& ap_exclusivity(b) == p.exclusivity_parameter
            &&& ap_message(b) == p.message@
        }),
{
    lemma_auto_spec_u128_to_from_le_bytes();
    lemma_auto_spec_u64_to_from_le_bytes();
    lemma_auto_spec_u32_to_from_le_bytes();
    let b = spec_across_payload_bytes(p);
    assert(b.subrange(0, 32) =~= p.recipient@);
    assert(b.subrange(32, 64) =~= p.output_token@);
    assert(b.subrange(64, 80) =~= spec_u128_to_le_bytes(p.output_amount_multiplier));
    assert(b.subrange(80, 88) =~= spec_u64_to_le_bytes(p.destination_chain_id));
    assert(b.subrange(88, 120) =~= p.exclusive_relayer@);
    assert(b.subrange(120, 124) =~= spec_u32_to_le_bytes(p.quote_timestamp));
    assert(b.subrange(124, 128) =~= spec_u32_to_le_bytes(p.fill_deadline));
    assert(b.subrange(128, 132) =~= spec_u32_to_le_bytes(p.exclusivity_parameter));
    assert(b.subrange(132, 136) =~= spec_u32_to_le_bytes(p.message@.len() as u32));
    assert(b.subrange(136, b.len() as int) =~= p.message@);
}

/// Encodes an Across payload as the decoder reads it.
pub fn encode_across_payload(p: &AcrossAdapterPayload) -> (r: Vec<u8>)
    requires
        p.message@.len() <= u32::MAX,
    ensures
        r@ == spec_across_payload_bytes(*p),
{
    let mut out: Vec<u8> = Vec::new();
    push_all(&mut out, p.recipient.as_slice());
    push_all(&mut out, p.output_token.as_slice());
    push_all(&mut out, u128_to_le_bytes(p.output_amount_multiplier).as_slice());
    push_all(&mut out, u64_to_le_bytes(p.destination_chain_id).as_slice());
    push_all(&mut out, p.exclusive_relayer.as_slice());
    push_all(&mut out, u32_to_le_bytes(p.quote_timestamp).as_slice());
    push_all(&mut out, u32_to_le_bytes(p.fill_deadline).as_slice());
    push_all(&mut out, u32_to_le_bytes(p.exclusivity_parameter).as_slice());
    push_all(&mut out, u32_to_le_bytes(p.message.len() as u32).as_slice());
    push_all(&mut out, p.message.as_slice());
    out
}

/// The output amount: `amount * multiplier / 1e18`, or `None` when the product
/// overflows 128 bits.
pub open spec fn spec_across_output(amount: u64, multiplier: u128) -> Option<u128> {
    if amount * multiplier > u128::MAX {
        None
    } else {
        Some(((amount * multiplier) / (MULTIPLIER_BASE as int)) as u128)
    }
}

/// A `u128` as 32 big-endian bytes: 16 zero bytes, then the value.
pub open spec fn spec_bytes32_be(value: u128) -> Seq<u8> {
    Seq::new(16, |i: int| 0u8) + spec_u128_to_le_bytes(value).reverse()
}

/// Widens a `u128` to a 32-byte big-endian amount (EVM-compatible).
pub fn u128_to_bytes32_be(value: u128) -> (r: [u8; 32])
    ensures
        r@ == spec_bytes32_be(value),
{
    let le = u128_to_le_bytes(value);
    let mut result = [0u8; 32];
    let mut k: usize = 0;
    while k < 16
        invariant
            0 <= k <= 16,
            le@ == spec_u128_to_le_bytes(value),
            le@.len() == 16,
            result@.len() == 32,
            forall|i: int| 16 <= i < 16 + k ==> result@[i] == le@[31 - i],
            forall|i: int| (0 <= i < 16 || 16 + k <= i < 32) ==> result@[i] == 0u8,
        decreases 16 - k,
    {
        result[16 + k] = le[15 - k];
        k += 1;
    }
    assert(result@ =~= spec_bytes32_be(value));
    result
}

/// The Borsh encoding of Across's deposit seed data: depositor, recipient,
/// input token, output token, input amount, 32-byte output amount, destination
/// chain id, exclusive relayer, quote timestamp, fill deadline, exclusivity
/// parameter, and the message (4-byte length then bytes); integers little-endian.
pub open spec fn deposit_seed_bytes(
    depositor: Seq<u8>,
    recipient: Seq<u8>,
    input_token: Seq<u8>,
    output_token: Seq<u8>,
    input_amount: u64,
    output_amount: Seq<u8>,
    destination_chain_id: u64,
    exclusive_relayer: Seq<u8>,
    quote_timestamp: u32,
    fill_deadline: u32,
    exclusivity_parameter: u32,
    message: Seq<u8>,
) -> Seq<u8> {
    depositor + recipient + input_token + output_token + spec_u64_to_le_bytes(input_amount)
        + output_amount + spec_u64_to_le_bytes(destination_chain_id) + exclusive_relayer
        + spec_u32_to_le_bytes(quote_timestamp) + spec_u32_to_le_bytes(fill_deadline)
        + spec_u32_to_le_bytes(exclusivity_parameter) + spec_u32_to_le_bytes(message.len() as u32)
        + message
}

/// The deposit seed bytes for a decoded payload `b`, the vault authority as
/// depositor, the mint as input token, and the computed output amount.
pub open spec fn across_seed(b: Seq<u8>, depositor: Seq<u8>, mint: Seq<u8>, amount: u64, output: u128) -> Seq<u8> {
    deposit_seed_bytes(
        depositor,
        ap_recipient(b),
        mint,
        ap_output_token(b),
        amount,
        spec_bytes32_be(output),
        ap_chain_id(b),
        ap_relayer(b),
        ap_quote_timestamp(b),
        ap_fill_deadline(b),
        ap_exclusivity(b),
        ap_message(b),
    )
}

/// What the Across adapter decides, in order: the payload decodes, there are
/// three adapter accounts, the third is the Across program, the output amount
/// does not overflow, the delegate PDA (of the seed data's Keccak hash) exists,
/// and the token program is SPL Token's (the approve builder's requirement).
/// The delegate and the seed bytes on success.
pub open spec fn spec_bridge_via_across(
    payload: Seq<u8>,
    amount: u64,
    vault_authority: Seq<u8>,
    mint: Seq<u8>,
    token_program: Seq<u8>,
    remaining: Seq<Pubkey>,
) -> Result<(Seq<u8>, Seq<u8>), RouterError> {
    if !across_payload_ok(payload) {
        Err(RouterError::Code(ErrorCode::InvalidAdapterPayload))
    } else if remaining.len() < 3 {
        Err(RouterError::Code(ErrorCode::InsufficientAccounts))
    } else if remaining[2]@ != ACROSS_PROGRAM_ID@ {
        Err(RouterError::Code(ErrorCode::InvalidAcrossProgram))
    } else {
        match spec_across_output(amount, ap_multiplier(payload)) {
            None => Err(RouterError::Code(ErrorCode::MathOverflow)),
            Some(output) => {
                let seed = across_seed(payload, vault_authority, mint, amount, output);
                match program_address_search(seq![DELEGATE_SEED@, keccak256(seed)], ACROSS_PROGRAM_ID@) {
                    None => Err(RouterError::NoViableProgramAddress),
                    Some((delegate, _)) => if token_program != SPL_TOKEN_ID@ {
                        Err(RouterError::Code(ErrorCode::ApproveError))
                    } else {
                        Ok((delegate, seed))
                    },
                }
            },
        }
    }
}

/// The Across bridge: approve `delegate` for `amount` on the vault (signed by
/// the vault authority, with `approve_data`), then invoke Across's deposit
/// with `deposit_data`.
#[derive(Clone, Debug)]
pub struct AcrossPlan {
    pub delegate: Pubkey,
    pub output_amount: [u8; 32],
    pub approve_data: Vec<u8>,
    pub deposit_data: Vec<u8>,
}

/// The seed hash of Across's delegate PDA: Keccak-256 of the encoded seed data.
fn derive_seed_hash(seed: &[u8]) -> (r: [u8; 32])
    ensures
        r@ == keccak256(seed@),
{
    keccak_hash(seed)
}

/// Finds Across's delegate PDA for a seed hash.
fn find_delegate(seed_hash: &[u8; 32]) -> (r: Option<Pubkey>)
    ensures
        match r {
            Some(k) => program_address_search(seq![DELEGATE_SEED@, seed_hash@], ACROSS_PROGRAM_ID@) matches Some((d, _)) && d == k@,
            None => program_address_search(seq![DELEGATE_SEED@, seed_hash@], ACROSS_PROGRAM_ID@) is None,
        },
{
    let mut s0: Vec<u8> = Vec::new();
    push_all(&mut s0, DELEGATE_SEED.as_slice());
    let mut s1: Vec<u8> = Vec::new();
    push_all(&mut s1, seed_hash.as_slice());
    let mut seeds: Vec<Vec<u8>> = Vec::new();
    seeds.push(s0);
    seeds.push(s1);
    proof {
        assert(seeds@[0].deep_view() =~= DELEGATE_SEED@);
        assert(seeds@[1].deep_view() =~= seed_hash@);
        assert(seeds.deep_view() =~= seq![DELEGATE_SEED@, seed_hash@]);
    }
    match try_find_program_address(&seeds, &ACROSS_PROGRAM_ID) {
        Some((k, _)) => Some(k),
        None => None,
    }
}

/// The Across adapter's checks and computations; `remaining` are the adapter
/// accounts' keys (Across state, Across vault, Across program).
pub fn bridge_via_across(
    adapter_payload: &[u8],
    amount: u64,
    vault_authority: &Pubkey,
    mint: &Pubkey,
    token_program: &Pubkey,
    intermediate_vault: &Pubkey,
    remaining: &[Pubkey],
) -> (r: Result<AcrossPlan, RouterError>)
    ensures
        match spec_bridge_via_across(adapter_payload@, amount, vault_authority@, mint@, token_program@, remaining@) {
            Ok((delegate, seed)) => r matches Ok(plan) && plan.delegate@ == delegate
                && plan.output_amount@ == spec_bytes32_be(
                spec_across_output(amount, ap_multiplier(adapter_payload@))->Some_0,
            ) && plan.approve_data@ == seq![4u8] + spec_u64_to_le_bytes(amount)
                && plan.deposit_data@ == DEPOSIT_DISCRIMINATOR@ + seed,
            Err(e) => r matches Err(x) && x == e,
        },
{
    let payload = match decode_across_payload(adapter_payload) {
        Some(p) => p,
        None => return Err(RouterError::Code(ErrorCode::InvalidAdapterPayload)),
    };
    if remaining.len() < 3 {
        return Err(RouterError::Code(ErrorCode::InsufficientAccounts));
    }
    if !key_eq(&remaining[2], &ACROSS_PROGRAM_ID) {
        return Err(RouterError::Code(ErrorCode::InvalidAcrossProgram));
    }
    let product = match (amount as u128).checked_mul(payload.output_amount_multiplier) {
        Some(v) => v,
        None => return Err(RouterError::Code(ErrorCode::MathOverflow)),
    };
    let computed_output = product / MULTIPLIER_BASE;
    let output_amount = u128_to_bytes32_be(computed_output);
    let mut seed: Vec<u8> = Vec::new();
    push_all(&mut seed, vault_authority.as_slice());
    push_all(&mut seed, payload.recipient.as_slice());
    push_all(&mut seed, mint.as_slice());
    push_all(&mut seed, payload.output_token.as_slice());
    push_all(&mut seed, u64_to_le_bytes(amount).as_slice());
    push_all(&mut seed, output_amount.as_slice());
    push_all(&mut seed, u64_to_le_bytes(payload.destination_chain_id).as_slice());
    push_all(&mut seed, payload.exclusive_relayer.as_slice());
    push_all(&mut seed, u32_to_le_bytes(payload.quote_timestamp).as_slice());
    push_all(&mut seed, u32_to_le_bytes(payload.fill_deadline).as_slice());
    push_all(&mut seed, u32_to_le_bytes(payload.exclusivity_parameter).as_slice());
    push_all(&mut seed, u32_to_le_bytes(payload.message.len() as u32).as_slice());
    push_all(&mut seed, payload.message.as_slice());
    assert(seed@ =~= across_seed(adapter_payload@, vault_authority@, mint@, amount, computed_output));
    let seed_hash = derive_seed_hash(seed.as_slice());
    let delegate = match find_delegate(&seed_hash) {
        Some(k) => k,
        None => return Err(RouterError::NoViableProgramAddress),
    };
    let approve_data = match spl_token_approve(token_program, intermediate_vault, &delegate, vault_authority, amount) {
        Ok(d) => d,
        Err(_) => return Err(RouterError::Code(ErrorCode::ApproveError)),
    };
    let mut deposit_data: Vec<u8> = Vec::new();
    push_all(&mut deposit_data, DEPOSIT_DISCRIMINATOR.as_slice());
    push_all(&mut deposit_data, seed.as_slice());
    Ok(AcrossPlan { delegate, output_amount, approve_data, deposit_data })
}

/// The Across output amount is `amount * multiplier / 1e18` rounded down: the
/// product fits in 128 bits, and the output `o` satisfies
/// `o * 1e18 <= amount * multiplier < (o + 1) * 1e18`; an overflowing product
/// gives no output.
pub proof fn law_across_output_floor(amount: u64, multiplier: u128)
    ensures
        spec_across_output(amount, multiplier) is Some ==> {
            let o = spec_across_output(amount, multiplier)->Some_0;
            &&& amount * multiplier <= u128::MAX
            &&& o * 1_000_000_000_000_000_000 <= amount * multiplier
            &&& amount * multiplier < (o + 1) * 1_000_000_000_000_000_000
        },
        amount * multiplier > u128::MAX ==> spec_across_output(amount, multiplier) is None,
{
    if amount * multiplier <= u128::MAX {
        let p: int = amount * multiplier;
        let b: int = 1_000_000_000_000_000_000;
        assert(b * (p / b) <= p < b * (p / b) + b) by (nonlinear_arith)
            requires
                b > 0,
                p >= 0,
        ;
        assert((p / b) * b == b * (p / b)) by (nonlinear_arith);
        assert((p / b + 1) * b == b * (p / b) + b) by (nonlinear_arith);
    }
}

/// The Across bridge deposits for the vault: when the adapter accepts, the
/// third adapter account is the Across program, the token program is SPL
/// Token's, the output amount exists, and the deposit seed names the vault
/// authority as depositor (bytes 0..32), the payload's recipient (32..64), the
/// mint as input token (64..96) and the whole bridged amount (128..136,
/// little-endian).
pub proof fn law_across_deposits_for_vault(
    payload: Seq<u8>,
    amount: u64,
    vault_authority: Seq<u8>,
    mint: Seq<u8>,
    token_program: Seq<u8>,
    remaining: Seq<Pubkey>,
)
    requires
        vault_authority.len() == 32,
        mint.len() == 32,
    ensures
        spec_bridge_via_across(payload, amount, vault_authority, mint, token_program, remaining) is Ok ==> {
            let seed = spec_bridge_via_across(payload, amount, vault_authority, mint, token_program, remaining)->Ok_0.1;
            &&& remaining.len() >= 3
            &&& remaining[2]@ == ACROSS_PROGRAM_ID@
            &&& token_program == SPL_TOKEN_ID@
            &&& spec_across_output(amount, ap_multiplier(payload)) is Some
            &&& seed.subrange(0, 32) == vault_authority
            &&& seed.subrange(32, 64) == ap_recipient(payload)
            &&& seed.subrange(64, 96) == mint
            &&& seed.subrange(128, 136) == spec_u64_to_le_bytes(amount)
        },
{
    if spec_bridge_via_across(payload, amount, vault_authority, mint, token_program, remaining) is Ok {
        let output = spec_across_output(amount, ap_multiplier(payload))->Some_0;
        let seed = across_seed(payload, vault_authority, mint, amount, output);
        lemma_auto_spec_u64_to_from_le_bytes();
        assert(spec_u64_to_le_bytes(amount).len() == 8);
        assert(ap_recipient(payload).len() == 32);
        assert(ap_output_token(payload).len() == 32);
        let pre = vault_authority + ap_recipient(payload) + mint + ap_output_token(payload);
        assert(pre.len() == 128);
        assert(seed.subrange(0, 32) =~= vault_authority);
        assert(seed.subrange(32, 64) =~= ap_recipient(payload));
        assert(seed.subrange(64, 96) =~= mint);
        assert(seed.subrange(128, 136) =~= spec_u64_to_le_bytes(amount));
    }
}

} // verus!
