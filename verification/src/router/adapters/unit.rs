//! The Unit adapter: move the whole vault into the Unit deposit wallet's ATA.

use vstd::prelude::*;
use crate::keys::{Pubkey, key_eq, push_all};
use crate::addresses::{spec_ata_address, get_associated_token_address_with_program_id};
use crate::router::errors::{ErrorCode, RouterError};

verus! {

/// The Unit adapter's payload.
#[derive(Clone, Copy, Debug)]
pub struct UnitAdapterPayload {
    /// Unit deposit wallet.
    pub unit_deposit_wallet: Pubkey,
    /// Future extension: 0 = SPL / wSOL, 1 = native SOL.
    pub is_native: u8,
}

/// The payload's encoding: the wallet (32 bytes), then `is_native`.
pub open spec fn spec_unit_payload_bytes(p: UnitAdapterPayload) -> Seq<u8> {
    p.unit_deposit_wallet@ + seq![p.is_native]
}

/// The decoder accepts exactly 33 bytes: the wallet and `is_native`.
pub fn decode_unit_payload(payload: &[u8]) -> (r: Option<UnitAdapterPayload>)
    ensures
        match r {
            Some(p) => payload@.len() == 33 && spec_unit_payload_bytes(p) == payload@,
            None => payload@.len() != 33,
        },
{
    if payload.len() != 33 {
        return None;
    }
    let mut wallet = [0u8; 32];
    let mut i: usize = 0;
    while i < 32
        invariant
            0 <= i <= 32,
            payload@.len() == 33,
            forall|j: int| 0 <= j < i ==> wallet@[j] == payload@[j],
        decreases 32 - i,
    {
        wallet[i] = payload[i];
        i += 1;
    }
    let p = UnitAdapterPayload { unit_deposit_wallet: wallet, is_native: payload[32] };
    assert(spec_unit_payload_bytes(p) =~= payload@);
    Some(p)
}

/// Encodes a Unit payload as the decoder reads it.
pub fn encode_unit_payload(p: &UnitAdapterPayload) -> (r: Vec<u8>)
    ensures
        r@ == spec_unit_payload_bytes(*p),
{
    let mut out: Vec<u8> = Vec::new();
    push_all(&mut out, p.unit_deposit_wallet.as_slice());
    out.push(p.is_native);
    out
}

/// Decoding reads back both fields of an encoded payload.
pub proof fn law_unit_payload_roundtrip(p: UnitAdapterPayload)
    ensures
        spec_unit_payload_bytes(p).len() == 33,
        spec_unit_payload_bytes(p).subrange(0, 32) == p.unit_deposit_wallet@,
        spec_unit_payload_bytes(p)[32] == p.is_native,
{
    assert(spec_unit_payload_bytes(p).subrange(0, 32) =~= p.unit_deposit_wallet@);
}

/// What the Unit adapter decides, in order: the payload decodes, there are two
/// adapter accounts, the first is the payload's deposit wallet, and the second
/// is that wallet's ATA for the mint and token program.
pub open spec fn spec_bridge_via_unit(
    payload: Seq<u8>,
    mint: Seq<u8>,
    token_program: Seq<u8>,
    remaining: Seq<Pubkey>,
) -> Result<(), RouterError> {
    if payload.len() != 33 {
        Err(RouterError::Code(ErrorCode::InvalidAdapterPayload))
    } else if remaining.len() < 2 {
        Err(RouterError::Code(ErrorCode::InsufficientAccounts))
    } else if payload.subrange(0, 32) != remaining[0]@ {
        Err(RouterError::Code(ErrorCode::DepositWalletMismatch))
    } else {
        match spec_ata_address(remaining[0]@, mint, token_program) {
            None => Err(RouterError::NoViableProgramAddress),
            Some(ata) => if ata != remaining[1]@ {
                Err(RouterError::Code(ErrorCode::InvalidUnitDepositAta))
            } else {
                Ok(())
            },
        }
    }
}

/// The Unit bridge: create the deposit ATA idempotently, then transfer
/// `amount` (checked, with the mint's decimals) from the vault into it.
#[derive(Clone, Copy, Debug)]
pub struct UnitPlan {
    pub deposit_wallet: Pubkey,
    pub deposit_ata: Pubkey,
    pub amount: u64,
}

/// The Unit adapter's checks; `remaining` are the adapter accounts' keys.
pub fn bridge_via_unit(
    adapter_payload: &[u8],
    amount: u64,
    mint: &Pubkey,
    token_program: &Pubkey,
    remaining: &[Pubkey],
) -> (r: Result<UnitPlan, RouterError>)
    ensures
        match spec_bridge_via_unit(adapter_payload@, mint@, token_program@, remaining@) {
            Ok(()) => r == Ok::<UnitPlan, RouterError>(
                UnitPlan { deposit_wallet: remaining@[0], deposit_ata: remaining@[1], amount },
            ),
            Err(e) => r == Err::<UnitPlan, RouterError>(e),
        },
{
    let payload = match decode_unit_payload(adapter_payload) {
        Some(p) => p,
        None => return Err(RouterError::Code(ErrorCode::InvalidAdapterPayload)),
    };
    if remaining.len() < 2 {
        return Err(RouterError::Code(ErrorCode::InsufficientAccounts));
    }
    assert(payload.unit_deposit_wallet@ =~= adapter_payload@.subrange(0, 32));
    if !key_eq(&payload.unit_deposit_wallet, &remaining[0]) {
        return Err(RouterError::Code(ErrorCode::DepositWalletMismatch));
    }
    let expected_ata = match get_associated_token_address_with_program_id(&remaining[0], mint, token_program) {
        Some(k) => k,
        None => return Err(RouterError::NoViableProgramAddress),
    };
    if !key_eq(&expected_ata, &remaining[1]) {
        return Err(RouterError::Code(ErrorCode::InvalidUnitDepositAta));
    }
    Ok(UnitPlan { deposit_wallet: remaining[0], deposit_ata: remaining[1], amount })
}

/// The Unit bridge pays the payload's wallet: when the adapter accepts, the
/// payload is the 33-byte encoding whose first 32 bytes are the first adapter
/// account (the deposit wallet), and the second adapter account is that
/// wallet's canonical ATA for the mint and token program.
pub proof fn law_unit_pays_payload_wallet(payload: Seq<u8>, mint: Seq<u8>, token_program: Seq<u8>, remaining: Seq<Pubkey>)
    ensures
        spec_bridge_via_unit(payload, mint, token_program, remaining) is Ok ==> {
            &&& payload.len() == 33
            &&& remaining.len() >= 2
            &&& remaining[0]@ == payload.subrange(0, 32)
            &&& spec_ata_address(remaining[0]@, mint, token_program) == Some(remaining[1]@)
        },
{
}

} // verus!
