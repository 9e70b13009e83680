//! `swap_and_bridge`: check the vault authority and the intermediate vault,
//! read the swap output, and pick the adapter.
//!
//! The runtime glue calls `swap_and_bridge`, then the chosen adapter's plan
//! (`bridge_via_unit` or `bridge_via_across`), performs its CPIs, then closes
//! the vault with the vault authority's seeds.

use vstd::prelude::*;
use vstd::bytes::*;
use vstd::slice::slice_subrange;
use crate::keys::{Pubkey, AccountSnapshot, key_eq};
use crate::outside::program_address_search;
use crate::addresses::{spec_ata_address, get_associated_token_address_with_program_id};
use super::errors::{ErrorCode, RouterError};
use super::utils::{vault_seeds, find_vault_authority};

verus! {

/// The parameters of `swap_and_bridge`.
#[derive(Clone, Debug)]
pub struct SwapAndBridgeParams {
    /// Unique seed per route, used to derive the vault authority PDA.
    pub route_seed: [u8; 8],
    /// Min amount expected after the swap (slippage guard).
    pub min_amount: u64,
    /// Adapter selector (`0` = Unit, `1` = Across).
    pub adapter_id: u8,
    /// Adapter-specific payload (Borsh-encoded).
    pub adapter_payload: Vec<u8>,
}

/// The bridge adapters.
#[derive(Clone, Copy, Debug, PartialEq, Eq, Structural)]
pub enum Adapter {
    Unit,
    Across,
}

/// The token amount a vault's data holds (bytes 64..72, little-endian), when
/// the data is long enough.
pub open spec fn spec_vault_amount(data: Seq<u8>) -> Option<u64> {
    if data.len() < 72 {
        None
    } else {
        Some(spec_u64_from_le_bytes(data.subrange(64, 72)))
    }
}

/// What `swap_and_bridge` decides before bridging, in order: the vault
/// authority is the PDA of `("vault", route_seed, mint)`, the intermediate vault
/// is its ATA for the mint and token program, its data holds an amount, the
/// amount is non-zero and at least `min_amount`, and the adapter is known.
/// The bump, the amount and the adapter on success.
pub open spec fn spec_swap_and_bridge(
    program_id: Seq<u8>,
    route_seed: Seq<u8>,
    min_amount: u64,
    adapter_id: u8,
    vault_authority: Seq<u8>,
    mint: Seq<u8>,
    token_program: Seq<u8>,
    vault: AccountSnapshot,
) -> Result<(u8, u64, Adapter), RouterError> {
    match program_address_search(vault_seeds(route_seed, mint), program_id) {
        None => Err(RouterError::NoViableProgramAddress),
        Some((authority, bump)) => if authority != vault_authority {
            Err(RouterError::Code(ErrorCode::InvalidVaultAuthority))
        } else {
            match spec_ata_address(authority, mint, token_program) {
                None => Err(RouterError::NoViableProgramAddress),
                Some(ata) => if ata != vault.key@ {
                    Err(RouterError::Code(ErrorCode::InvalidVaultAta))
                } else {
                    match spec_vault_amount(vault.data@) {
                        None => Err(RouterError::Code(ErrorCode::InvalidVaultAccount)),
                        Some(amount) => if amount == 0 {
                            Err(RouterError::Code(ErrorCode::EmptyVault))
                        } else if amount < min_amount {
                            Err(RouterError::Code(ErrorCode::SlippageExceeded))
                        } else if adapter_id == 0 {
                            Ok((bump, amount, Adapter::Unit))
                        } else if adapter_id == 1 {
                            Ok((bump, amount, Adapter::Across))
                        } else {
                            Err(RouterError::Code(ErrorCode::UnknownAdapter))
                        },
                    }
                },
            }
        },
    }
}

/// What `swap_and_bridge` established: the vault authority's bump, the amount
/// to bridge (the whole vault), and the adapter.
#[derive(Clone, Copy, Debug)]
pub struct SwapPlan {
    pub vault_bump: u8,
    pub amount: u64,
    pub adapter: Adapter,
}

/// Steps 1 to 7 of `swap_and_bridge`: the vault checks, the slippage and
/// non-empty guards, and the adapter choice.
pub fn swap_and_bridge(
    program_id: &Pubkey,
    params: &SwapAndBridgeParams,
    vault_authority: &Pubkey,
    mint: &Pubkey,
    token_program: &Pubkey,
    intermediate_vault: &AccountSnapshot,
) -> (r: Result<SwapPlan, RouterError>)
    ensures
        match spec_swap_and_bridge(
            program_id@,
            params.route_seed@,
            params.min_amount,
            params.adapter_id,
            vault_authority@,
            mint@,
            token_program@,
            *intermediate_vault,
        ) {
            Ok((bump, amount, adapter)) => r == Ok::<SwapPlan, RouterError>(
                SwapPlan { vault_bump: bump, amount, adapter },
            ),
            Err(e) => r == Err::<SwapPlan, RouterError>(e),
        },
{
    let (authority, bump) = match find_vault_authority(&params.route_seed, mint, program_id) {
        Some(found) => found,
        None => return Err(RouterError::NoViableProgramAddress),
    };
    if !key_eq(&authority, vault_authority) {
        return Err(RouterError::Code(ErrorCode::InvalidVaultAuthority));
    }
    let expected_vault_ata = match get_associated_token_address_with_program_id(&authority, mint, token_program) {
        Some(k) => k,
        None => return Err(RouterError::NoViableProgramAddress),
    };
    if !key_eq(&expected_vault_ata, &intermediate_vault.key) {
        return Err(RouterError::Code(ErrorCode::InvalidVaultAta));
    }
    if intermediate_vault.data.len() < 72 {
        return Err(RouterError::Code(ErrorCode::InvalidVaultAccount));
    }
    let amount = u64_from_le_bytes(slice_subrange(intermediate_vault.data.as_slice(), 64, 72));
    if amount == 0 {
        return Err(RouterError::Code(ErrorCode::EmptyVault));
    }
    if amount < params.min_amount {
        return Err(RouterError::Code(ErrorCode::SlippageExceeded));
    }
    let adapter = match params.adapter_id {
        0 => Adapter::Unit,
        1 => Adapter::Across,
        _ => return Err(RouterError::Code(ErrorCode::UnknownAdapter)),
    };
    Ok(SwapPlan { vault_bump: bump, amount, adapter })
}

/// The slippage guard holds for every adapter: a plan bridges the vault's
/// whole token amount (bytes 64..72 of its data), which is non-zero and at
/// least `min_amount`, with Unit for adapter id 0 and Across for id 1; a vault
/// holding less than `min_amount` is never bridged, and once the vault
/// authority and its ATA check out, a non-zero amount below `min_amount` is
/// refused as `SlippageExceeded` whatever the adapter id.
pub proof fn law_swap_respects_min_amount(
    program_id: Seq<u8>,
    route_seed: Seq<u8>,
    min_amount: u64,
    adapter_id: u8,
    vault_authority: Seq<u8>,
    mint: Seq<u8>,
    token_program: Seq<u8>,
    vault: AccountSnapshot,
)
    ensures
        spec_swap_and_bridge(program_id, route_seed, min_amount, adapter_id, vault_authority, mint, token_program, vault)
            is Ok ==> {
            let (bump, amount, adapter) = spec_swap_and_bridge(
                program_id,
                route_seed,
                min_amount,
                adapter_id,
                vault_authority,
                mint,
                token_program,
                vault,
            )->Ok_0;
            &&& vault.data@.len() >= 72
            &&& amount == spec_u64_from_le_bytes(vault.data@.subrange(64, 72))
            &&& amount > 0
            &&& amount >= min_amount
            &&& (adapter == Adapter::Unit <==> adapter_id == 0)
            &&& (adapter == Adapter::Across <==> adapter_id == 1)
        },
        vault.data@.len() >= 72 && spec_u64_from_le_bytes(vault.data@.subrange(64, 72)) < min_amount
            ==> spec_swap_and_bridge(
            program_id,
            route_seed,
            min_amount,
            adapter_id,
            vault_authority,
            mint,
            token_program,
            vault,
        ) is Err,
        ({
            let found = program_address_search(vault_seeds(route_seed, mint), program_id);
            let amount = spec_u64_from_le_bytes(vault.data@.subrange(64, 72));
            &&& found is Some
            &&& found->Some_0.0 == vault_authority
            &&& spec_ata_address(vault_authority, mint, token_program) == Some(vault.key@)
            &&& vault.data@.len() >= 72
            &&& 0 < amount < min_amount
        }) ==> spec_swap_and_bridge(
            program_id,
            route_seed,
            min_amount,
            adapter_id,
            vault_authority,
            mint,
            token_program,
            vault,
        ) == Err::<(u8, u64, Adapter), RouterError>(RouterError::Code(ErrorCode::SlippageExceeded)),
{
}

} // verus!
