//! `TrackV1` of the transaction-tracking program: both accounts are taken
//! before the clock is read.

use vstd::prelude::*;
use crate::keys::{Pubkey, AccountSnapshot, CLOCK_SYSVAR_ID};
use vstd::bytes::spec_u64_to_le_bytes;
use crate::outside::{clock_epoch_of, clock_epoch, program_address_search};
use crate::lifi_program_1::error::TrackError;
use crate::lifi_program_1::utils::get_unverified_readonly_account;
use crate::lifi_program_1::track_v1::{check_track_account, spec_track_account_ok, track_log_line, spec_track_log};
use super::utils::get_verified_readonly_account;

verus! {

/// Input data of `TrackV1`.
#[derive(Clone, Copy, Debug)]
pub struct TrackV1InstructionData {
    pub transaction_id: [u8; 8],
}

/// What `TrackV1` decides, in order: the clock sysvar account (present, the
/// clock's key, read-only), the tracking account (present, read-only), the
/// clock's epoch, and that the tracking account is the current or previous
/// epoch's. The epoch on success.
pub open spec fn spec_process_track_v1(program_id: Seq<u8>, accounts: Seq<AccountSnapshot>) -> Result<
    u64,
    TrackError,
> {
    if accounts.len() < 1 {
        Err(TrackError::NotEnoughAccountKeys)
    } else if accounts[0].key@ != CLOCK_SYSVAR_ID@ || accounts[0].is_writable {
        Err(TrackError::InvalidArgument)
    } else if accounts.len() < 2 {
        Err(TrackError::NotEnoughAccountKeys)
    } else if accounts[1].is_writable {
        Err(TrackError::InvalidArgument)
    } else {
        match clock_epoch_of(accounts[0].key@, accounts[0].data@) {
            None => Err(TrackError::InvalidArgument),
            Some(epoch) => match spec_track_account_ok(accounts[1].key@, epoch, program_id) {
                Err(e) => Err(e),
                Ok(()) => Ok(epoch),
            },
        }
    }
}

/// Executes `TrackV1`: returns the line to log.
pub fn process_track_v1_instruction(
    program_id: &Pubkey,
    accounts: &[AccountSnapshot],
    instruction_data: &TrackV1InstructionData,
) -> (r: Result<String, TrackError>)
    ensures
        match spec_process_track_v1(program_id@, accounts@) {
            Ok(_) => r matches Ok(s) && s@ == spec_track_log(instruction_data.transaction_id@),
            Err(e) => r == Err::<String, TrackError>(e),
        },
{
    let mut cursor: usize = 0;
    let clock_ix = get_verified_readonly_account(accounts, &mut cursor, &CLOCK_SYSVAR_ID)?;
    let track_ix = get_unverified_readonly_account(accounts, &mut cursor)?;
    let clock = &accounts[clock_ix];
    let epoch = match clock_epoch(&clock.key, clock.data.as_slice()) {
        Some(e) => e,
        None => return Err(TrackError::InvalidArgument),
    };
    check_track_account(&accounts[track_ix].key, epoch, program_id)?;
    Ok(track_log_line(&instruction_data.transaction_id))
}

/// The tracking account binds to the clock: `TrackV1` succeeds only with the
/// clock sysvar first, read-only, and a tracking account that is the program
/// address of the clock's epoch (8 bytes, little-endian) or of the epoch before
/// it; with both addresses found, any other tracking account is refused as
/// `InvalidArgument`.
pub proof fn law_track_account_current_or_previous(program_id: Seq<u8>, accounts: Seq<AccountSnapshot>)
    ensures
        spec_process_track_v1(program_id, accounts) is Ok ==> {
            let epoch = spec_process_track_v1(program_id, accounts)->Ok_0;
            let prev: u64 = if epoch == 0 { u64::MAX } else { (epoch - 1) as u64 };
            let cur_pda = program_address_search(seq![spec_u64_to_le_bytes(epoch)], program_id);
            let prev_pda = program_address_search(seq![spec_u64_to_le_bytes(prev)], program_id);
            &&& accounts.len() >= 2
            &&& accounts[0].key@ == CLOCK_SYSVAR_ID@
            &&& !accounts[0].is_writable
            &&& !accounts[1].is_writable
            &&& clock_epoch_of(accounts[0].key@, accounts[0].data@) == Some(epoch)
            &&& cur_pda is Some
            &&& prev_pda is Some
            &&& (accounts[1].key@ == cur_pda->Some_0.0 || accounts[1].key@ == prev_pda->Some_0.0)
        },
        ({
            let epoch = clock_epoch_of(accounts[0].key@, accounts[0].data@)->Some_0;
            let prev: u64 = if epoch == 0 { u64::MAX } else { (epoch - 1) as u64 };
            let cur_pda = program_address_search(seq![spec_u64_to_le_bytes(epoch)], program_id);
            let prev_pda = program_address_search(seq![spec_u64_to_le_bytes(prev)], program_id);
            &&& accounts.len() >= 2
            &&& accounts[0].key@ == CLOCK_SYSVAR_ID@
            &&& !accounts[0].is_writable
            &&& !accounts[1].is_writable
            &&& clock_epoch_of(accounts[0].key@, accounts[0].data@) is Some
            &&& cur_pda is Some
            &&& prev_pda is Some
            &&& accounts[1].key@ != cur_pda->Some_0.0
            &&& accounts[1].key@ != prev_pda->Some_0.0
        }) ==> spec_process_track_v1(program_id, accounts) == Err::<u64, TrackError>(TrackError::InvalidArgument),
{
}

} // verus!
