//! `TrackV1`: check the clock sysvar and the epoch's tracking account, then log
//! the transaction id.

use vstd::prelude::*;
use crate::keys::{Pubkey, AccountSnapshot, key_eq, CLOCK_SYSVAR_ID};
use vstd::bytes::spec_u64_to_le_bytes;
use crate::outside::{clock_epoch_of, clock_epoch, program_address_search};
use super::error::TrackError;
use super::utils::{
    get_verified_readonly_account, get_unverified_readonly_account, vec_u8to_hex_string,
    epoch_track_account, spec_epoch_track_account, prev_epoch, hex_string,
};

verus! {

/// Input data of `TrackV1`.
#[derive(Clone, Copy, Debug)]
pub struct TrackV1InstructionData {
    /// The unique id of the tracked transaction.
    pub transaction_id: [u8; 8],
}

/// The tracking account must be that of the current or the previous epoch.
pub open spec fn spec_track_account_ok(track_key: Seq<u8>, epoch: u64, program_id: Seq<u8>) -> Result<
    (),
    TrackError,
> {
    match spec_epoch_track_account(epoch, program_id) {
        None => Err(TrackError::NoViableProgramAddress),
        Some(cur) => match spec_epoch_track_account(prev_epoch(epoch), program_id) {
            None => Err(TrackError::NoViableProgramAddress),
            Some(prev) => if track_key != cur && track_key != prev {
                Err(TrackError::InvalidArgument)
            } else {
                Ok(())
            },
        },
    }
}

/// Checks that `track_key` is the tracking account of `epoch` or the epoch before.
pub fn check_track_account(track_key: &Pubkey, epoch: u64, program_id: &Pubkey) -> (r: Result<(), TrackError>)
    ensures
        r == spec_track_account_ok(track_key@, epoch, program_id@),
{
    let current = match epoch_track_account(epoch, program_id) {
        Some(k) => k,
        None => return Err(TrackError::NoViableProgramAddress),
    };
    let previous = match epoch_track_account(epoch.wrapping_sub(1), program_id) {
        Some(k) => k,
        None => return Err(TrackError::NoViableProgramAddress),
    };
    if !key_eq(track_key, &current) && !key_eq(track_key, &previous) {
        return Err(TrackError::InvalidArgument);
    }
    Ok(())
}

/// The line `TrackV1` logs: `LI.FI TX: 0x` and the id in uppercase hex.
pub open spec fn spec_track_log(transaction_id: Seq<u8>) -> Seq<char> {
    "LI.FI TX: 0x"@ + hex_string(transaction_id)
}

/// Renders the log line of a tracked transaction.
pub fn track_log_line(transaction_id: &[u8; 8]) -> (r: String)
    ensures
        r@ == spec_track_log(transaction_id@),
{
    let mut line = String::from_str("LI.FI TX: 0x");
    let hex = vec_u8to_hex_string(transaction_id.as_slice());
    line.append(hex.as_str());
    line
}

/// What `TrackV1` decides, in order: the clock sysvar account (present, the
/// clock's key, read-only), its epoch, the tracking account (present,
/// read-only), and that it is the current or previous epoch's. The epoch on success.
pub open spec fn spec_process_track_v1(program_id: Seq<u8>, accounts: Seq<AccountSnapshot>) -> Result<
    u64,
    TrackError,
> {
    if accounts.len() < 1 {
        Err(TrackError::NotEnoughAccountKeys)
    } else if accounts[0].key@ != CLOCK_SYSVAR_ID@ || accounts[0].is_writable {
        Err(TrackError::InvalidArgument)
    } else {
        match clock_epoch_of(accounts[0].key@, accounts[0].data@) {
            None => Err(TrackError::InvalidArgument),
            Some(epoch) => if accounts.len() < 2 {
                Err(TrackError::NotEnoughAccountKeys)
            } else if accounts[1].is_writable {
                Err(TrackError::InvalidArgument)
            } else {
                match spec_track_account_ok(accounts[1].key@, epoch, program_id) {
                    Err(e) => Err(e),
                    Ok(()) => Ok(epoch),
                }
            },
        }
    }
}

/// Executes `TrackV1`: returns the line to log.
pub fn process_track_v1_instruction(
    program_id: &Pubkey,
    accounts: &[AccountSnapshot],
    instruction_data: &TrackV1InstructionData,
) -> (r: Result<String, TrackError>)
    ensures
        match spec_process_track_v1(program_id@, accounts@) {
            Ok(_) => r matches Ok(s) && s@ == spec_track_log(instruction_data.transaction_id@),
            Err(e) => r == Err::<String, TrackError>(e),
        },
{
    let mut cursor: usize = 0;
    let clock_ix = get_verified_readonly_account(accounts, &mut cursor, &CLOCK_SYSVAR_ID)?;
    let clock = &accounts[clock_ix];
    let epoch = match clock_epoch(&clock.key, clock.data.as_slice()) {
        Some(e) => e,
        None => return Err(TrackError::InvalidArgument),
    };
    let track_ix = get_unverified_readonly_account(accounts, &mut cursor)?;
    check_track_account(&accounts[track_ix].key, epoch, program_id)?;
    Ok(track_log_line(&instruction_data.transaction_id))
}

/// The tracking account binds to the clock: `TrackV1` succeeds only with the
/// clock sysvar first, read-only, and a tracking account that is the program
/// address of the clock's epoch (8 bytes, little-endian) or of the epoch before
/// it; with both addresses found, any other tracking account is refused as
/// `InvalidArgument`.
pub proof fn law_track_account_current_or_previous(program_id: Seq<u8>, accounts: Seq<AccountSnapshot>)
    ensures
        spec_process_track_v1(program_id, accounts) is Ok ==> {
            let epoch = spec_process_track_v1(program_id, accounts)->Ok_0;
            let prev: u64 = if epoch == 0 { u64::MAX } else { (epoch - 1) as u64 };
            let cur_pda = program_address_search(seq![spec_u64_to_le_bytes(epoch)], program_id);
            let prev_pda = program_address_search(seq![spec_u64_to_le_bytes(prev)], program_id);
            &&& accounts.len() >= 2
            &&& accounts[0].key@ == CLOCK_SYSVAR_ID@
            &&& !accounts[0].is_writable
            &&& !accounts[1].is_writable
            &&& clock_epoch_of(accounts[0].key@, accounts[0].data@) == Some(epoch)
            &&& cur_pda is Some
            &&& prev_pda is Some
            &&& (accounts[1].key@ == cur_pda->Some_0.0 || accounts[1].key@ == prev_pda->Some_0.0)
        },
        ({
            let epoch = clock_epoch_of(accounts[0].key@, accounts[0].data@)->Some_0;
            let prev: u64 = if epoch == 0 { u64::MAX } else { (epoch - 1) as u64 };
            let cur_pda = program_address_search(seq![spec_u64_to_le_bytes(epoch)], program_id);
            let prev_pda = program_address_search(seq![spec_u64_to_le_bytes(prev)], program_id);
            &&& accounts.len() >= 2
            &&& accounts[0].key@ == CLOCK_SYSVAR_ID@
            &&& !accounts[0].is_writable
            &&& !accounts[1].is_writable
            &&& clock_epoch_of(accounts[0].key@, accounts[0].data@) is Some
            &&& cur_pda is Some
            &&& prev_pda is Some
            &&& accounts[1].key@ != cur_pda->Some_0.0
            &&& accounts[1].key@ != prev_pda->Some_0.0
        }) ==> spec_process_track_v1(program_id, accounts) == Err::<u64, TrackError>(TrackError::InvalidArgument),
{
}

} // verus!
