//! The transaction-tracking program's entry.

use vstd::prelude::*;
use crate::keys::{Pubkey, AccountSnapshot};
use crate::lifi_program_1::error::TrackError;
use crate::lifi_program_1::processor::spec_decode_instruction;
use crate::lifi_program_1::track_v1::spec_track_log;
use super::track_v1::{TrackV1InstructionData, process_track_v1_instruction, spec_process_track_v1};

verus! {

/// The program's instructions.
#[derive(Clone, Copy, Debug)]
pub enum TrackingInstructionData {
    TrackV1(TrackV1InstructionData),
}

/// Decodes instruction data; anything but a variant byte `0` followed by
/// exactly 8 bytes is refused.
pub fn decode_tracking_instruction(data: &[u8]) -> (r: Option<TrackingInstructionData>)
    ensures
        match spec_decode_instruction(data@) {
            Some(id) => r matches Some(TrackingInstructionData::TrackV1(d)) && d.transaction_id@ == id,
            None => r is None,
        },
{
    if data.len() != 9 || data[0] != 0 {
        return None;
    }
    let mut id = [0u8; 8];
    let mut i: usize = 0;
    while i < 8
        invariant
            0 <= i <= 8,
            data@.len() == 9,
            forall|j: int| 0 <= j < i ==> id@[j] == data@[1 + j],
        decreases 8 - i,
    {
        id[i] = data[1 + i];
        i += 1;
    }
    assert(id@ =~= data@.subrange(1, 9));
    Some(TrackingInstructionData::TrackV1(TrackV1InstructionData { transaction_id: id }))
}

/// The program's entry: undecodable data is `InvalidInstructionData`; a
/// `TrackV1` returns the line to log.
pub fn process_instruction(program_id: &Pubkey, accounts: &[AccountSnapshot], instruction_data: &[u8]) -> (r: Result<
    String,
    TrackError,
>)
    ensures
        match spec_decode_instruction(instruction_data@) {
            None => r == Err::<String, TrackError>(TrackError::InvalidInstructionData),
            Some(id) => match spec_process_track_v1(program_id@, accounts@) {
                Ok(_) => r matches Ok(s) && s@ == spec_track_log(id),
                Err(e) => r == Err::<String, TrackError>(e),
            },
        },
{
    match decode_tracking_instruction(instruction_data) {
        Some(TrackingInstructionData::TrackV1(data)) => process_track_v1_instruction(program_id, accounts, &data),
        None => Err(TrackError::InvalidInstructionData),
    }
}

} // verus!
