//! The program's entry: decode the instruction data (one variant byte, then its
//! fields, nothing after), then run the instruction.

use vstd::prelude::*;
use crate::keys::{Pubkey, AccountSnapshot};
use super::error::TrackError;
use super::track_v1::{TrackV1InstructionData, process_track_v1_instruction, spec_process_track_v1, spec_track_log};

verus! {

/// The program's instructions.
#[derive(Clone, Copy, Debug)]
pub enum InstructionData {
    TrackV1(TrackV1InstructionData),
}

/// The bytes of an instruction: variant `0`, then the 8-byte transaction id.
pub open spec fn spec_encode_instruction(ix: InstructionData) -> Seq<u8> {
    match ix {
        InstructionData::TrackV1(d) => seq![0u8] + d.transaction_id@,
    }
}

/// What the decoder accepts: exactly variant `0` and 8 bytes.
pub open spec fn spec_decode_instruction(data: Seq<u8>) -> Option<Seq<u8>> {
    if data.len() == 9 && data[0] == 0 {
        Some(data.subrange(1, 9))
    } else {
        None
    }
}

/// Decodes instruction data; anything but a variant byte `0` followed by
/// exactly 8 bytes is refused.
pub fn decode_instruction_data(data: &[u8]) -> (r: Option<InstructionData>)
    ensures
        match spec_decode_instruction(data@) {
            Some(id) => r matches Some(InstructionData::TrackV1(d)) && d.transaction_id@ == id,
            None => r is None,
        },
{
    if data.len() != 9 || data[0] != 0 {
        return None;
    }
    let mut id = [0u8; 8];
    let mut i: usize = 0;
    while i < 8
        invariant
            0 <= i <= 8,
            data@.len() == 9,
            forall|j: int| 0 <= j < i ==> id@[j] == data@[1 + j],
        decreases 8 - i,
    {
        id[i] = data[1 + i];
        i += 1;
    }
    assert(id@ =~= data@.subrange(1, 9));
    Some(InstructionData::TrackV1(TrackV1InstructionData { transaction_id: id }))
}

/// Encodes an instruction as the decoder reads it.
pub fn encode_instruction_data(ix: &InstructionData) -> (r: Vec<u8>)
    ensures
        r@ == spec_encode_instruction(*ix),
{
    match ix {
        InstructionData::TrackV1(d) => {
            let mut out: Vec<u8> = Vec::new();
            out.push(0u8);
            crate::keys::push_all(&mut out, d.transaction_id.as_slice());
            out
        },
    }
}

/// Decoding an encoded instruction gives it back.
pub proof fn law_decode_of_encode(ix: InstructionData)
    ensures
        spec_decode_instruction(spec_encode_instruction(ix)) == Some(
            match ix {
                InstructionData::TrackV1(d) => d.transaction_id@,
            },
        ),
{
    match ix {
        InstructionData::TrackV1(d) => {
            let b = spec_encode_instruction(ix);
            assert(b.subrange(1, 9) =~= d.transaction_id@);
        },
    }
}

/// Accepted bytes are the encoding of what they decode to.
pub proof fn law_encode_of_decode(data: Seq<u8>)
    requires
        spec_decode_instruction(data) is Some,
    ensures
        seq![0u8] + spec_decode_instruction(data)->Some_0 == data,
{
    assert(seq![0u8] + data.subrange(1, 9) =~= data);
}

/// The program's entry: undecodable data is `InvalidInstructionData`; a
/// `TrackV1` returns the line to log.
pub fn process_instruction(program_id: &Pubkey, accounts: &[AccountSnapshot], instruction_data: &[u8]) -> (r: Result<
    String,
    TrackError,
>)
    ensures
        match spec_decode_instruction(instruction_data@) {
            None => r == Err::<String, TrackError>(TrackError::InvalidInstructionData),
            Some(id) => match spec_process_track_v1(program_id@, accounts@) {
                Ok(_) => r matches Ok(s) && s@ == spec_track_log(id),
                Err(e) => r == Err::<String, TrackError>(e),
            },
        },
{
    match decode_instruction_data(instruction_data) {
        Some(InstructionData::TrackV1(data)) => process_track_v1_instruction(program_id, accounts, &data),
        None => Err(TrackError::InvalidInstructionData),
    }
}

} // verus!
