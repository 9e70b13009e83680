//! The runtime errors the tracking programs return.

use vstd::prelude::*;

verus! {

/// A tracking-program failure, as the runtime error it becomes: an account
/// missing from the list, a wrong or writable account, undecodable instruction
/// data, or the (practically unreachable) case where no program address exists
/// for an epoch, on which the runtime's address search panics.
#[derive(Clone, Copy, Debug, PartialEq, Eq, Structural)]
pub enum TrackError {
    NotEnoughAccountKeys,
    InvalidArgument,
    InvalidInstructionData,
    NoViableProgramAddress,
}

} // verus!
