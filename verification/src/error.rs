//! Error taxonomy for the oracle core.

use vstd::prelude::*;

verus! {

/// A failure while decoding a fixed-layout value from bytes.
#[derive(Clone, Copy, Debug, PartialEq, Eq, Structural)]
pub enum DecodeError {
    /// The buffer is shorter than the fixed encoded length.
    Truncated,
    /// A tag byte holds a value that no variant uses.
    UnknownVariant,
}

/// A failure of a processor-level operation.
#[derive(Clone, Copy, Debug, PartialEq, Eq, Structural)]
pub enum OracleError {
    /// A codec failure, carried up unchanged.
    Decode(DecodeError),
    /// Every slot of the request queue is occupied.
    QueueFull,
    /// The account buffer cannot be read as a request queue.
    InvalidAccountData,
    /// The inbound instruction bytes carry no recognizable instruction.
    InvalidInstructionData,
}

} // verus!
