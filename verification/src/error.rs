//! Why a captured strip did not yield a record.

use vstd::prelude::*;

verus! {

/// The ways in which decoding a capture can fail. None of them is fatal: the
/// capture is dropped and the next one is tried.
#[derive(Clone, Copy, Debug, PartialEq, Eq, Structural)]
pub enum DecodeError {
    /// No pixel value appears at least twice in the header column.
    NoHeaderConsensus,
    /// No pixel value appears at least twice in the data column of this index.
    NoColumnConsensus(u32),
    /// The header declares more bytes than the scanned columns can carry.
    PayloadTooShort,
    /// The payload bytes do not add up to the checksum of the header.
    ChecksumMismatch,
    /// The payload is no record with the two numeric fields.
    MalformedRecord,
}

impl DecodeError {
    /// Whether a fresh capture of the same render may succeed where this one
    /// failed: true of the consensus and length failures, false of a payload
    /// that was read in full and found wrong.
    pub open spec fn transient(self) -> bool {
        self is NoHeaderConsensus || self is NoColumnConsensus || self is PayloadTooShort
    }

    pub fn is_transient(&self) -> (transient: bool)
        ensures
            transient == self.transient(),
    {
        match self {
            DecodeError::NoHeaderConsensus => true,
            DecodeError::NoColumnConsensus(_) => true,
            DecodeError::PayloadTooShort => true,
            DecodeError::ChecksumMismatch => false,
            DecodeError::MalformedRecord => false,
        }
    }

    /// The text that is logged for this failure.
    pub fn message(&self) -> (text: &'static str)
        ensures
            text@ == match *self {
                DecodeError::NoHeaderConsensus => "bad header pixel"@,
                DecodeError::NoColumnConsensus(_) => "FRAME Not at least 2 pixels are the same"@,
                DecodeError::PayloadTooShort => "Pixels missing from image"@,
                DecodeError::ChecksumMismatch => "checksum doesn't match"@,
                DecodeError::MalformedRecord => "record is missing healing or overhealing"@,
            },
    {
        match self {
            DecodeError::NoHeaderConsensus => "bad header pixel",
            DecodeError::NoColumnConsensus(_) => "FRAME Not at least 2 pixels are the same",
            DecodeError::PayloadTooShort => "Pixels missing from image",
            DecodeError::ChecksumMismatch => "checksum doesn't match",
            DecodeError::MalformedRecord => "record is missing healing or overhealing",
        }
    }
}

} // verus!
