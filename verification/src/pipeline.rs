//! One pass of the decode pipeline over a captured strip.

use vstd::prelude::*;
use crate::error::DecodeError;
use crate::frame::{frame_outcome, header_outcome, DecodedFrame, Frame};
use crate::gate::{accepts, SequenceGate};
use crate::raster::Raster;

verus! {

/// How a capture ended.
#[derive(Debug, PartialEq, Eq)]
pub enum CaptureOutcome {
    /// The header repeats the sequence counter of the capture before: the
    /// render has not changed and there is nothing to do.
    Duplicate,
    /// The capture was dropped for this reason.
    Rejected(DecodeError),
    /// The capture held this frame, and its checksum is right.
    Decoded(DecodedFrame),
}

/// Takes a captured strip through the header vote, the sequence gate, the
/// payload scan and the checksum.
///
/// A strip without a readable header leaves `gate` as it was. Any other
/// strip leaves it at the sequence counter of its header, whether or not its
/// payload could be read.
pub fn process_capture(img: Raster, gate: &mut SequenceGate) -> (outcome: CaptureOutcome)
    ensures
        match header_outcome(img@) {
            Err(e) => {
                &&& outcome matches CaptureOutcome::Rejected(f) && f == e
                &&& final(gate).last == old(gate).last
            },
            Ok(header) => {
                &&& final(gate).last == Some(header.sequence)
                &&& if !accepts(old(gate).last, header.sequence) {
                    outcome is Duplicate
                } else {
                    match frame_outcome(img@) {
                        Ok((h, bytes)) => outcome matches CaptureOutcome::Decoded(d) && d.header
                            == h && d.payload@ == bytes,
                        Err(e) => outcome matches CaptureOutcome::Rejected(f) && f == e,
                    }
                }
            },
        },
        outcome matches CaptureOutcome::Decoded(d) ==> d.payload@.len() == d.header.size,
{
    let frame = match Frame::new(img) {
        Ok(frame) => frame,
        Err(e) => {
            return CaptureOutcome::Rejected(e);
        },
    };
    if !gate.accept(frame.clock) {
        return CaptureOutcome::Duplicate;
    }
    match frame.decode() {
        Ok(decoded) => CaptureOutcome::Decoded(decoded),
        Err(e) => CaptureOutcome::Rejected(e),
    }
}

} // verus!
