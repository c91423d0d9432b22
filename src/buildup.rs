//! Reassembly of one transfer from the data of its frames.
use vstd::prelude::*;

use crate::fallible::try_extend_from_slice;
use crate::ids::TransferId;
use crate::tail::TailByte;

verus! {

/// Reasons a transfer cannot be reassembled; each ends the reassembly
#[derive(Debug, Clone, Copy, PartialEq, Eq, Structural)]
pub enum BuildupError {
    /// Memory for the payload could not be allocated
    OutOfMemory,
    /// A frame had the wrong toggle bit (a frame was lost, duplicated or reordered)
    InvalidToggle,
    /// The first frame did not have the start-of-transfer bit set
    InvalidStart,
}

/// Reassembly state of one transfer
#[derive(Debug)]
pub(crate) struct Buildup {
    /// The transfer ID of every frame in this transfer
    pub(crate) transfer_id: TransferId,
    /// The toggle bit that the next frame must have
    pub(crate) expected_toggle: bool,
    /// The number of frames accepted so far (saturating)
    pub(crate) frames: usize,
    /// The payload bytes accepted so far, without tail bytes
    pub(crate) bytes: Vec<u8>,
}

/// What `Buildup::add` does with a frame, given the state before it: the error it fails with,
/// if it is one that does not depend on memory
pub(crate) open spec fn buildup_rejects(b: Buildup, tail: TailByte) -> Option<BuildupError> {
    if b.frames == 0 && !tail.start {
        Some(BuildupError::InvalidStart)
    } else if tail.toggle != b.expected_toggle {
        Some(BuildupError::InvalidToggle)
    } else {
        None
    }
}

impl Buildup {
    /// Creates a reassembly state for a transfer with the provided ID
    pub(crate) fn new(transfer_id: TransferId) -> (r: Buildup)
        ensures
            r.transfer_id == transfer_id,
            r.expected_toggle,
            r.frames == 0,
            r.bytes@ == Seq::<u8>::empty(),
    {
        Buildup { transfer_id, expected_toggle: true, frames: 0, bytes: Vec::new() }
    }

    /// Returns the transfer ID
    pub(crate) fn transfer_id(&self) -> (r: TransferId)
        ensures
            r == self.transfer_id,
    {
        self.transfer_id
    }

    /// Returns the number of payload bytes accepted so far
    pub(crate) fn payload_length(&self) -> (r: usize)
        ensures
            r == self.bytes@.len(),
    {
        self.bytes.len()
    }

    /// Returns the number of frames accepted so far
    pub(crate) fn frames(&self) -> (r: usize)
        ensures
            r == self.frames,
    {
        self.frames
    }

    /// Handles the data of one frame, tail byte included
    ///
    /// Returns the payload, without tail bytes, when this is the last frame of the transfer.
    pub(crate) fn add(&mut self, frame_data: &[u8]) -> (r: Result<Option<Vec<u8>>, BuildupError>)
        requires
            frame_data@.len() >= 1,
            TailByte::spec_parse(frame_data@.last()).transfer_id == old(self).transfer_id,
        ensures
            final(self).transfer_id == old(self).transfer_id,
            ({
                let tail = TailByte::spec_parse(frame_data@.last());
                let appended = old(self).bytes@ + frame_data@.drop_last();
                match buildup_rejects(*old(self), tail) {
                    Some(e) => r == Err::<Option<Vec<u8>>, BuildupError>(e),
                    None => match r {
                        Err(e) => e == BuildupError::OutOfMemory,
                        Ok(done) => {
                            &&& final(self).frames == (if old(self).frames < usize::MAX {
                                old(self).frames + 1
                            } else {
                                old(self).frames as int
                            })
                            &&& final(self).expected_toggle == !old(self).expected_toggle
                            &&& tail.end ==> (done matches Some(v) && v@ == appended)
                            &&& !tail.end ==> (done is None && final(self).bytes@ == appended)
                        },
                    },
                }
            }),
    {
        let last = frame_data.len() - 1;
        let tail = TailByte::parse(frame_data[last]);
        if self.frames == 0 && !tail.start {
            return Err(BuildupError::InvalidStart);
        }
        if tail.toggle != self.expected_toggle {
            return Err(BuildupError::InvalidToggle);
        }
        let (payload, _) = frame_data.split_at(last);
        assert(payload@ == frame_data@.drop_last());
        match try_extend_from_slice(&mut self.bytes, payload) {
            Ok(()) => {},
            Err(_) => return Err(BuildupError::OutOfMemory),
        }
        self.expected_toggle = !self.expected_toggle;
        self.frames = self.frames.saturating_add(1);
        if tail.end {
            let mut done: Vec<u8> = Vec::new();
            core::mem::swap(&mut done, &mut self.bytes);
            Ok(Some(done))
        } else {
            Ok(None)
        }
    }
}

} // verus!
