//! CAN frames and the allocation error shared by the transmit and receive paths.
use vstd::prelude::*;

use crate::can_id::CanId;
use crate::time::Instant;

verus! {

/// A CAN or CAN FD frame
///
/// The last data byte is the tail byte. On reception the timestamp is the time the frame
/// arrived; on transmission it is the deadline after which the frame is stale.
#[derive(Debug, Clone, PartialEq, Eq)]
pub struct Frame {
    pub timestamp: Instant,
    pub id: CanId,
    pub data: Vec<u8>,
}

impl Frame {
    /// Creates a frame
    pub fn new(timestamp: Instant, id: CanId, data: Vec<u8>) -> (r: Frame)
        ensures
            r.timestamp == timestamp,
            r.id == id,
            r.data@ == data@,
    {
        Frame { timestamp, id, data }
    }

    /// Returns the frame timestamp
    pub fn timestamp(&self) -> (r: Instant)
        ensures
            r == self.timestamp,
    {
        self.timestamp
    }

    /// Returns the CAN ID
    pub fn id(&self) -> (r: CanId)
        ensures
            r == self.id,
    {
        self.id
    }

    /// Returns the frame data, tail byte included
    pub fn data(&self) -> (r: &[u8])
        ensures
            r@ == self.data@,
    {
        self.data.as_slice()
    }
}

/// An error indicating that memory could not be allocated
#[derive(Debug, Clone, Copy, PartialEq, Eq, Structural)]
pub struct OutOfMemoryError;

} // verus!
