//! Transfer headers and transfers.
use vstd::prelude::*;

use crate::ids::{NodeId, Priority, ServiceId, SubjectId, TransferId};
use crate::time::Instant;

verus! {

/// Header fields specific to message transfers
#[derive(Debug, Clone, Copy, PartialEq, Eq, Structural)]
pub struct MessageHeader {
    /// True if the source node has no node ID and the source field holds a pseudo-ID
    pub anonymous: bool,
    /// The subject of the message
    pub subject: SubjectId,
}

/// Header fields specific to service request and response transfers
#[derive(Debug, Clone, Copy, PartialEq, Eq, Structural)]
pub struct ServiceHeader {
    /// The service being requested or responded to
    pub service: ServiceId,
    /// The node the transfer is addressed to
    pub destination: NodeId,
}

/// The kind of a transfer, with the fields specific to that kind
#[derive(Debug, Clone, Copy, PartialEq, Eq, Structural)]
pub enum TransferKindHeader {
    Message(MessageHeader),
    Request(ServiceHeader),
    Response(ServiceHeader),
}

/// The three kinds of transfer
#[derive(Debug, Clone, Copy, PartialEq, Eq, Structural)]
pub enum TransferKind {
    Message,
    Request,
    Response,
}

/// The header of a transfer
#[derive(Debug, Clone, Copy, PartialEq, Eq, Structural)]
pub struct TransferHeader {
    /// The node that sent the transfer (a pseudo-ID for anonymous messages)
    pub source: NodeId,
    /// The transfer priority
    pub priority: Priority,
    /// The kind of transfer and its kind-specific fields
    pub kind: TransferKindHeader,
}

impl TransferKindHeader {
    /// The kind of transfer this header describes
    pub open spec fn spec_kind(self) -> TransferKind {
        match self {
            TransferKindHeader::Message(_) => TransferKind::Message,
            TransferKindHeader::Request(_) => TransferKind::Request,
            TransferKindHeader::Response(_) => TransferKind::Response,
        }
    }

    /// The subject or service ID of this transfer
    pub open spec fn spec_port(self) -> u16 {
        match self {
            TransferKindHeader::Message(m) => m.subject.spec_value(),
            TransferKindHeader::Request(s) => s.service.spec_value(),
            TransferKindHeader::Response(s) => s.service.spec_value(),
        }
    }

    /// Returns the kind of transfer this header describes
    pub fn kind(&self) -> (r: TransferKind)
        ensures
            r == self.spec_kind(),
    {
        match self {
            TransferKindHeader::Message(_) => TransferKind::Message,
            TransferKindHeader::Request(_) => TransferKind::Request,
            TransferKindHeader::Response(_) => TransferKind::Response,
        }
    }

    /// Returns the subject ID (for a message) or service ID (for a request or response)
    pub fn port_id(&self) -> (r: u16)
        ensures
            r == self.spec_port(),
    {
        match self {
            TransferKindHeader::Message(m) => m.subject.to_u16(),
            TransferKindHeader::Request(s) => s.service.to_u16(),
            TransferKindHeader::Response(s) => s.service.to_u16(),
        }
    }
}

impl TransferHeader {
    /// True if this is an anonymous message header
    pub open spec fn spec_is_anonymous(self) -> bool {
        match self.kind {
            TransferKindHeader::Message(m) => m.anonymous,
            _ => false,
        }
    }

    /// Returns true if this is an anonymous message header
    pub fn is_anonymous(&self) -> (r: bool)
        ensures
            r == self.spec_is_anonymous(),
    {
        match self.kind {
            TransferKindHeader::Message(m) => m.anonymous,
            _ => false,
        }
    }
}

/// A transfer: a header, a transfer ID and a payload
///
/// On reception `timestamp` is the time the first frame arrived; on transmission it is the
/// deadline after which the frames are stale.
#[derive(Debug, Clone, PartialEq, Eq)]
pub struct Transfer {
    pub timestamp: Instant,
    pub header: TransferHeader,
    pub transfer_id: TransferId,
    pub payload: Vec<u8>,
}

} // verus!
