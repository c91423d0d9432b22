//! Hardware acceptance filters: a mask of the CAN ID bits to compare, and the values they must
//! have.
use vstd::prelude::*;

use crate::can_id::{spec_parse_can_id, CAN_ID_MASK};
use crate::header::TransferKindHeader;
use crate::ids::{NodeId, ServiceId, SubjectId};

verus! {

/// Mask of the subject filter: service flag, bit 23, subject ID and bit 7
pub const SUBJECT_FILTER_MASK: u32 = 0b0_0010_1001_1111_1111_1111_1000_0000;

/// Mask of the request and response filters: service and request flags, bit 23, service ID and
/// destination
pub const SERVICE_FILTER_MASK: u32 = 0b0_0011_1111_1111_1111_1111_1000_0000;

/// A mask-based filter for extended CAN IDs
///
/// A filter accepts an ID if `(id & mask) == (filter_id & mask)`. The mask and ID are kept to
/// 29 bits.
#[derive(Debug, Clone, Copy, PartialEq, Eq, Structural)]
pub struct Filter {
    pub(crate) mask: u32,
    pub(crate) id: u32,
}

impl Filter {
    /// The mask of this filter
    pub open(crate) spec fn spec_mask(self) -> u32 {
        self.mask
    }

    /// The ID of this filter
    pub open(crate) spec fn spec_id(self) -> u32 {
        self.id
    }

    /// True if this filter accepts a CAN ID
    pub open(crate) spec fn spec_accepts(self, id: u32) -> bool {
        self.mask & id == self.mask & self.id
    }

    /// Creates a filter, truncating the mask and ID to 29 bits
    pub fn new(mask: u32, id: u32) -> (r: Filter)
        ensures
            r.spec_mask() == mask & CAN_ID_MASK,
            r.spec_id() == id & CAN_ID_MASK,
    {
        Filter { mask: mask & CAN_ID_MASK, id: id & CAN_ID_MASK }
    }

    /// Returns the mask of bits that this filter compares
    pub fn mask(&self) -> (r: u32)
        ensures
            r == self.spec_mask(),
    {
        self.mask
    }

    /// Returns the CAN ID that this filter (partially) matches
    pub fn id(&self) -> (r: u32)
        ensures
            r == self.spec_id(),
    {
        self.id
    }

    /// Returns true if this filter accepts a CAN ID
    pub fn accepts(&self, id: u32) -> (r: bool)
        ensures
            r == self.spec_accepts(id),
    {
        self.mask & id == self.mask & self.id
    }
}

/// The filter that matches message transfers on one subject
pub open(crate) spec fn spec_subject_filter(subject: SubjectId) -> Filter {
    Filter {
        mask: SUBJECT_FILTER_MASK,
        id: 0b0_0000_0110_0000_0000_0000_0000_0000u32 | ((subject.spec_value() as u32) << 8u32),
    }
}

/// The filter that matches service requests (`request`) or responses for one service to one
/// node
pub open(crate) spec fn spec_service_filter(service: ServiceId, node: NodeId, request: bool) -> Filter {
    Filter {
        mask: SERVICE_FILTER_MASK,
        id: (if request {
            0b0_0011_0000_0000_0000_0000_0000_0000u32
        } else {
            0b0_0010_0000_0000_0000_0000_0000_0000u32
        }) | ((service.spec_value() as u32) << 14u32) | ((node.spec_value() as u32) << 7u32),
    }
}

/// Returns a filter that matches message transfers on one subject
///
/// Priority, anonymity and source node may be anything.
pub fn subject_filter(subject: SubjectId) -> (r: Filter)
    ensures
        r == spec_subject_filter(subject),
{
    let s = subject.to_u16() as u32;
    let m_id: u32 = 0b0_0000_0110_0000_0000_0000_0000_0000u32 | (s << 8u32);
    assert(SUBJECT_FILTER_MASK & CAN_ID_MASK == SUBJECT_FILTER_MASK) by (bit_vector);
    assert(m_id & CAN_ID_MASK == m_id) by (bit_vector)
        requires
            m_id == 0b0_0000_0110_0000_0000_0000_0000_0000u32 | (s << 8u32),
            s <= 8191,
    ;
    Filter::new(SUBJECT_FILTER_MASK, m_id)
}

/// Returns a filter that matches service request transfers for one service to one node
///
/// Priority and source node may be anything.
pub fn request_filter(service: ServiceId, client: NodeId) -> (r: Filter)
    ensures
        r == spec_service_filter(service, client, true),
{
    let s = service.to_u16() as u32;
    let c = client.to_u8() as u32;
    let m_id: u32 = 0b0_0011_0000_0000_0000_0000_0000_0000u32 | (s << 14u32) | (c << 7u32);
    assert(SERVICE_FILTER_MASK & CAN_ID_MASK == SERVICE_FILTER_MASK) by (bit_vector);
    assert(m_id & CAN_ID_MASK == m_id) by (bit_vector)
        requires
            m_id == 0b0_0011_0000_0000_0000_0000_0000_0000u32 | (s << 14u32) | (c << 7u32),
            s <= 511,
            c <= 127,
    ;
    Filter::new(SERVICE_FILTER_MASK, m_id)
}

/// Returns a filter that matches service response transfers for one service to one node
///
/// Priority and source node may be anything.
pub fn response_filter(service: ServiceId, server: NodeId) -> (r: Filter)
    ensures
        r == spec_service_filter(service, server, false),
{
    let s = service.to_u16() as u32;
    let c = server.to_u8() as u32;
    let m_id: u32 = 0b0_0010_0000_0000_0000_0000_0000_0000u32 | (s << 14u32) | (c << 7u32);
    assert(SERVICE_FILTER_MASK & CAN_ID_MASK == SERVICE_FILTER_MASK) by (bit_vector);
    assert(m_id & CAN_ID_MASK == m_id) by (bit_vector)
        requires
            m_id == 0b0_0010_0000_0000_0000_0000_0000_0000u32 | (s << 14u32) | (c << 7u32),
            s <= 511,
            c <= 127,
    ;
    Filter::new(SERVICE_FILTER_MASK, m_id)
}

/// Every CAN ID that the subject filter of `subject` accepts is a message on that subject.
pub proof fn lemma_subject_filter_sound(subject: SubjectId, bits: u32)
    requires
        subject.spec_value() <= 8191,
        spec_subject_filter(subject).spec_accepts(bits),
    ensures
        spec_parse_can_id(bits) matches Ok(h) && h.kind matches TransferKindHeader::Message(m)
            && m.subject == subject,
{
    let s = subject.spec_value() as u32;
    assert((bits >> 23u32) & 1 != 1 && (bits >> 25u32) & 1 != 1 && (bits >> 7u32) & 1 != 1 && (
    bits >> 8u32) & 0x1fff == s) by (bit_vector)
        requires
            s <= 8191,
            (SUBJECT_FILTER_MASK & bits) == (SUBJECT_FILTER_MASK & (
            0b0_0000_0110_0000_0000_0000_0000_0000u32 | (s << 8u32))),
    ;
}

/// Every CAN ID that the request filter of `service` and `client` accepts is a request for that
/// service addressed to that node.
pub proof fn lemma_request_filter_sound(service: ServiceId, client: NodeId, bits: u32)
    requires
        service.spec_value() <= 511,
        client.spec_value() <= 127,
        spec_service_filter(service, client, true).spec_accepts(bits),
    ensures
        spec_parse_can_id(bits) matches Ok(h) && h.kind matches TransferKindHeader::Request(sh)
            && sh.service == service && sh.destination == client,
{
    let s = service.spec_value() as u32;
    let c = client.spec_value() as u32;
    assert((bits >> 23u32) & 1 != 1 && (bits >> 25u32) & 1 == 1 && (bits >> 24u32) & 1 == 1 && (
    bits >> 14u32) & 0x1ff == s && (bits >> 7u32) & 0x7f == c) by (bit_vector)
        requires
            s <= 511,
            c <= 127,
            (SERVICE_FILTER_MASK & bits) == (SERVICE_FILTER_MASK & (
            0b0_0011_0000_0000_0000_0000_0000_0000u32 | (s << 14u32) | (c << 7u32))),
    ;
}

/// Every CAN ID that the response filter of `service` and `server` accepts is a response from
/// that service addressed to that node.
pub proof fn lemma_response_filter_sound(service: ServiceId, server: NodeId, bits: u32)
    requires
        service.spec_value() <= 511,
        server.spec_value() <= 127,
        spec_service_filter(service, server, false).spec_accepts(bits),
    ensures
        spec_parse_can_id(bits) matches Ok(h) && h.kind matches TransferKindHeader::Response(sh)
            && sh.service == service && sh.destination == server,
{
    let s = service.spec_value() as u32;
    let c = server.spec_value() as u32;
    assert((bits >> 23u32) & 1 != 1 && (bits >> 25u32) & 1 == 1 && (bits >> 24u32) & 1 != 1 && (
    bits >> 14u32) & 0x1ff == s && (bits >> 7u32) & 0x7f == c) by (bit_vector)
        requires
            s <= 511,
            c <= 127,
            (SERVICE_FILTER_MASK & bits) == (SERVICE_FILTER_MASK & (
            0b0_0010_0000_0000_0000_0000_0000_0000u32 | (s << 14u32) | (c << 7u32))),
    ;
}

} // verus!
