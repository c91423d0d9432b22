//! The 29-bit CAN identifier: building it from a transfer header and parsing it back.
use vstd::prelude::*;

use crate::header::{MessageHeader, ServiceHeader, TransferHeader, TransferKindHeader};
use crate::ids::{NodeId, Priority, ServiceId, SubjectId};

verus! {

/// Mask of the 29 bits of an extended CAN identifier
pub const CAN_ID_MASK: u32 = 0x1fff_ffff;

/// An extended (29-bit) CAN identifier
#[derive(Debug, Clone, Copy, PartialEq, Eq, Structural)]
pub struct CanId {
    pub(crate) bits: u32,
}

impl CanId {
    #[verifier::type_invariant]
    pub(crate) open spec fn inv(self) -> bool {
        self.bits <= CAN_ID_MASK
    }

    /// The integer value of this identifier
    pub open(crate) spec fn spec_bits(self) -> u32 {
        self.bits
    }

    /// Creates a CAN ID, returning `None` if the value does not fit into 29 bits
    pub fn try_from(bits: u32) -> (r: Option<CanId>)
        ensures
            r is Some <==> bits <= CAN_ID_MASK,
            r matches Some(id) ==> id.spec_bits() == bits,
    {
        if bits <= CAN_ID_MASK {
            Some(CanId { bits })
        } else {
            None
        }
    }

    /// Returns the integer value of this identifier
    pub fn to_u32(self) -> (r: u32)
        ensures
            r == self.spec_bits(),
            r <= CAN_ID_MASK,
    {
        proof {
            use_type_invariant(&self);
        }
        self.bits
    }
}

/// Errors that make a CAN ID unusable as a transfer identifier
#[derive(Debug, Clone, Copy, PartialEq, Eq, Structural)]
pub enum CanIdParseError {
    /// Reserved bit 23 was set
    Bit23Set,
    /// On a message header, reserved bit 7 was set
    Bit7Set,
}

/// True if bit `offset` of `bits` is 1
pub open spec fn bit_of(bits: u32, offset: u32) -> bool {
    (bits >> offset) & 1 == 1
}

/// True if a header's fields are all within their ranges
pub open(crate) spec fn header_wf(h: TransferHeader) -> bool {
    &&& h.source.value <= 127
    &&& match h.kind {
        TransferKindHeader::Message(m) => m.subject.value <= 8191,
        TransferKindHeader::Request(s) => s.service.value <= 511 && s.destination.value <= 127,
        TransferKindHeader::Response(s) => s.service.value <= 511 && s.destination.value <= 127,
    }
}

/// The CAN ID bits of a transfer header
///
/// Messages: priority in 26..=28, anonymous flag in 24, reserved bits 21 and 22 set, subject in
/// 8..=20, source in 0..=6. Services: priority in 26..=28, bit 25 set, bit 24 set for a request,
/// service in 14..=22, destination in 7..=13, source in 0..=6.
pub open(crate) spec fn spec_can_id_bits(h: TransferHeader) -> u32 {
    let prio = (h.priority.spec_value() as u32) << 26u32;
    let source = h.source.value as u32;
    match h.kind {
        TransferKindHeader::Message(m) => prio | (if m.anonymous {
            1u32 << 24u32
        } else {
            0u32
        }) | (3u32 << 21u32) | ((m.subject.value as u32) << 8u32) | source,
        TransferKindHeader::Request(s) => prio | (1u32 << 25u32) | (1u32 << 24u32) | ((
        s.service.value as u32) << 14u32) | ((s.destination.value as u32) << 7u32) | source,
        TransferKindHeader::Response(s) => prio | (1u32 << 25u32) | ((s.service.value as u32)
            << 14u32) | ((s.destination.value as u32) << 7u32) | source,
    }
}

/// The priority encoded in bits 26..=28
pub open(crate) spec fn priority_of_bits(p: u32) -> Priority {
    if p == 0 {
        Priority::Exceptional
    } else if p == 1 {
        Priority::Immediate
    } else if p == 2 {
        Priority::Fast
    } else if p == 3 {
        Priority::High
    } else if p == 4 {
        Priority::Nominal
    } else if p == 5 {
        Priority::Low
    } else if p == 6 {
        Priority::Slow
    } else {
        Priority::Optional
    }
}

/// The header that a CAN ID describes, or the reserved bit that makes it unusable
///
/// Bits 21 and 22 are ignored, and so are bits 29..=31.
pub open(crate) spec fn spec_parse_can_id(bits: u32) -> Result<TransferHeader, CanIdParseError> {
    let source = NodeId { value: (bits & 0x7f) as u8 };
    let priority = priority_of_bits((bits >> 26u32) & 7);
    if bit_of(bits, 23) {
        Err(CanIdParseError::Bit23Set)
    } else if bit_of(bits, 25) {
        let sh = ServiceHeader {
            service: ServiceId { value: ((bits >> 14u32) & 0x1ff) as u16 },
            destination: NodeId { value: ((bits >> 7u32) & 0x7f) as u8 },
        };
        Ok(
            TransferHeader {
                source,
                priority,
                kind: if bit_of(bits, 24) {
                    TransferKindHeader::Request(sh)
                } else {
                    TransferKindHeader::Response(sh)
                },
            },
        )
    } else if bit_of(bits, 7) {
        Err(CanIdParseError::Bit7Set)
    } else {
        Ok(
            TransferHeader {
                source,
                priority,
                kind: TransferKindHeader::Message(
                    MessageHeader {
                        anonymous: bit_of(bits, 24),
                        subject: SubjectId { value: ((bits >> 8u32) & 0x1fff) as u16 },
                    },
                ),
            },
        )
    }
}

/// True if a 29-bit value is exactly the CAN ID of some header: reserved bit 23 clear, and for
/// messages reserved bit 7 clear and reserved bits 21 and 22 set
pub open(crate) spec fn is_canonical_can_id(bits: u32) -> bool {
    &&& bits <= CAN_ID_MASK
    &&& !bit_of(bits, 23)
    &&& !bit_of(bits, 25) ==> (!bit_of(bits, 7) && bit_of(bits, 21) && bit_of(bits, 22))
}

/// Returns true if bit `offset` of `bits` is set
fn bit_set(bits: u32, offset: u32) -> (r: bool)
    requires
        offset < 32,
    ensures
        r == bit_of(bits, offset),
{
    ((bits >> offset) & 1) == 1
}

/// Parses a CAN ID into a transfer header
pub fn parse_can_id(id: CanId) -> (r: Result<TransferHeader, CanIdParseError>)
    ensures
        r == spec_parse_can_id(id.spec_bits()),
{
    let bits = id.to_u32();
    if bit_set(bits, 23) {
        return Err(CanIdParseError::Bit23Set);
    }
    // Bits 21 and 22 are ignored

    let p = (bits >> 26u32) & 7;
    assert(p <= 7) by (bit_vector)
        requires
            p == (bits >> 26u32) & 7,
    ;
    let priority = match Priority::try_from(p as u8) {
        Some(priority) => priority,
        None => {
            assert(false);
            Priority::Optional
        },
    };
    let source_bits = bits & 0x7f;
    assert(source_bits <= 127) by (bit_vector)
        requires
            source_bits == bits & 0x7f,
    ;
    let source = NodeId { value: source_bits as u8 };
    if bit_set(bits, 25) {
        // Service
        let service_bits = (bits >> 14u32) & 0x1ff;
        let destination_bits = (bits >> 7u32) & 0x7f;
        assert(service_bits <= 511 && destination_bits <= 127) by (bit_vector)
            requires
                service_bits == (bits >> 14u32) & 0x1ff,
                destination_bits == (bits >> 7u32) & 0x7f,
        ;
        let service_header = ServiceHeader {
            service: ServiceId { value: service_bits as u16 },
            destination: NodeId { value: destination_bits as u8 },
        };
        let kind = if bit_set(bits, 24) {
            TransferKindHeader::Request(service_header)
        } else {
            TransferKindHeader::Response(service_header)
        };
        Ok(TransferHeader { source, priority, kind })
    } else {
        // Message
        if bit_set(bits, 7) {
            return Err(CanIdParseError::Bit7Set);
        }
        let subject_bits = (bits >> 8u32) & 0x1fff;
        assert(subject_bits <= 8191) by (bit_vector)
            requires
                subject_bits == (bits >> 8u32) & 0x1fff,
        ;
        let message_header = MessageHeader {
            anonymous: bit_set(bits, 24),
            subject: SubjectId { value: subject_bits as u16 },
        };
        Ok(TransferHeader { source, priority, kind: TransferKindHeader::Message(message_header) })
    }
}

/// Builds the CAN ID of a transfer header
pub fn make_can_id(header: &TransferHeader) -> (r: CanId)
    ensures
        r.spec_bits() == spec_can_id_bits(*header),
{
    let prio = header.priority.to_u8() as u32;
    let source = header.source.to_u8() as u32;
    let bits = match header.kind {
        TransferKindHeader::Message(m) => {
            let subject = m.subject.to_u16() as u32;
            let anon: u32 = if m.anonymous {
                1u32 << 24u32
            } else {
                0u32
            };
            assert((prio << 26u32) | anon | (3u32 << 21u32) | (subject << 8u32) | source
                <= 0x1fff_ffff) by (bit_vector)
                requires
                    prio <= 7,
                    anon == 0 || anon == 1u32 << 24u32,
                    subject <= 8191,
                    source <= 127,
            ;
            (prio << 26u32) | anon | (3u32 << 21u32) | (subject << 8u32) | source
        },
        TransferKindHeader::Request(s) => {
            let service = s.service.to_u16() as u32;
            let destination = s.destination.to_u8() as u32;
            assert((prio << 26u32) | (1u32 << 25u32) | (1u32 << 24u32) | (service << 14u32) | (
            destination << 7u32) | source <= 0x1fff_ffff) by (bit_vector)
                requires
                    prio <= 7,
                    service <= 511,
                    destination <= 127,
                    source <= 127,
            ;
            (prio << 26u32) | (1u32 << 25u32) | (1u32 << 24u32) | (service << 14u32) | (
            destination << 7u32) | source
        },
        TransferKindHeader::Response(s) => {
            let service = s.service.to_u16() as u32;
            let destination = s.destination.to_u8() as u32;
            assert((prio << 26u32) | (1u32 << 25u32) | (service << 14u32) | (destination
                << 7u32) | source <= 0x1fff_ffff) by (bit_vector)
                requires
                    prio <= 7,
                    service <= 511,
                    destination <= 127,
                    source <= 127,
            ;
            (prio << 26u32) | (1u32 << 25u32) | (service << 14u32) | (destination << 7u32)
                | source
        },
    };
    CanId { bits }
}

/// Parsing the CAN ID of any header whose fields are in range gives back that header.
pub proof fn lemma_parse_of_build(h: TransferHeader)
    requires
        header_wf(h),
    ensures
        spec_parse_can_id(spec_can_id_bits(h)) == Ok::<TransferHeader, CanIdParseError>(h),
{
    let bits = spec_can_id_bits(h);
    let p = h.priority.spec_value() as u32;
    let source = h.source.value as u32;
    match h.kind {
        TransferKindHeader::Message(m) => {
            let subject = m.subject.value as u32;
            let anon: u32 = if m.anonymous {
                1u32 << 24u32
            } else {
                0u32
            };
            assert(bits == (p << 26u32) | anon | (3u32 << 21u32) | (subject << 8u32) | source);
            assert(((bits >> 26u32) & 7 == p) && !bit_of(bits, 23) && !bit_of(bits, 25)
                && !bit_of(bits, 7) && (bits & 0x7f == source) && ((bits >> 8u32) & 0x1fff
                == subject) && (bit_of(bits, 24) == (anon != 0))) by (bit_vector)
                requires
                    bits == (p << 26u32) | anon | (3u32 << 21u32) | (subject << 8u32) | source,
                    p <= 7,
                    anon == 0 || anon == 1u32 << 24u32,
                    subject <= 8191,
                    source <= 127,
            ;
            assert(anon != 0 <==> m.anonymous) by {
                assert(1u32 << 24u32 != 0) by (bit_vector);
            }
        },
        TransferKindHeader::Request(s) => {
            let service = s.service.value as u32;
            let destination = s.destination.value as u32;
            assert(((bits >> 26u32) & 7 == p) && !bit_of(bits, 23) && bit_of(bits, 25) && bit_of(
                bits,
                24,
            ) && (bits & 0x7f == source) && ((bits >> 14u32) & 0x1ff == service) && ((bits
                >> 7u32) & 0x7f == destination)) by (bit_vector)
                requires
                    bits == (p << 26u32) | (1u32 << 25u32) | (1u32 << 24u32) | (service << 14u32)
                        | (destination << 7u32) | source,
                    p <= 7,
                    service <= 511,
                    destination <= 127,
                    source <= 127,
            ;
        },
        TransferKindHeader::Response(s) => {
            let service = s.service.value as u32;
            let destination = s.destination.value as u32;
            assert(((bits >> 26u32) & 7 == p) && !bit_of(bits, 23) && bit_of(bits, 25) && !bit_of(
                bits,
                24,
            ) && (bits & 0x7f == source) && ((bits >> 14u32) & 0x1ff == service) && ((bits
                >> 7u32) & 0x7f == destination)) by (bit_vector)
                requires
                    bits == (p << 26u32) | (1u32 << 25u32) | (service << 14u32) | (destination
                        << 7u32) | source,
                    p <= 7,
                    service <= 511,
                    destination <= 127,
                    source <= 127,
            ;
        },
    }
}

/// Building the CAN ID of the header parsed from a canonical 29-bit value gives back that value.
pub proof fn lemma_build_of_parse(bits: u32)
    requires
        is_canonical_can_id(bits),
    ensures
        spec_parse_can_id(bits) is Ok,
        spec_can_id_bits(spec_parse_can_id(bits)->Ok_0) == bits,
{
    let h = spec_parse_can_id(bits)->Ok_0;
    let p = (bits >> 26u32) & 7;
    assert(p <= 7) by (bit_vector)
        requires
            p == (bits >> 26u32) & 7,
    ;
    assert(h.priority.spec_value() as u32 == p);
    let source = bits & 0x7f;
    assert(source <= 127 && (source as u8) as u32 == source) by (bit_vector)
        requires
            source == bits & 0x7f,
    ;
    if bit_of(bits, 25) {
        let service = (bits >> 14u32) & 0x1ff;
        let destination = (bits >> 7u32) & 0x7f;
        assert(service <= 511 && (service as u16) as u32 == service && destination <= 127 && (
        destination as u8) as u32 == destination) by (bit_vector)
            requires
                service == (bits >> 14u32) & 0x1ff,
                destination == (bits >> 7u32) & 0x7f,
        ;
        if bit_of(bits, 24) {
            assert((p << 26u32) | (1u32 << 25u32) | (1u32 << 24u32) | (service << 14u32) | (
            destination << 7u32) | source == bits) by (bit_vector)
                requires
                    bits <= 0x1fff_ffff,
                    p == (bits >> 26u32) & 7,
                    service == (bits >> 14u32) & 0x1ff,
                    destination == (bits >> 7u32) & 0x7f,
                    source == bits & 0x7f,
                    (bits >> 25u32) & 1 == 1,
                    (bits >> 24u32) & 1 == 1,
                    (bits >> 23u32) & 1 != 1,
            ;
        } else {
            assert((p << 26u32) | (1u32 << 25u32) | (service << 14u32) | (destination << 7u32)
                | source == bits) by (bit_vector)
                requires
                    bits <= 0x1fff_ffff,
                    p == (bits >> 26u32) & 7,
                    service == (bits >> 14u32) & 0x1ff,
                    destination == (bits >> 7u32) & 0x7f,
                    source == bits & 0x7f,
                    (bits >> 25u32) & 1 == 1,
                    (bits >> 24u32) & 1 != 1,
                    (bits >> 23u32) & 1 != 1,
            ;
        }
    } else {
        let subject = (bits >> 8u32) & 0x1fff;
        assert(subject <= 8191 && (subject as u16) as u32 == subject) by (bit_vector)
            requires
                subject == (bits >> 8u32) & 0x1fff,
        ;
        let anon: u32 = if bit_of(bits, 24) {
            1u32 << 24u32
        } else {
            0u32
        };
        assert((p << 26u32) | anon | (3u32 << 21u32) | (subject << 8u32) | source == bits)
            by (bit_vector)
            requires
                bits <= 0x1fff_ffff,
                p == (bits >> 26u32) & 7,
                subject == (bits >> 8u32) & 0x1fff,
                source == bits & 0x7f,
                (bits >> 25u32) & 1 != 1,
                (bits >> 23u32) & 1 != 1,
                (bits >> 7u32) & 1 != 1,
                (bits >> 21u32) & 1 == 1,
                (bits >> 22u32) & 1 == 1,
                ((bits >> 24u32) & 1 == 1) ==> anon == 1u32 << 24u32,
                ((bits >> 24u32) & 1 != 1) ==> anon == 0,
        ;
    }
}

} // verus!
