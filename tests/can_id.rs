use canadensis::can_id::{make_can_id, parse_can_id, CanId, CanIdParseError};
use canadensis::header::{MessageHeader, ServiceHeader, TransferHeader, TransferKindHeader};
use canadensis::ids::{NodeId, Priority, ServiceId, SubjectId, TransferId};
use canadensis::tail::TailByte;

fn check_can_id(expected_header: TransferHeader, bits: u32) {
    let id = CanId::try_from(bits).unwrap();
    let actual_header = parse_can_id(id).unwrap();
    assert_eq!(actual_header, expected_header);
}

#[test]
fn test_parse_can_id() {
    // Heartbeat
    check_can_id(
        TransferHeader {
            source: NodeId::try_from(42).unwrap(),
            priority: Priority::Nominal,
            kind: TransferKindHeader::Message(MessageHeader {
                anonymous: false,
                subject: SubjectId::try_from(7509).unwrap(),
            }),
        },
        0x107d552a,
    );
    // String primitive
    check_can_id(
        TransferHeader {
            // Anonymous pseudo-ID
            source: NodeId::try_from(0x75).unwrap(),
            priority: Priority::Nominal,
            kind: TransferKindHeader::Message(MessageHeader {
                anonymous: true,
                subject: SubjectId::try_from(4919).unwrap(),
            }),
        },
        0x11733775,
    );
    // Node info request
    check_can_id(
        TransferHeader {
            source: NodeId::try_from(123).unwrap(),
            priority: Priority::Nominal,
            kind: TransferKindHeader::Request(ServiceHeader {
                service: ServiceId::try_from(430).unwrap(),
                destination: NodeId::try_from(42).unwrap(),
            }),
        },
        0x136b957b,
    );
    // Node info response
    check_can_id(
        TransferHeader {
            source: NodeId::try_from(42).unwrap(),
            priority: Priority::Nominal,
            kind: TransferKindHeader::Response(ServiceHeader {
                service: ServiceId::try_from(430).unwrap(),
                destination: NodeId::try_from(123).unwrap(),
            }),
        },
        0x126bbdaa,
    );
    // Array message
    check_can_id(
        TransferHeader {
            source: NodeId::try_from(59).unwrap(),
            priority: Priority::Nominal,
            kind: TransferKindHeader::Message(MessageHeader {
                anonymous: false,
                subject: SubjectId::try_from(4919).unwrap(),
            }),
        },
        0x1073373b,
    );
}

#[test]
fn can_id_build_gives_back_published_examples() {
    for bits in [0x107d552au32, 0x11733775, 0x136b957b, 0x126bbdaa, 0x1073373b] {
        let header = parse_can_id(CanId::try_from(bits).unwrap()).unwrap();
        assert_eq!(make_can_id(&header).to_u32(), bits);
    }
}

#[test]
fn can_id_parse_of_build_round_trip() {
    let header = TransferHeader {
        source: NodeId::try_from(127).unwrap(),
        priority: Priority::Optional,
        kind: TransferKindHeader::Request(ServiceHeader {
            service: ServiceId::try_from(511).unwrap(),
            destination: NodeId::try_from(0).unwrap(),
        }),
    };
    let id = make_can_id(&header);
    assert_eq!(parse_can_id(id).unwrap(), header);
    let message = TransferHeader {
        source: NodeId::try_from(1).unwrap(),
        priority: Priority::Exceptional,
        kind: TransferKindHeader::Message(MessageHeader {
            anonymous: true,
            subject: SubjectId::try_from(8191).unwrap(),
        }),
    };
    assert_eq!(parse_can_id(make_can_id(&message)).unwrap(), message);
}

#[test]
fn can_id_reserved_bit_errors() {
    let bit23 = CanId::try_from(0x107d552a | (1 << 23)).unwrap();
    assert_eq!(parse_can_id(bit23), Err(CanIdParseError::Bit23Set));
    let bit7 = CanId::try_from(0x107d552a | (1 << 7)).unwrap();
    assert_eq!(parse_can_id(bit7), Err(CanIdParseError::Bit7Set));
    // Bit 7 is the low destination bit of a service transfer, not reserved
    assert!(parse_can_id(CanId::try_from(0x126bbdaa).unwrap()).is_ok());
}

#[test]
fn can_id_ignores_bits_21_and_22_on_parse() {
    let cleared = 0x107d552a & !(3 << 21);
    let header = parse_can_id(CanId::try_from(cleared).unwrap()).unwrap();
    assert_eq!(header.source, NodeId::try_from(42).unwrap());
    // Building sets them again
    assert_eq!(make_can_id(&header).to_u32(), 0x107d552a);
}

#[test]
fn can_id_limits() {
    assert!(CanId::try_from(0x1fff_ffff).is_some());
    assert!(CanId::try_from(0x2000_0000).is_none());
    assert!(NodeId::try_from(128).is_none());
    assert!(SubjectId::try_from(8192).is_none());
    assert!(ServiceId::try_from(512).is_none());
    assert!(TransferId::try_from(32).is_none());
    assert!(Priority::try_from(8).is_none());
}

#[test]
fn tail_byte_fields() {
    let tail = TailByte::parse(0xE0);
    assert!(tail.start && tail.end && tail.toggle);
    assert_eq!(tail.transfer_id.to_u8(), 0);
    let tail = TailByte::parse(0b1010_0011);
    assert!(tail.start && !tail.end && tail.toggle);
    assert_eq!(tail.transfer_id.to_u8(), 3);
    assert_eq!(tail.to_u8(), 0b1010_0011);
}

#[test]
fn transfer_id_increment_wraps() {
    let mut id = TransferId::default_id();
    for expected in 0..64u32 {
        assert_eq!(u32::from(id.to_u8()), expected % 32);
        id = id.increment();
    }
}
