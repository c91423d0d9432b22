use canadensis::can_id::{make_can_id, CanId};
use canadensis::frame::Frame;
use canadensis::header::{MessageHeader, ServiceHeader, TransferHeader, TransferKindHeader};
use canadensis::ids::{NodeId, Priority, ServiceId, SubjectId, TransferId};
use canadensis::rx::{init_rx_sessions, Receiver, Subscription};
use canadensis::time::{Duration, Instant};
use canadensis::tx::{Mtu, Transmitter};

fn at(micros: u64) -> Instant {
    Instant { micros }
}

fn node(n: u8) -> NodeId {
    NodeId::try_from(n).unwrap()
}

fn frame(micros: u64, id: u32, data: &[u8]) -> Frame {
    Frame::new(at(micros), CanId::try_from(id).unwrap(), data.to_vec())
}

fn message_header(source: u8, subject: u16) -> TransferHeader {
    TransferHeader {
        source: node(source),
        priority: Priority::Nominal,
        kind: TransferKindHeader::Message(MessageHeader {
            anonymous: false,
            subject: SubjectId::try_from(subject).unwrap(),
        }),
    }
}

fn transmit(mtu: Mtu, header: TransferHeader, tid: u8, payload: &[u8]) -> Vec<Frame> {
    let mut tx = Transmitter::new(mtu);
    tx.push(at(0), header, TransferId::try_from(tid).unwrap(), payload)
        .unwrap();
    let mut frames = Vec::new();
    while let Some(f) = tx.pop_frame() {
        frames.push(f);
    }
    frames
}

fn retime(frames: &[Frame], micros: u64) -> Vec<Frame> {
    frames
        .iter()
        .map(|f| Frame::new(at(micros), f.id, f.data.clone()))
        .collect()
}

#[test]
fn heartbeat_parse() {
    let mut rx = Receiver::new(node(1));
    rx.subscribe_message(SubjectId::try_from(7509).unwrap(), 7, Duration { micros: 0 })
        .unwrap();
    let data = [0, 0, 0, 0, 0, 0, 0, 0xE0];
    let transfer = rx.accept(frame(10, 0x107d552a, &data)).unwrap().unwrap();
    assert_eq!(transfer.header, message_header(42, 7509));
    assert_eq!(transfer.payload, vec![0u8; 7]);
    assert_eq!(transfer.transfer_id.to_u8(), 0);
    assert_eq!(transfer.timestamp, at(10));
    assert_eq!(rx.transfer_count(), 1);
    assert_eq!(rx.error_count(), 0);
}

#[test]
fn anonymous_string() {
    let mut rx = Receiver::new(node(1));
    rx.subscribe_message(SubjectId::try_from(4919).unwrap(), 64, Duration { micros: 0 })
        .unwrap();
    let data = [0x00, 0x18, b'H', b'e', b'l', b'l', b'o', 0xE0];
    let transfer = rx.accept(frame(0, 0x11733775, &data)).unwrap().unwrap();
    assert_eq!(transfer.header.source, node(0x75));
    assert!(transfer.header.is_anonymous());
    match transfer.header.kind {
        TransferKindHeader::Message(m) => {
            assert!(m.anonymous);
            assert_eq!(m.subject, SubjectId::try_from(4919).unwrap());
        }
        _ => panic!("not a message"),
    }
    assert_eq!(transfer.payload, data[..7].to_vec());
}

#[test]
fn anonymous_multi_frame_is_refused() {
    let mut rx = Receiver::new(node(1));
    rx.subscribe_message(SubjectId::try_from(4919).unwrap(), 64, Duration { micros: 1000 })
        .unwrap();
    // Start of a transfer without the end bit
    let data = [1, 2, 3, 4, 5, 6, 7, 0xA0];
    assert!(rx.accept(frame(0, 0x11733775, &data)).unwrap().is_none());
    assert_eq!(rx.error_count(), 1);
}

#[test]
fn node_info_request() {
    let mut rx = Receiver::new(node(42));
    rx.subscribe_request(ServiceId::try_from(430).unwrap(), 8, Duration { micros: 0 })
        .unwrap();
    let transfer = rx.accept(frame(0, 0x136b957b, &[0xE0])).unwrap().unwrap();
    assert_eq!(
        transfer.header,
        TransferHeader {
            source: node(123),
            priority: Priority::Nominal,
            kind: TransferKindHeader::Request(ServiceHeader {
                service: ServiceId::try_from(430).unwrap(),
                destination: node(42),
            }),
        }
    );
    assert!(transfer.payload.is_empty());
}

#[test]
fn node_info_response() {
    let mut rx = Receiver::new(node(123));
    rx.subscribe_response(ServiceId::try_from(430).unwrap(), 8, Duration { micros: 0 })
        .unwrap();
    let transfer = rx.accept(frame(0, 0x126bbdaa, &[9, 0xE0])).unwrap().unwrap();
    assert_eq!(
        transfer.header,
        TransferHeader {
            source: node(42),
            priority: Priority::Nominal,
            kind: TransferKindHeader::Response(ServiceHeader {
                service: ServiceId::try_from(430).unwrap(),
                destination: node(123),
            }),
        }
    );
    assert_eq!(transfer.payload, vec![9]);
}

#[test]
fn service_transfer_to_other_node_is_dropped() {
    let mut rx = Receiver::new(node(7));
    rx.subscribe_request(ServiceId::try_from(430).unwrap(), 8, Duration { micros: 0 })
        .unwrap();
    assert!(rx.accept(frame(0, 0x136b957b, &[0xE0])).unwrap().is_none());
    assert_eq!(rx.error_count(), 0);
    assert_eq!(rx.transfer_count(), 0);
}

#[test]
fn unsubscribed_frames_are_ignored() {
    let mut rx = Receiver::new(node(1));
    assert!(rx.accept(frame(0, 0x107d552a, &[0xE0])).unwrap().is_none());
    assert_eq!(rx.error_count(), 0);
    rx.subscribe_message(SubjectId::try_from(7509).unwrap(), 8, Duration { micros: 0 })
        .unwrap();
    rx.unsubscribe_message(SubjectId::try_from(7509).unwrap());
    assert!(rx.accept(frame(0, 0x107d552a, &[0xE0])).unwrap().is_none());
    assert_eq!(rx.error_count(), 0);
}

#[test]
fn empty_frame_is_an_error() {
    let mut rx = Receiver::new(node(1));
    assert!(rx.accept(frame(0, 0x107d552a, &[])).unwrap().is_none());
    assert_eq!(rx.error_count(), 1);
}

fn s5_payload() -> Vec<u8> {
    (1..=25).collect()
}

#[test]
fn multi_frame_round_trip() {
    let header = message_header(59, 4919);
    let frames = transmit(Mtu::Can8, header, 3, &s5_payload());
    assert_eq!(frames.len(), 4);
    for f in &frames {
        assert_eq!(f.id.to_u32(), 0x1073373b);
    }
    // Tail bytes: start, toggles and end
    assert_eq!(frames[0].data[7], 0b1010_0011);
    assert_eq!(frames[1].data[7], 0b0000_0011);
    assert_eq!(frames[2].data[7], 0b0010_0011);
    assert_eq!(*frames[3].data.last().unwrap(), 0b0100_0011);
    assert_eq!(frames[3].data.len(), 7);

    let mut rx = Receiver::new(node(1));
    rx.subscribe_message(SubjectId::try_from(4919).unwrap(), 27, Duration { micros: 1000 })
        .unwrap();
    let frames = retime(&frames, 5);
    assert!(rx.accept(frames[0].clone()).unwrap().is_none());
    assert!(rx.accept(frames[1].clone()).unwrap().is_none());
    assert!(rx.accept(frames[2].clone()).unwrap().is_none());
    let transfer = rx.accept(frames[3].clone()).unwrap().unwrap();
    assert_eq!(transfer.payload, s5_payload());
    assert_eq!(transfer.header, header);
    assert_eq!(transfer.transfer_id.to_u8(), 3);
    assert_eq!(rx.error_count(), 0);
}

#[test]
fn multi_frame_with_lost_frame() {
    let header = message_header(59, 4919);
    let frames = retime(&transmit(Mtu::Can8, header, 3, &s5_payload()), 5);
    let mut rx = Receiver::new(node(1));
    rx.subscribe_message(SubjectId::try_from(4919).unwrap(), 27, Duration { micros: 1000 })
        .unwrap();
    assert!(rx.accept(frames[0].clone()).unwrap().is_none());
    assert!(rx.accept(frames[2].clone()).unwrap().is_none());
    assert!(rx.accept(frames[3].clone()).unwrap().is_none());
    assert_eq!(rx.transfer_count(), 0);
    assert_eq!(rx.error_count(), 1);
}

#[test]
fn session_overflow() {
    let header = message_header(59, 4919);
    let payload: Vec<u8> = (0..20).collect();
    let frames = retime(&transmit(Mtu::Can8, header, 0, &payload), 0);
    let mut rx = Receiver::new(node(1));
    rx.subscribe_message(SubjectId::try_from(4919).unwrap(), 10, Duration { micros: 1000 })
        .unwrap();
    for f in &frames {
        assert!(rx.accept(f.clone()).unwrap().is_none());
    }
    assert_eq!(rx.transfer_count(), 0);
    assert_eq!(rx.error_count(), 1);
}

#[test]
fn round_trip_every_mtu() {
    let mtus = [
        Mtu::Can8,
        Mtu::CanFd12,
        Mtu::CanFd16,
        Mtu::CanFd20,
        Mtu::CanFd24,
        Mtu::CanFd32,
        Mtu::CanFd48,
        Mtu::CanFd64,
    ];
    let header = message_header(10, 100);
    for mtu in mtus {
        // Lengths whose last frame needs no padding
        for len in [0usize, 1, mtu.bytes() - 1, 2 * (mtu.bytes() - 1) - 2, 3 * (mtu.bytes() - 1) - 2] {
            let payload: Vec<u8> = (0..len).map(|i| (i * 7 + 3) as u8).collect();
            let frames = retime(&transmit(mtu, header, 5, &payload), 1);
            let mut rx = Receiver::new(node(1));
            rx.subscribe_message(SubjectId::try_from(100).unwrap(), len + 2, Duration { micros: 10 })
                .unwrap();
            let mut got = None;
            for f in frames {
                assert!(f.data.len() <= mtu.bytes());
                if let Some(t) = rx.accept(f).unwrap() {
                    got = Some(t);
                }
            }
            let t = got.unwrap();
            assert_eq!(t.payload, payload);
            assert_eq!(t.header, header);
            assert_eq!(t.transfer_id.to_u8(), 5);
        }
    }
}

#[test]
fn can_fd_padding_reaches_valid_length() {
    // 9 payload bytes and a tail byte in a 64-byte frame: padded to 12 bytes
    let frames = transmit(Mtu::CanFd64, message_header(10, 100), 1, &[7u8; 9]);
    assert_eq!(frames.len(), 1);
    assert_eq!(frames[0].data.len(), 12);
    assert_eq!(&frames[0].data[..9], &[7u8; 9]);
    assert_eq!(&frames[0].data[9..11], &[0, 0]);
    assert_eq!(frames[0].data[11], 0b1110_0001);
}

#[test]
fn toggle_error_drops_transfer() {
    let header = message_header(59, 4919);
    let mut frames = retime(&transmit(Mtu::Can8, header, 3, &s5_payload()), 5);
    // Flip the toggle bit of the second frame
    frames[1].data[7] ^= 0x20;
    let mut rx = Receiver::new(node(1));
    rx.subscribe_message(SubjectId::try_from(4919).unwrap(), 27, Duration { micros: 1000 })
        .unwrap();
    for f in &frames {
        assert!(rx.accept(f.clone()).unwrap().is_none());
    }
    assert_eq!(rx.error_count(), 1);
    assert_eq!(rx.transfer_count(), 0);
}

#[test]
fn crc_error_drops_transfer() {
    let header = message_header(59, 4919);
    for index in 0..7 {
        let mut frames = retime(&transmit(Mtu::Can8, header, 3, &s5_payload()), 5);
        frames[1].data[index] ^= 0x10;
        let mut rx = Receiver::new(node(1));
        rx.subscribe_message(SubjectId::try_from(4919).unwrap(), 27, Duration { micros: 1000 })
            .unwrap();
        for f in &frames {
            assert!(rx.accept(f.clone()).unwrap().is_none());
        }
        assert_eq!(rx.error_count(), 1);
        assert_eq!(rx.transfer_count(), 0);
    }
}

#[test]
fn single_frame_has_no_crc() {
    let header = message_header(59, 4919);
    let frames = transmit(Mtu::Can8, header, 3, &[1, 2, 3, 4, 5, 6, 7]);
    assert_eq!(frames.len(), 1);
    assert_eq!(frames[0].data, vec![1, 2, 3, 4, 5, 6, 7, 0xE3]);
}

#[test]
fn concurrent_sources_do_not_interfere() {
    let a = retime(&transmit(Mtu::Can8, message_header(10, 4919), 1, &s5_payload()), 5);
    let other: Vec<u8> = (100..120).collect();
    let b = retime(&transmit(Mtu::Can8, message_header(11, 4919), 1, &other), 5);
    let mut rx = Receiver::new(node(1));
    rx.subscribe_message(SubjectId::try_from(4919).unwrap(), 27, Duration { micros: 1000 })
        .unwrap();
    let mut done = Vec::new();
    for i in 0..4 {
        if let Some(t) = rx.accept(a[i].clone()).unwrap() {
            done.push(t);
        }
        if let Some(t) = rx.accept(b[i].clone()).unwrap() {
            done.push(t);
        }
    }
    assert_eq!(done.len(), 2);
    assert_eq!(done[0].payload, s5_payload());
    assert_eq!(done[0].header.source, node(10));
    assert_eq!(done[1].payload, other);
    assert_eq!(done[1].header.source, node(11));
    assert_eq!(rx.error_count(), 0);
}

#[test]
fn session_expiry_drops_late_frames() {
    let header = message_header(59, 4919);
    let frames = transmit(Mtu::Can8, header, 3, &s5_payload());
    let mut rx = Receiver::new(node(1));
    rx.subscribe_message(SubjectId::try_from(4919).unwrap(), 27, Duration { micros: 100 })
        .unwrap();
    assert!(rx.accept(retime(&frames[..1], 1000)[0].clone()).unwrap().is_none());
    assert!(rx.accept(retime(&frames[1..2], 1050)[0].clone()).unwrap().is_none());
    // More than the timeout after the first frame: the session is gone, and a frame without
    // the start bit starts nothing
    assert!(rx.accept(retime(&frames[2..3], 1101)[0].clone()).unwrap().is_none());
    assert!(rx.accept(retime(&frames[3..4], 1102)[0].clone()).unwrap().is_none());
    assert_eq!(rx.transfer_count(), 0);
    assert_eq!(rx.error_count(), 0);
    // Within the timeout the transfer completes
    let on_time = retime(&frames, 2000);
    let mut got = None;
    for f in on_time {
        if let Some(t) = rx.accept(f).unwrap() {
            got = Some(t);
        }
    }
    assert_eq!(got.unwrap().payload, s5_payload());
}

#[test]
fn frame_of_other_transfer_is_ignored() {
    let header = message_header(59, 4919);
    let frames = retime(&transmit(Mtu::Can8, header, 3, &s5_payload()), 5);
    let other = retime(&transmit(Mtu::Can8, header, 4, &s5_payload()), 5);
    let mut rx = Receiver::new(node(1));
    rx.subscribe_message(SubjectId::try_from(4919).unwrap(), 27, Duration { micros: 1000 })
        .unwrap();
    assert!(rx.accept(frames[0].clone()).unwrap().is_none());
    // A frame with another transfer ID from the same source changes nothing
    assert!(rx.accept(other[1].clone()).unwrap().is_none());
    for f in &frames[1..] {
        let _ = rx.accept(f.clone()).unwrap();
    }
    assert_eq!(rx.transfer_count(), 1);
    assert_eq!(rx.error_count(), 0);
}

#[test]
fn resubscribe_replaces_subscription() {
    let mut rx = Receiver::new(node(1));
    let subject = SubjectId::try_from(7509).unwrap();
    rx.subscribe_message(subject, 2, Duration { micros: 0 }).unwrap();
    rx.subscribe_message(subject, 7, Duration { micros: 0 }).unwrap();
    let data = [0, 0, 0, 0, 0, 0, 0, 0xE0];
    assert!(rx.accept(frame(0, 0x107d552a, &data)).unwrap().is_some());
}

#[test]
fn header_kind_accessors() {
    let header = message_header(59, 4919);
    assert_eq!(header.kind.port_id(), 4919);
    assert_eq!(make_can_id(&header).to_u32(), 0x1073373b);
}

#[test]
fn can_fd_padding_is_received_as_zero_bytes() {
    // A 9-byte payload in a 64-byte frame is padded to 12 bytes; the receiver keeps the two
    // zero padding bytes as part of the payload
    let header = message_header(10, 100);
    let frames = retime(&transmit(Mtu::CanFd64, header, 2, &[5u8; 9]), 0);
    let mut rx = Receiver::new(node(1));
    rx.subscribe_message(SubjectId::try_from(100).unwrap(), 64, Duration { micros: 0 })
        .unwrap();
    let t = rx.accept(frames[0].clone()).unwrap().unwrap();
    assert_eq!(t.payload, vec![5, 5, 5, 5, 5, 5, 5, 5, 5, 0, 0]);
}

#[test]
fn instant_arithmetic_saturates() {
    assert_eq!(at(10).duration_since(at(4)), Duration { micros: 6 });
    assert_eq!(at(4).duration_since(at(10)), Duration { micros: 0 });
    assert_eq!(at(4).add_duration(Duration { micros: 6 }), at(10));
    assert_eq!(at(u64::MAX - 1).add_duration(Duration { micros: 6 }), at(u64::MAX));
}

#[test]
fn subscription_session_slots() {
    assert_eq!(init_rx_sessions().len(), 128);
    assert!(init_rx_sessions().iter().all(|s| s.is_none()));
    let mut sub = Subscription::new(Duration { micros: 5 }, 10, 7509);
    assert!(sub
        .create_session(node(3), at(1), TransferId::try_from(4).unwrap())
        .is_ok());
    sub.destroy_session(node(3));
}
