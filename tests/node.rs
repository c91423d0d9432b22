use canadensis::bounded_map::{BoundedMap, CapacityError};
use canadensis::can_id::{parse_can_id, CanId};
use canadensis::filter::{request_filter, response_filter, subject_filter, Filter};
use canadensis::frame::Frame;
use canadensis::header::{Transfer, TransferKindHeader};
use canadensis::ids::{NodeId, Priority, ServiceId, SubjectId, TransferId};
use canadensis::node::{
    route_transfer, CapacityOrMemoryError, Clock, Incoming, Node, Responder, TransferHandler,
};
use canadensis::publish::{
    make_pseudo_id, AnonymousPublishError, AnonymousPublisher, Publisher, Requester,
    ResponseToken,
};
use canadensis::time::{Duration, Instant};
use canadensis::tx::{Mtu, Transmitter};

struct FixedClock(u64);

impl Clock for FixedClock {
    fn now(&mut self) -> Instant {
        Instant { micros: self.0 }
    }
}

#[derive(Default)]
struct Recorder {
    messages: Vec<Transfer>,
    requests: Vec<Transfer>,
    responses: Vec<Transfer>,
}

impl TransferHandler<FixedClock> for Recorder {
    fn handle_message(&mut self, transfer: Transfer) {
        self.messages.push(transfer);
    }

    fn handle_request(
        &mut self,
        transfer: Transfer,
        token: ResponseToken,
        mut responder: Responder<'_, FixedClock>,
    ) {
        responder
            .send_response(token, Duration { micros: 100 }, &[0xAB])
            .unwrap();
        self.requests.push(transfer);
    }

    fn handle_response(&mut self, transfer: Transfer) {
        self.responses.push(transfer);
    }
}

fn nid(n: u8) -> NodeId {
    NodeId::try_from(n).unwrap()
}

fn frames_of(tx: &mut Transmitter) -> Vec<Frame> {
    let mut frames = Vec::new();
    while let Some(f) = tx.pop_frame() {
        frames.push(f);
    }
    frames
}

#[test]
fn publisher_transfer_ids_count_modulo_32() {
    let mut publisher = Publisher::new(nid(5), Duration { micros: 10 }, Priority::High);
    let mut tx = Transmitter::new(Mtu::Can8);
    let subject = SubjectId::try_from(100).unwrap();
    for _ in 0..70 {
        publisher
            .publish(Instant { micros: 1 }, subject, &[1, 2], &mut tx)
            .unwrap();
    }
    let frames = frames_of(&mut tx);
    assert_eq!(frames.len(), 70);
    for (i, f) in frames.iter().enumerate() {
        assert_eq!((f.data[2] & 0x1f) as usize, i % 32);
        assert_eq!(f.timestamp, Instant { micros: 11 });
    }
}

#[test]
fn requester_counts_per_destination() {
    let mut requester = Requester::new(nid(5), Duration { micros: 0 }, Priority::Nominal);
    let mut tx = Transmitter::new(Mtu::Can8);
    let service = ServiceId::try_from(430).unwrap();
    requester
        .send(Instant { micros: 0 }, service, &[], nid(1), &mut tx)
        .unwrap();
    requester
        .send(Instant { micros: 0 }, service, &[], nid(1), &mut tx)
        .unwrap();
    requester
        .send(Instant { micros: 0 }, service, &[], nid(2), &mut tx)
        .unwrap();
    let tids: Vec<u8> = frames_of(&mut tx).iter().map(|f| f.data[0] & 0x1f).collect();
    assert_eq!(tids, vec![0, 1, 0]);
}

#[test]
fn anonymous_publisher_rejects_long_payload() {
    let mut publisher = AnonymousPublisher::new(Priority::Nominal, SubjectId::try_from(4919).unwrap());
    let mut tx = Transmitter::new(Mtu::Can8);
    assert_eq!(
        publisher.send_payload(&[0; 8], Instant { micros: 0 }, &mut tx),
        Err(AnonymousPublishError::TooLong)
    );
    assert!(tx.frames().is_empty());
    publisher
        .send_payload(&[1, 2, 3], Instant { micros: 0 }, &mut tx)
        .unwrap();
    let frames = frames_of(&mut tx);
    assert_eq!(frames.len(), 1);
    let header = parse_can_id(frames[0].id).unwrap();
    assert!(header.is_anonymous());
    assert_eq!(header.source, make_pseudo_id(&[1, 2, 3]));
}

#[test]
fn pseudo_id_is_deterministic_and_not_reserved() {
    // 37 ^ 1 ^ 2 ^ 3 = 37
    assert_eq!(make_pseudo_id(&[1, 2, 3]).to_u8(), 37);
    assert_eq!(make_pseudo_id(&[]).to_u8(), 37);
    // 37 ^ 0x5a = 0x7f, reserved: steps down to 125
    assert_eq!(make_pseudo_id(&[0x5a]).to_u8(), 125);
    // 37 ^ 0xdb = 0xfe, low bits 126, reserved: steps down to 125
    assert_eq!(make_pseudo_id(&[0xdb]).to_u8(), 125);
    for b in 0..=255u8 {
        let id = make_pseudo_id(&[b, 9]);
        assert!(!id.is_diagnostic_reserved());
        assert_eq!(id, make_pseudo_id(&[b, 9]));
    }
}

#[test]
fn bounded_map_capacity_and_duplicates() {
    let mut map: BoundedMap<u8, 2> = BoundedMap::new();
    assert_eq!(map.insert(1, 10), Ok(()));
    assert_eq!(map.insert(1, 11), Err(CapacityError));
    assert_eq!(map.insert(2, 20), Ok(()));
    assert_eq!(map.insert(3, 30), Err(CapacityError));
    assert_eq!(map.len(), 2);
    assert_eq!(map.get(1), Some(&10));
    map.remove(1);
    assert!(!map.contains_key(1));
    assert_eq!(map.insert(3, 30), Ok(()));
    map.set(3, 31);
    assert_eq!(map.get(3), Some(&31));
}

#[test]
fn node_publisher_capacity() {
    let mut n: Node<FixedClock, Recorder, 2, 1> =
        Node::new(FixedClock(0), Recorder::default(), nid(9), Mtu::Can8);
    let a = SubjectId::try_from(1).unwrap();
    let b = SubjectId::try_from(2).unwrap();
    let c = SubjectId::try_from(3).unwrap();
    assert!(n.start_publishing_topic(a, Duration { micros: 0 }, Priority::Low).is_ok());
    assert!(n.start_publishing_topic(a, Duration { micros: 0 }, Priority::Low).is_err());
    assert!(n.start_publishing_topic(b, Duration { micros: 0 }, Priority::Low).is_ok());
    assert!(n.start_publishing_topic(c, Duration { micros: 0 }, Priority::Low).is_err());
    let s = ServiceId::try_from(10).unwrap();
    let t = ServiceId::try_from(11).unwrap();
    assert!(n.start_sending_requests(s, Duration { micros: 0 }, 8, Priority::Low).is_ok());
    assert!(matches!(
        n.start_sending_requests(t, Duration { micros: 0 }, 8, Priority::Low),
        Err(CapacityOrMemoryError::Capacity(_))
    ));
}

#[test]
fn node_publishes_and_dispatches() {
    let mut n: Node<FixedClock, Recorder, 4, 4> =
        Node::new(FixedClock(50), Recorder::default(), nid(42), Mtu::Can8);
    let token = n
        .start_publishing_topic(SubjectId::try_from(7509).unwrap(), Duration { micros: 5 }, Priority::Nominal)
        .unwrap();
    n.publish_to_topic(&token, &[0; 7]).unwrap();
    n.publish_to_topic(&token, &[0; 7]).unwrap();
    let frames = frames_of(n.transmitter_mut());
    assert_eq!(frames.len(), 2);
    assert_eq!(frames[0].id.to_u32(), 0x107d552a);
    assert_eq!(frames[0].data, vec![0, 0, 0, 0, 0, 0, 0, 0xE0]);
    assert_eq!(frames[1].data[7], 0xE1);
    assert_eq!(frames[0].timestamp, Instant { micros: 55 });

    // A node-info request to this node is handed to the handler, which responds
    n.subscribe_request(ServiceId::try_from(430).unwrap(), 8, Duration { micros: 0 })
        .unwrap();
    let request = Frame::new(Instant { micros: 60 }, CanId::try_from(0x136b957b).unwrap(), vec![0xE4]);
    n.accept_frame(request).unwrap();
    let response = frames_of(n.transmitter_mut());
    assert_eq!(response.len(), 1);
    let header = parse_can_id(response[0].id).unwrap();
    assert_eq!(header.source, nid(42));
    match header.kind {
        TransferKindHeader::Response(s) => {
            assert_eq!(s.service, ServiceId::try_from(430).unwrap());
            assert_eq!(s.destination, nid(123));
        }
        _ => panic!("not a response"),
    }
    // Same transfer ID as the request
    assert_eq!(response[0].data, vec![0xAB, 0xE4]);
    assert_eq!(response[0].timestamp, Instant { micros: 150 });

    // A message is handed to the handler too
    n.subscribe_message(SubjectId::try_from(7509).unwrap(), 7, Duration { micros: 0 })
        .unwrap();
    let message = Frame::new(Instant { micros: 70 }, CanId::try_from(0x107d552a).unwrap(), vec![1, 0xE0]);
    n.accept_frame(message).unwrap();
    assert_eq!(n.receiver().transfer_count(), 2);
}

#[test]
fn node_requests_and_responses() {
    let mut n: Node<FixedClock, Recorder, 1, 1> =
        Node::new(FixedClock(0), Recorder::default(), nid(123), Mtu::Can8);
    let service = ServiceId::try_from(430).unwrap();
    let token = n
        .start_sending_requests(service, Duration { micros: 100 }, 8, Priority::Nominal)
        .unwrap();
    n.send_request(&token, &[], nid(42)).unwrap();
    let frames = frames_of(n.transmitter_mut());
    assert_eq!(frames.len(), 1);
    assert_eq!(frames[0].id.to_u32(), 0x136b957b);
    // The response subscription was made
    let response = Frame::new(Instant { micros: 1 }, CanId::try_from(0x126bbdaa).unwrap(), vec![0xE0]);
    n.accept_frame(response).unwrap();
    assert_eq!(n.receiver().transfer_count(), 1);
}

#[test]
fn response_keeps_request_transfer_id() {
    let mut tx = Transmitter::new(Mtu::Can8);
    let token = ResponseToken::new(
        ServiceId::try_from(430).unwrap(),
        nid(123),
        TransferId::try_from(17).unwrap(),
        Priority::Nominal,
    );
    canadensis::publish::send_response_payload(nid(42), token, Instant { micros: 0 }, &[], &mut tx)
        .unwrap();
    let frames = frames_of(&mut tx);
    assert_eq!(frames[0].id.to_u32(), 0x126bbdaa);
    assert_eq!(frames[0].data, vec![0xE0 | 17]);
}

#[test]
fn subject_filter_accepts_only_its_subject() {
    let f = subject_filter(SubjectId::try_from(7509).unwrap());
    assert_eq!(f.mask(), 0b0_0010_1001_1111_1111_1111_1000_0000);
    assert_eq!(f.id(), 0b0_0000_0110_0000_0000_0000_0000_0000 | (7509 << 8));
    assert!(f.accepts(0x107d552a));
    assert!(!f.accepts(0x1073373b));
    assert!(!f.accepts(0x136b957b));
    // Anonymous messages on the subject are accepted too
    assert!(f.accepts(0x107d552a | (1 << 24)));
}

#[test]
fn service_filters_accept_only_their_kind() {
    let service = ServiceId::try_from(430).unwrap();
    let request = request_filter(service, nid(42));
    assert!(request.accepts(0x136b957b));
    assert!(!request.accepts(0x126bbdaa));
    let response = response_filter(service, nid(123));
    assert!(response.accepts(0x126bbdaa));
    assert!(!response.accepts(0x136b957b));
    assert!(!response.accepts(0x107d552a));
}

#[test]
fn filter_truncates_to_29_bits() {
    let f = Filter::new(0xffff_ffff, 0xffff_ffff);
    assert_eq!(f.mask(), 0x1fff_ffff);
    assert_eq!(f.id(), 0x1fff_ffff);
}

#[test]
fn node_stop_publishing_frees_a_slot() {
    let mut n: Node<FixedClock, Recorder, 2, 2> =
        Node::new(FixedClock(0), Recorder::default(), nid(9), Mtu::Can8);
    assert_eq!(n.node_id(), nid(9));
    let a = n
        .start_publishing_topic(SubjectId::try_from(1).unwrap(), Duration { micros: 0 }, Priority::Low)
        .unwrap();
    let _b = n
        .start_publishing_topic(SubjectId::try_from(2).unwrap(), Duration { micros: 0 }, Priority::Low)
        .unwrap();
    let c = SubjectId::try_from(3).unwrap();
    assert!(n.start_publishing_topic(c, Duration { micros: 0 }, Priority::Low).is_err());
    n.stop_publishing_topic(a);
    assert!(n.start_publishing_topic(c, Duration { micros: 0 }, Priority::Low).is_ok());
    let s = n
        .start_sending_requests(ServiceId::try_from(5).unwrap(), Duration { micros: 0 }, 8, Priority::Low)
        .unwrap();
    n.stop_sending_requests(s);
    assert!(n
        .start_sending_requests(ServiceId::try_from(5).unwrap(), Duration { micros: 0 }, 8, Priority::Low)
        .is_ok());
}

#[test]
fn capacity_or_memory_error_from() {
    assert_eq!(
        CapacityOrMemoryError::from(CapacityError),
        CapacityOrMemoryError::Capacity(CapacityError)
    );
    assert_eq!(
        CapacityOrMemoryError::from(canadensis::frame::OutOfMemoryError),
        CapacityOrMemoryError::OutOfMemory(canadensis::frame::OutOfMemoryError)
    );
}

#[test]
fn node_reports_publishers_and_requesters() {
    let mut n: Node<FixedClock, Recorder, 2, 2> =
        Node::new(FixedClock(0), Recorder::default(), nid(9), Mtu::Can8);
    let a = n
        .start_publishing_topic(SubjectId::try_from(1).unwrap(), Duration { micros: 0 }, Priority::Low)
        .unwrap();
    assert!(n.has_publisher(&a));
    let s = n
        .start_sending_requests(ServiceId::try_from(5).unwrap(), Duration { micros: 0 }, 8, Priority::Low)
        .unwrap();
    assert!(n.has_requester(&s));
    n.stop_publishing_topic(a);
    n.stop_sending_requests(s);
    assert_eq!(n.responder().send_response(
        ResponseToken::new(ServiceId::try_from(5).unwrap(), nid(3), TransferId::try_from(1).unwrap(), Priority::Low),
        Duration { micros: 0 },
        &[],
    ), Ok(()));
    assert_eq!(n.transmitter().frames().len(), 1);
}

#[test]
fn duplicate_requester_leaves_receiver_alone() {
    let mut n: Node<FixedClock, Recorder, 4, 4> =
        Node::new(FixedClock(0), Recorder::default(), nid(9), Mtu::Can8);
    let service = ServiceId::try_from(5).unwrap();
    n.start_sending_requests(service, Duration { micros: 0 }, 8, Priority::Low)
        .unwrap();
    assert!(matches!(
        n.start_sending_requests(service, Duration { micros: 0 }, 8, Priority::Low),
        Err(CapacityOrMemoryError::Capacity(_))
    ));
}

#[test]
fn route_transfer_sorts_by_kind_and_makes_token() {
    let header = parse_can_id(CanId::try_from(0x136b957b).unwrap()).unwrap();
    let transfer = Transfer {
        timestamp: Instant { micros: 3 },
        header,
        transfer_id: TransferId::try_from(9).unwrap(),
        payload: vec![1, 2],
    };
    match route_transfer(transfer.clone()) {
        Incoming::Request(t, token) => {
            assert_eq!(t, transfer);
            let mut tx = Transmitter::new(Mtu::Can8);
            canadensis::publish::send_response_payload(nid(42), token, Instant { micros: 0 }, &[], &mut tx)
                .unwrap();
            let frames = frames_of(&mut tx);
            // The response goes back to node 123 on service 430 with transfer ID 9
            assert_eq!(frames[0].id.to_u32(), 0x126bbdaa);
            assert_eq!(frames[0].data, vec![0xE0 | 9]);
        }
        _ => panic!("not a request"),
    }
    let message = Transfer {
        timestamp: Instant { micros: 3 },
        header: parse_can_id(CanId::try_from(0x107d552a).unwrap()).unwrap(),
        transfer_id: TransferId::try_from(0).unwrap(),
        payload: vec![],
    };
    assert!(matches!(route_transfer(message), Incoming::Message(_)));
    let response = Transfer {
        timestamp: Instant { micros: 3 },
        header: parse_can_id(CanId::try_from(0x126bbdaa).unwrap()).unwrap(),
        transfer_id: TransferId::try_from(0).unwrap(),
        payload: vec![],
    };
    assert!(matches!(route_transfer(response), Incoming::Response(_)));
}

#[test]
fn node_hands_each_kind_to_its_handler() {
    let mut n: Node<FixedClock, Recorder, 1, 1> =
        Node::new(FixedClock(0), Recorder::default(), nid(42), Mtu::Can8);
    n.subscribe_message(SubjectId::try_from(7509).unwrap(), 8, Duration { micros: 0 })
        .unwrap();
    n.subscribe_request(ServiceId::try_from(430).unwrap(), 8, Duration { micros: 0 })
        .unwrap();
    n.start_sending_requests(ServiceId::try_from(430).unwrap(), Duration { micros: 0 }, 8, Priority::Nominal)
        .unwrap();
    n.accept_frame(Frame::new(Instant { micros: 1 }, CanId::try_from(0x107d552a).unwrap(), vec![0xE0]))
        .unwrap();
    n.accept_frame(Frame::new(Instant { micros: 1 }, CanId::try_from(0x136b957b).unwrap(), vec![0xE1]))
        .unwrap();
    // A response addressed to node 42 from node 123
    let response_id = 0x126bbdaa & !0x3fff | (42 << 7) | 123;
    n.accept_frame(Frame::new(Instant { micros: 1 }, CanId::try_from(response_id).unwrap(), vec![0xE2]))
        .unwrap();
    assert_eq!(n.receiver().transfer_count(), 3);
    assert_eq!(n.handler().messages.len(), 1);
    assert_eq!(n.handler().requests.len(), 1);
    assert_eq!(n.handler().responses.len(), 1);
    assert_eq!(n.handler().requests[0].transfer_id.to_u8(), 1);
    assert_eq!(n.handler().responses[0].transfer_id.to_u8(), 2);
}
