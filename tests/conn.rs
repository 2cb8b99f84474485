use bytes::Bytes;
use gargoyle::conn::{
    handshake_preamble, is_handshake_ack, start_api_message, step, ConnAction, ConnEvent,
    ConnState, Dispatch, Router,
};
use gargoyle::messages::{TWSIncommingMessage, TWSIncommingMessageImpl};

fn decoded(fields: &[&str]) -> TWSIncommingMessageImpl {
    let m = TWSIncommingMessage::from_decoded_message(
        fields.iter().map(|s| Bytes::from(s.to_string())).collect(),
    )
    .unwrap();
    match m.get_msg() {
        TWSIncommingMessageImpl::TickSize { msg_version, req_id, tick_type, size } => {
            TWSIncommingMessageImpl::TickSize {
                msg_version: *msg_version,
                req_id: *req_id,
                tick_type: *tick_type,
                size: *size,
            }
        }
        TWSIncommingMessageImpl::NextValidId { msg_version, order_id } => {
            TWSIncommingMessageImpl::NextValidId { msg_version: *msg_version, order_id: *order_id }
        }
        _ => panic!("unexpected message"),
    }
}

#[test]
fn preamble_and_start_message() {
    assert_eq!(handshake_preamble(), b"API\0\0\0\0\x09v151..151".to_vec());
    assert_eq!(
        start_api_message(),
        vec![Bytes::from("71"), Bytes::from("2"), Bytes::from("0"), Bytes::new(), Bytes::new()]
    );
    assert!(is_handshake_ack(&vec![Bytes::from("151"), Bytes::from("20210309 22:54:30 CET")]));
    assert!(!is_handshake_ack(&vec![Bytes::from("15"), Bytes::from("1")]));
    assert!(!is_handshake_ack(&vec![]));
}

#[test]
fn handshake_then_ready_then_closed() {
    let (s, a) = step(ConnState::Connecting, ConnEvent::Connected);
    assert_eq!((s, a), (ConnState::Handshaking, ConnAction::SendPreamble));
    let (s, a) = step(s, ConnEvent::Frame { ack: false });
    assert_eq!((s, a), (ConnState::Handshaking, ConnAction::ReadNext));
    let (s, a) = step(s, ConnEvent::Frame { ack: true });
    assert_eq!((s, a), (ConnState::Ready, ConnAction::SendStart));
    let (s, a) = step(s, ConnEvent::DecodeFailed);
    assert_eq!((s, a), (ConnState::Ready, ConnAction::SkipFrame));
    let (s, a) = step(s, ConnEvent::Frame { ack: false });
    assert_eq!((s, a), (ConnState::Ready, ConnAction::Dispatch));
    let (s, a) = step(s, ConnEvent::StreamEnded);
    assert_eq!((s, a), (ConnState::Closed, ConnAction::Stop));
    assert_eq!(
        step(ConnState::Handshaking, ConnEvent::DecodeFailed),
        (ConnState::Closed, ConnAction::FailHandshake)
    );
    assert_eq!(
        step(ConnState::Ready, ConnEvent::TransportFailed),
        (ConnState::Closed, ConnAction::Stop)
    );
}

#[test]
fn interleaved_responses_reach_their_own_requests_in_order() {
    let mut router: Router<Vec<i32>> = Router::new();
    let a = router.register(Vec::new()).unwrap();
    let b = router.register(Vec::new()).unwrap();
    assert_eq!((a, b), (0, 1));
    let arrivals = [
        decoded(&["2", "6", "0", "0", "1"]),
        decoded(&["2", "6", "1", "0", "2"]),
        decoded(&["9", "1", "77"]),
        decoded(&["2", "6", "1", "0", "3"]),
        decoded(&["2", "6", "5", "0", "9"]),
        decoded(&["2", "6", "0", "0", "4"]),
    ];
    let mut inbox_a = Vec::new();
    let mut inbox_b = Vec::new();
    let mut dropped = Vec::new();
    for m in arrivals.iter() {
        let size = match m {
            TWSIncommingMessageImpl::TickSize { size, .. } => *size,
            _ => -1,
        };
        match router.dispatch(m) {
            Dispatch::Deliver(_) => {
                if m.get_req_id() == Some(a) {
                    inbox_a.push(size)
                } else {
                    inbox_b.push(size)
                }
            }
            Dispatch::NoHandler(id) => dropped.push(id),
            Dispatch::NoId => dropped.push(-1),
        }
    }
    assert_eq!(inbox_a, vec![1, 4]);
    assert_eq!(inbox_b, vec![2, 3]);
    assert_eq!(dropped, vec![-1, 5]);
}

#[test]
fn unregistered_requests_are_no_longer_routed() {
    let mut router: Router<&str> = Router::new();
    let a = router.register("a").unwrap();
    let b = router.register("b").unwrap();
    assert!(router.is_routed(a));
    assert_eq!(router.unregister(a), Some("a"));
    assert_eq!(router.unregister(a), None);
    assert!(!router.is_routed(a));
    assert!(router.is_routed(b));
    let c = router.register("c").unwrap();
    assert_eq!(c, 2);
    let m = decoded(&["2", "6", "0", "0", "1"]);
    assert!(matches!(router.dispatch(&m), Dispatch::NoHandler(0)));
}
