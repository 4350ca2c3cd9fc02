use std::collections::VecDeque;

use may::sync::mpsc::{channel, Receiver as ReplyReceiver};
use std::sync::mpsc::TryRecvError;
use pg_pipeline::parameters::ParameterMap;
use pg_pipeline::receiver::{
    classify_orphan, terminate_message, AsyncMessage, InboundFrame, Receiver, ReceiverError,
};
use pg_pipeline::request::{BackendMessages, FrontendMessage, Request, RequestMessages};
use pg_pipeline::writer::{becomes_drainer, drain_pass, pass_ends, WriteBuffer};

fn request(messages: RequestMessages) -> (Request, ReplyReceiver<BackendMessages>) {
    let (sender, rx) = channel();
    (Request { messages, sender }, rx)
}

fn raw(bytes: &[u8]) -> RequestMessages {
    RequestMessages::Single(FrontendMessage::Raw(bytes.to_vec()))
}

fn normal(data: &[u8], request_complete: bool) -> InboundFrame {
    InboundFrame::Normal { messages: BackendMessages { data: data.to_vec() }, request_complete }
}

fn param(name: &str, value: &str) -> InboundFrame {
    InboundFrame::Async(AsyncMessage::ParameterStatus {
        name: name.to_string(),
        value: value.to_string(),
    })
}

/// A receiver whose registry holds the destinations of `n` drained requests.
fn receiver_with(n: usize) -> (Receiver, Vec<ReplyReceiver<BackendMessages>>) {
    let mut intake = VecDeque::new();
    let mut rxs = Vec::new();
    for i in 0..n {
        let (req, rx) = request(raw(&[b'Q', i as u8]));
        intake.push_back(req);
        rxs.push(rx);
    }
    let mut out = WriteBuffer::new();
    let mut rsps = Vec::new();
    drain_pass(&mut out, &mut intake, &mut rsps).unwrap();
    let mut receiver = Receiver::new(ParameterMap::new());
    for rsp in rsps {
        receiver.register(rsp);
    }
    (receiver, rxs)
}

#[test]
fn parameter_status_sets_server_version() {
    let (mut receiver, rxs) = receiver_with(1);
    assert_eq!(receiver.handle_frame(param("server_version", "16.0")), Ok(()));
    let value = receiver.parameter(&"server_version".to_string()).unwrap();
    assert_eq!(value.as_str(), "16.0");
    assert_eq!(receiver.pending_len(), 1);
    assert!(matches!(rxs[0].try_recv(), Err(TryRecvError::Empty)));
}

#[test]
fn parameter_status_replaces_earlier_value() {
    let mut receiver = Receiver::new(ParameterMap::new());
    assert_eq!(receiver.handle_frame(param("TimeZone", "UTC")), Ok(()));
    assert_eq!(receiver.handle_frame(param("server_version", "15.4")), Ok(()));
    assert_eq!(receiver.handle_frame(param("server_version", "16.0")), Ok(()));
    assert_eq!(receiver.parameter(&"server_version".to_string()).unwrap().as_str(), "16.0");
    assert_eq!(receiver.parameter(&"TimeZone".to_string()).unwrap().as_str(), "UTC");
    assert!(receiver.parameter(&"DateStyle".to_string()).is_none());
}

#[test]
fn initial_parameters_are_kept() {
    let mut params = ParameterMap::new();
    params.insert("client_encoding".to_string(), "UTF8".to_string());
    let receiver = Receiver::new(params);
    assert_eq!(receiver.parameter(&"client_encoding".to_string()).unwrap().as_str(), "UTF8");
}

#[test]
fn incomplete_reply_pops_nothing() {
    let (mut receiver, rxs) = receiver_with(2);
    assert_eq!(receiver.handle_frame(normal(b"first", false)), Ok(()));
    assert_eq!(receiver.pending_len(), 2);
    assert_eq!(rxs[0].try_recv().unwrap().data, b"first".to_vec());
    assert!(matches!(rxs[1].try_recv(), Err(TryRecvError::Empty)));
}

#[test]
fn complete_reply_pops_one() {
    let (mut receiver, rxs) = receiver_with(2);
    assert_eq!(receiver.handle_frame(normal(b"part", false)), Ok(()));
    assert_eq!(receiver.handle_frame(normal(b"last", true)), Ok(()));
    assert_eq!(receiver.pending_len(), 1);
    assert_eq!(rxs[0].try_recv().unwrap().data, b"part".to_vec());
    assert_eq!(rxs[0].try_recv().unwrap().data, b"last".to_vec());
    assert_eq!(receiver.handle_frame(normal(b"next", true)), Ok(()));
    assert_eq!(receiver.pending_len(), 0);
    assert_eq!(rxs[1].try_recv().unwrap().data, b"next".to_vec());
}

#[test]
fn replies_follow_wire_order() {
    let (mut receiver, rxs) = receiver_with(3);
    for i in 0..3u8 {
        assert_eq!(receiver.handle_frame(normal(&[b'r', i], true)), Ok(()));
    }
    for i in 0..3u8 {
        assert_eq!(rxs[i as usize].try_recv().unwrap().data, vec![b'r', i]);
        // the completed entry left the registry, which closed its channel
        assert!(matches!(rxs[i as usize].try_recv(), Err(TryRecvError::Disconnected)));
    }
}

#[test]
fn delivery_to_a_gone_caller_is_not_fatal() {
    let (mut receiver, mut rxs) = receiver_with(2);
    rxs.remove(0);
    assert_eq!(receiver.handle_frame(normal(b"lost", true)), Ok(()));
    assert_eq!(receiver.handle_frame(normal(b"kept", true)), Ok(()));
    assert_eq!(rxs[0].try_recv().unwrap().data, b"kept".to_vec());
}

#[test]
fn unsolicited_reply_is_unexpected() {
    let mut receiver = Receiver::new(ParameterMap::new());
    let ready = [b'Z', 0, 0, 0, 5, b'I'];
    assert_eq!(receiver.handle_frame(normal(&ready, true)), Err(ReceiverError::UnexpectedMessage));
    assert_eq!(receiver.handle_frame(normal(b"", true)), Err(ReceiverError::UnexpectedMessage));
}

#[test]
fn unsolicited_error_response_is_database_error() {
    let mut receiver = Receiver::new(ParameterMap::new());
    let error = [b'E', 0, 0, 0, 6, b'S', 0];
    assert_eq!(receiver.handle_frame(normal(&error, false)), Err(ReceiverError::Database(error.to_vec())));
}

#[test]
fn unsolicited_malformed_header_is_parse_error() {
    let bad_len = BackendMessages { data: vec![b'E', 0, 0, 0, 3] };
    assert_eq!(classify_orphan(bad_len), ReceiverError::Parse);
    let negative = BackendMessages { data: vec![b'E', 0x80, 0, 0, 9] };
    assert_eq!(classify_orphan(negative), ReceiverError::Parse);
}

#[test]
fn unknown_async_is_fatal() {
    let (mut receiver, _rxs) = receiver_with(1);
    let frame = InboundFrame::Async(AsyncMessage::Other);
    assert_eq!(receiver.handle_frame(frame), Err(ReceiverError::UnknownAsync));
    assert_eq!(receiver.pending_len(), 1);
}

#[test]
fn notices_and_notifications_are_dropped() {
    let (mut receiver, rxs) = receiver_with(1);
    assert_eq!(receiver.handle_frame(InboundFrame::Async(AsyncMessage::Notice)), Ok(()));
    assert_eq!(receiver.handle_frame(InboundFrame::Async(AsyncMessage::Notification)), Ok(()));
    assert_eq!(receiver.pending_len(), 1);
    assert!(matches!(rxs[0].try_recv(), Err(TryRecvError::Empty)));
}

#[test]
fn teardown_closes_pending_replies() {
    let (receiver, rxs) = receiver_with(2);
    drop(receiver);
    for rx in rxs.iter() {
        assert!(matches!(rx.try_recv(), Err(TryRecvError::Disconnected)));
    }
}

#[test]
fn copy_in_gets_one_response_in_the_batch() {
    let (q1, _rx1) = request(raw(b"Q1"));
    let copy = RequestMessages::CopyIn(vec![
        FrontendMessage::CopyData(b"m1".to_vec()),
        FrontendMessage::CopyData(b"m2".to_vec()),
        FrontendMessage::CopyData(b"m3".to_vec()),
    ]);
    let (c, _rx2) = request(copy);
    let (q2, _rx3) = request(raw(b"Q2"));
    let mut intake = VecDeque::from(vec![q1, c, q2]);
    let mut out = WriteBuffer::new();
    let mut rsps = Vec::new();
    drain_pass(&mut out, &mut intake, &mut rsps).unwrap();
    assert_eq!(rsps.len(), 3);
    assert!(intake.is_empty());
    let mut expected = b"Q1".to_vec();
    for m in [b"m1", b"m2", b"m3"] {
        expected.extend_from_slice(&[b'd', 0, 0, 0, 6]);
        expected.extend_from_slice(m);
    }
    expected.extend_from_slice(b"Q2");
    assert_eq!(out.take_batch(), expected);
    assert!(out.take_batch().is_empty());
}

#[test]
fn copy_data_frame_holds_length() {
    let mut out = WriteBuffer::new();
    out.encode_message(&FrontendMessage::CopyData(vec![7; 300])).unwrap();
    let bytes = out.take_batch();
    assert_eq!(&bytes[..5], &[b'd', 0, 0, 0x01, 0x30]);
    assert_eq!(bytes.len(), 305);
}

#[test]
fn empty_copy_in_still_registers() {
    let (c, _rx) = request(RequestMessages::CopyIn(Vec::new()));
    let mut intake = VecDeque::from(vec![c]);
    let mut out = WriteBuffer::new();
    let mut rsps = Vec::new();
    drain_pass(&mut out, &mut intake, &mut rsps).unwrap();
    assert_eq!(rsps.len(), 1);
    assert!(out.take_batch().is_empty());
}

#[test]
fn terminate_message_bytes() {
    match terminate_message() {
        FrontendMessage::Raw(b) => assert_eq!(b, vec![b'X', 0, 0, 0, 4]),
        FrontendMessage::CopyData(_) => panic!("terminate must be a raw message"),
    }
}

#[test]
fn only_the_first_increment_elects() {
    assert!(becomes_drainer(0));
    assert!(!becomes_drainer(1));
    assert!(!becomes_drainer(7));
}

#[test]
fn pass_ends_when_nothing_arrived() {
    assert!(pass_ends(3, 3));
    assert!(!pass_ends(5, 3));
    assert!(pass_ends(0, 0));
}

#[test]
fn counter_returns_to_zero_after_passes() {
    // three callers push and increment; the first is elected
    let mut count: usize = 0;
    let mut intake = VecDeque::new();
    let mut elected = Vec::new();
    let mut rxs = Vec::new();
    for i in 0..3u8 {
        let (req, rx) = request(raw(&[b'Q', i]));
        intake.push_back(req);
        rxs.push(rx);
        elected.push(becomes_drainer(count));
        count += 1;
    }
    assert_eq!(elected, vec![true, false, false]);
    let mut out = WriteBuffer::new();
    let drained = intake.len();
    let mut rsps = Vec::new();
    drain_pass(&mut out, &mut intake, &mut rsps).unwrap();
    assert_eq!(rsps.len(), drained);
    // a fourth request arrives during the flush
    let (late, _rx) = request(raw(b"L"));
    intake.push_back(late);
    assert!(!becomes_drainer(count));
    count += 1;
    assert_eq!(out.take_batch(), b"Q\x00Q\x01Q\x02".to_vec());
    let prior = count;
    count -= drained;
    assert!(!pass_ends(prior, drained));
    let drained = intake.len();
    drain_pass(&mut out, &mut intake, &mut rsps).unwrap();
    assert_eq!(rsps.len(), 4);
    assert_eq!(out.take_batch(), b"L".to_vec());
    let prior = count;
    count -= drained;
    assert!(pass_ends(prior, drained));
    assert_eq!(count, 0);
}

#[test]
fn replies_go_only_to_the_oldest_caller() {
    let (mut receiver, rxs) = receiver_with(3);
    assert_eq!(receiver.handle_frame(normal(b"a1", false)), Ok(()));
    assert_eq!(receiver.handle_frame(param("server_version", "16.0")), Ok(()));
    assert_eq!(receiver.handle_frame(normal(b"a2", true)), Ok(()));
    assert_eq!(receiver.handle_frame(InboundFrame::Async(AsyncMessage::Notice)), Ok(()));
    assert_eq!(receiver.handle_frame(normal(b"b1", true)), Ok(()));
    assert_eq!(rxs[0].try_recv().unwrap().data, b"a1".to_vec());
    assert_eq!(rxs[0].try_recv().unwrap().data, b"a2".to_vec());
    assert!(matches!(rxs[0].try_recv(), Err(TryRecvError::Disconnected)));
    assert_eq!(rxs[1].try_recv().unwrap().data, b"b1".to_vec());
    assert!(matches!(rxs[1].try_recv(), Err(TryRecvError::Disconnected)));
    assert!(matches!(rxs[2].try_recv(), Err(TryRecvError::Empty)));
    assert_eq!(receiver.pending_len(), 1);
}

#[test]
fn racing_callers_elect_one_drainer() {
    // A pushes and increments: elected; B and C push before incrementing
    let mut count: usize = 0;
    assert!(becomes_drainer(count));
    count += 1;
    let mut intake = VecDeque::new();
    let mut rxs = Vec::new();
    for i in 0..3u8 {
        let (req, rx) = request(raw(&[b'Q', i]));
        intake.push_back(req);
        rxs.push(rx);
    }
    // A's pass takes only what the counter shows: one request
    let quota = count;
    let mut pass = VecDeque::new();
    for _ in 0..quota {
        pass.push_back(intake.pop_front().unwrap());
    }
    let mut out = WriteBuffer::new();
    let mut rsps = Vec::new();
    drain_pass(&mut out, &mut pass, &mut rsps).unwrap();
    assert_eq!(out.take_batch(), b"Q\x00".to_vec());
    // B and C increment during the flush: neither reads zero
    assert!(!becomes_drainer(count));
    count += 1;
    assert!(!becomes_drainer(count));
    count += 1;
    let prior = count;
    count -= quota;
    assert!(!pass_ends(prior, quota));
    // A serves the two new requests in its next pass
    let quota = count;
    let mut pass = VecDeque::new();
    for _ in 0..quota {
        pass.push_back(intake.pop_front().unwrap());
    }
    drain_pass(&mut out, &mut pass, &mut rsps).unwrap();
    assert_eq!(out.take_batch(), b"Q\x01Q\x02".to_vec());
    let prior = count;
    count -= quota;
    assert!(pass_ends(prior, quota));
    assert_eq!(count, 0);
    assert!(intake.is_empty());
    assert_eq!(rsps.len(), 3);
}
