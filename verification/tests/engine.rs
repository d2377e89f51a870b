//! Behavioral checks of the driver: handshake, submission, correlation,
//! notifications, teardown, and the buffer components it composes.

use zkwire::codec::{encode_connect_response, encode_response, ConnectRequest, ConnectResponse, OpCode, Response};
use zkwire::inbox::{FrameError, Inbox};
use zkwire::outbox::Outbox;
use zkwire::packetizer::{
    FatalError, HandshakeState, Packetizer, ReplyOutcome, SessionState, SubmitError,
    NOTIFICATION_XID,
};
use zkwire::table::CorrelationTable;

const LIMIT: usize = 4096;

fn connect_req() -> ConnectRequest {
    ConnectRequest {
        protocol_version: 0,
        last_zxid_seen: 0,
        timeout_ms: 30000,
        session_id: 0,
        passwd: vec![],
        read_only: false,
    }
}

fn server_accepts() -> Vec<u8> {
    encode_connect_response(&ConnectResponse {
        protocol_version: 0,
        timeout_ms: 29000,
        session_id: 77,
        passwd: vec![0; 16],
        read_only: false,
    })
}

/// Builds an engine and walks it through a confirmed handshake.
fn established() -> Packetizer {
    let mut p = Packetizer::connect(&connect_req(), LIMIT);
    let out = p.pending_output();
    let n = out.len();
    p.mark_flushed(n);
    p.feed(&server_accepts());
    p.process().unwrap();
    assert_eq!(p.session_state(), SessionState::Established);
    p
}

#[test]
fn connect() {
    let p = Packetizer::connect(&connect_req(), LIMIT);
    assert_eq!(p.session_state(), SessionState::Handshaking);
    assert_eq!(p.handshake_state(), HandshakeState::Sent);
    // The Connect frame is already queued for the transport.
    assert_eq!(p.pending_output().len(), 33);
}

#[test]
fn handshake_confirms_session_parameters() {
    let p = established();
    assert_eq!(p.handshake_state(), HandshakeState::Confirmed);
    assert_eq!(p.session_id(), 77);
    assert_eq!(p.negotiated_timeout_ms(), 29000);
}

#[test]
fn handshake_rejects_unknown_protocol_version() {
    let mut p = Packetizer::connect(&connect_req(), LIMIT);
    let reply = encode_connect_response(&ConnectResponse {
        protocol_version: 3,
        timeout_ms: 29000,
        session_id: 77,
        passwd: vec![],
        read_only: false,
    });
    p.feed(&reply);
    assert_eq!(p.process(), Err(FatalError::HandshakeFailed));
    assert_eq!(p.session_state(), SessionState::Closed);
    assert_eq!(p.handshake_state(), HandshakeState::Failed);
}

#[test]
fn handshake_rejects_structurally_invalid_response() {
    let mut p = Packetizer::connect(&connect_req(), LIMIT);
    // A complete frame whose body is too short for a Connect response.
    p.feed(&vec![0, 0, 0, 2, 9, 9]);
    assert_eq!(p.process(), Err(FatalError::HandshakeFailed));
    assert_eq!(p.handshake_state(), HandshakeState::Failed);
}

#[test]
fn submit_before_connect_completes_is_refused() {
    let mut p = Packetizer::connect(&connect_req(), LIMIT);
    assert_eq!(
        p.submit(OpCode::GetData, &vec![1, 2]),
        Err(SubmitError::NotEstablished)
    );
    // Nothing was queued or registered by the refused call.
    assert_eq!(p.pending_count(), 0);
}

#[test]
fn xids_are_distinct_and_strictly_increasing() {
    let mut p = established();
    let a = p.submit(OpCode::GetData, &vec![]).unwrap();
    let b = p.submit(OpCode::Exists, &vec![]).unwrap();
    let c = p.submit(OpCode::Ping, &vec![]).unwrap();
    assert_eq!((a, b, c), (1, 2, 3));
    assert!(a < b && b < c);
    assert_eq!(p.pending_count(), 3);
}

#[test]
fn response_resolves_its_own_waiter_among_many() {
    let mut p = established();
    // Walk the counter to 6, then submit the request of interest and three
    // more so that xids 8, 9, 10 stay outstanding.
    for _ in 0..6 {
        p.submit(OpCode::Ping, &vec![]).unwrap();
    }
    let xid = p.submit(OpCode::GetData, &vec![]).unwrap();
    assert_eq!(xid, 7);
    for _ in 0..3 {
        p.submit(OpCode::GetData, &vec![]).unwrap();
    }
    assert_eq!(p.pending_count(), 10);

    let reply = encode_response(&Response {
        xid: 7,
        zxid: 100,
        err_code: 0,
        payload: vec![0x61, 0x62],
    });
    p.feed(&reply);
    assert_eq!(p.process(), Ok(()));

    match p.take_settled(7) {
        Some(ReplyOutcome::Reply(r)) => {
            assert_eq!(r.xid, 7);
            assert_eq!(r.zxid, 100);
            assert_eq!(r.payload, vec![0x61, 0x62]);
        }
        other => panic!("xid 7 should have settled with a reply, got {:?}", other),
    }
    // The others are still outstanding and unsettled.
    assert_eq!(p.pending_count(), 9);
    assert!(p.take_settled(8).is_none());
    assert!(p.take_settled(9).is_none());
    assert!(p.take_settled(10).is_none());
}

#[test]
fn responses_route_correctly_regardless_of_arrival_order() {
    let mut p = established();
    let a = p.submit(OpCode::GetData, &vec![]).unwrap();
    let b = p.submit(OpCode::GetData, &vec![]).unwrap();
    let mut bytes = encode_response(&Response { xid: b, zxid: 2, err_code: 0, payload: vec![2] });
    bytes.extend_from_slice(&encode_response(&Response {
        xid: a,
        zxid: 1,
        err_code: 0,
        payload: vec![1],
    }));
    p.feed(&bytes);
    assert_eq!(p.process(), Ok(()));
    match p.take_settled(a) {
        Some(ReplyOutcome::Reply(r)) => assert_eq!(r.payload, vec![1]),
        other => panic!("unexpected outcome {:?}", other),
    }
    match p.take_settled(b) {
        Some(ReplyOutcome::Reply(r)) => assert_eq!(r.payload, vec![2]),
        other => panic!("unexpected outcome {:?}", other),
    }
}

#[test]
fn notification_sentinel_routes_to_watch_path() {
    let mut p = established();
    let event = encode_response(&Response {
        xid: NOTIFICATION_XID,
        zxid: 0,
        err_code: 0,
        payload: vec![0x77],
    });
    p.feed(&event);
    // No waiter registered that xid, yet this is not UnknownXid.
    assert_eq!(p.process(), Ok(()));
    assert_eq!(p.session_state(), SessionState::Established);
    let n = p.take_notification().expect("a notification should be queued");
    assert_eq!(n.xid, NOTIFICATION_XID);
    assert_eq!(n.payload, vec![0x77]);
    assert!(p.take_notification().is_none());
}

#[test]
fn unknown_xid_is_fatal() {
    let mut p = established();
    p.submit(OpCode::GetData, &vec![]).unwrap();
    let reply = encode_response(&Response { xid: 55, zxid: 0, err_code: 0, payload: vec![] });
    p.feed(&reply);
    assert_eq!(p.process(), Err(FatalError::UnknownXid));
    assert_eq!(p.session_state(), SessionState::Closed);
    // The pending handle was settled as aborted by the teardown.
    assert!(matches!(p.take_settled(1), Some(ReplyOutcome::ConnectionClosed)));
}

#[test]
fn shutdown_settles_all_pending_handles() {
    let mut p = established();
    let a = p.submit(OpCode::GetData, &vec![]).unwrap();
    let b = p.submit(OpCode::SetData, &vec![1]).unwrap();
    let c = p.submit(OpCode::Exists, &vec![2]).unwrap();
    assert_eq!(p.pending_count(), 3);
    p.shutdown();
    assert_eq!(p.session_state(), SessionState::Closed);
    assert_eq!(p.pending_count(), 0);
    for xid in [a, b, c] {
        assert!(matches!(p.take_settled(xid), Some(ReplyOutcome::ConnectionClosed)));
    }
    assert!(p.take_settled(a).is_none());
    // Once closed, further submissions are refused as not established.
    assert_eq!(p.submit(OpCode::Ping, &vec![]), Err(SubmitError::NotEstablished));
}

#[test]
fn oversized_declared_length_is_rejected_without_assembly() {
    let mut p = established();
    // Declared length 0x7fffff00 far exceeds the configured maximum; only
    // the four prefix bytes ever arrive, and rejection must not wait for
    // (or try to allocate) the rest.
    p.feed(&vec![0x7f, 0xff, 0xff, 0x00]);
    assert_eq!(p.process(), Err(FatalError::MalformedLength));
    assert_eq!(p.session_state(), SessionState::Closed);
}

#[test]
fn negative_declared_length_is_rejected() {
    let mut inbox = Inbox::new();
    inbox.append(&vec![0xff, 0xff, 0xff, 0xfc]);
    assert_eq!(inbox.try_take_frame(LIMIT), Err(FrameError::MalformedLength));
}

#[test]
fn frames_reassemble_across_arbitrary_chunking() {
    // Two frames: bodies [1,2,3] and [4,5].
    let stream: Vec<u8> = vec![0, 0, 0, 3, 1, 2, 3, 0, 0, 0, 2, 4, 5];
    // Deliver the same bytes in several different chunkings.
    for cut in [(1usize, 5usize), (4, 8), (6, 7), (3, 11)] {
        let mut inbox = Inbox::new();
        inbox.append(&stream[..cut.0].to_vec());
        // Nothing complete yet after a short prefix of the first frame.
        if cut.0 < 7 {
            assert_eq!(inbox.try_take_frame(LIMIT), Ok(None));
        }
        inbox.append(&stream[cut.0..cut.1].to_vec());
        inbox.append(&stream[cut.1..].to_vec());
        assert_eq!(inbox.try_take_frame(LIMIT), Ok(Some(vec![1, 2, 3])));
        assert_eq!(inbox.try_take_frame(LIMIT), Ok(Some(vec![4, 5])));
        assert_eq!(inbox.try_take_frame(LIMIT), Ok(None));
    }
}

#[test]
fn outbox_preserves_enqueue_order_under_partial_writes() {
    let mut outbox = Outbox::new();
    outbox.enqueue(&vec![1, 2, 3]);
    outbox.enqueue(&vec![4, 5]);
    assert!(!outbox.is_empty());
    assert_eq!(outbox.pending_bytes(), vec![1, 2, 3, 4, 5]);
    // The transport accepts two bytes; the rest stays queued in order.
    outbox.advance(2);
    assert_eq!(outbox.pending_bytes(), vec![3, 4, 5]);
    outbox.enqueue(&vec![6]);
    assert_eq!(outbox.pending_bytes(), vec![3, 4, 5, 6]);
    outbox.advance(4);
    assert!(outbox.is_empty());
    assert_eq!(outbox.pending_len(), 0);
}

#[test]
fn correlation_table_rejects_duplicates_and_unknowns() {
    let mut t = CorrelationTable::new();
    assert_eq!(t.register(5), Ok(()));
    assert_eq!(t.register(6), Ok(()));
    assert_eq!(t.register(5), Err(()));
    assert_eq!(t.len(), 2);
    assert!(t.contains(5));
    assert_eq!(t.resolve(9), Err(()));
    assert_eq!(t.resolve(5), Ok(()));
    assert_eq!(t.resolve(5), Err(()));
    let aborted = t.abort_all();
    assert_eq!(aborted, vec![6]);
    assert_eq!(t.len(), 0);
}

#[test]
fn drive_is_idempotent_when_nothing_arrives() {
    let mut p = established();
    assert_eq!(p.process(), Ok(()));
    assert_eq!(p.process(), Ok(()));
    assert_eq!(p.session_state(), SessionState::Established);
}
