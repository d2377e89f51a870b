//! Byte-level checks of the frame codec: exact layouts, round trips, and
//! the decode errors.

use zkwire::codec::{
    decode_connect, decode_connect_response, decode_request, decode_response, encode_connect,
    encode_connect_response, encode_request, encode_response, op_from_wire, op_to_wire,
    ConnectRequest, ConnectResponse, DecodeError, OpCode, Response,
};

fn body_of(frame: &[u8]) -> Vec<u8> {
    assert!(frame.len() >= 4);
    let declared = u32::from_be_bytes([frame[0], frame[1], frame[2], frame[3]]) as usize;
    assert_eq!(frame.len(), 4 + declared);
    frame[4..].to_vec()
}

#[test]
fn connect_request_layout_is_fixed() {
    // protocol_version = 0, timeout_ms = 30000, session_id = 0, empty
    // passwd, read_only = false: the length field must equal 29
    // (4 + 8 + 4 + 8 + 4 + 0 + 1 bytes of payload).
    let c = ConnectRequest {
        protocol_version: 0,
        last_zxid_seen: 0,
        timeout_ms: 30000,
        session_id: 0,
        passwd: vec![],
        read_only: false,
    };
    let f = encode_connect(&c);
    let mut expected: Vec<u8> = vec![0, 0, 0, 29];
    expected.extend_from_slice(&[0, 0, 0, 0]); // protocol_version
    expected.extend_from_slice(&[0, 0, 0, 0, 0, 0, 0, 0]); // last_zxid_seen
    expected.extend_from_slice(&[0, 0, 0x75, 0x30]); // timeout_ms = 30000
    expected.extend_from_slice(&[0, 0, 0, 0, 0, 0, 0, 0]); // session_id
    expected.extend_from_slice(&[0, 0, 0, 0]); // passwd_len
    expected.push(0); // read_only
    assert_eq!(f, expected);
}

#[test]
fn request_layout_is_fixed() {
    // xid 7, GetData (wire value 4), three payload bytes: the length field
    // covers everything after itself.
    let f = encode_request(7, OpCode::GetData, &vec![0xaa, 0xbb, 0xcc]);
    assert_eq!(
        f,
        vec![0, 0, 0, 11, 0, 0, 0, 7, 0, 0, 0, 4, 0xaa, 0xbb, 0xcc]
    );
}

#[test]
fn negative_fields_use_twos_complement() {
    let f = encode_request(-1, OpCode::CreateSession, &vec![]);
    assert_eq!(
        f,
        vec![0, 0, 0, 8, 0xff, 0xff, 0xff, 0xff, 0xff, 0xff, 0xff, 0xf6]
    );
}

#[test]
fn request_roundtrip() {
    let payload: Vec<u8> = vec![1, 2, 3, 4, 5];
    let f = encode_request(42, OpCode::SetData, &payload);
    let (xid, op, p) = decode_request(&body_of(&f)).unwrap();
    assert_eq!(xid, 42);
    assert_eq!(op, OpCode::SetData);
    assert_eq!(p, payload);
}

#[test]
fn connect_roundtrip() {
    let c = ConnectRequest {
        protocol_version: 0,
        last_zxid_seen: 0x0102_0304_0506_0708,
        timeout_ms: 4000,
        session_id: -9,
        passwd: vec![9, 8, 7],
        read_only: true,
    };
    let f = encode_connect(&c);
    let d = decode_connect(&body_of(&f)).unwrap();
    assert_eq!(d.protocol_version, 0);
    assert_eq!(d.last_zxid_seen, 0x0102_0304_0506_0708);
    assert_eq!(d.timeout_ms, 4000);
    assert_eq!(d.session_id, -9);
    assert_eq!(d.passwd, vec![9, 8, 7]);
    assert!(d.read_only);
}

#[test]
fn connect_response_roundtrip() {
    let c = ConnectResponse {
        protocol_version: 0,
        timeout_ms: 30000,
        session_id: 0x7fff_0000_1234_5678,
        passwd: vec![1; 16],
        read_only: false,
    };
    let f = encode_connect_response(&c);
    let d = decode_connect_response(&body_of(&f)).unwrap();
    assert_eq!(d.protocol_version, 0);
    assert_eq!(d.timeout_ms, 30000);
    assert_eq!(d.session_id, 0x7fff_0000_1234_5678);
    assert_eq!(d.passwd, vec![1; 16]);
    assert!(!d.read_only);
}

#[test]
fn response_roundtrip() {
    let r = Response { xid: 7, zxid: -5, err_code: 0, payload: vec![0xde, 0xad] };
    let f = encode_response(&r);
    let d = decode_response(&body_of(&f)).unwrap();
    assert_eq!(d.xid, 7);
    assert_eq!(d.zxid, -5);
    assert_eq!(d.err_code, 0);
    assert_eq!(d.payload, vec![0xde, 0xad]);
}

#[test]
fn truncated_bodies_are_rejected() {
    assert!(matches!(decode_response(&vec![0; 15]), Err(DecodeError::Truncated)));
    assert!(matches!(decode_request(&vec![0; 7]), Err(DecodeError::Truncated)));
    assert!(matches!(decode_connect(&vec![0; 28]), Err(DecodeError::Truncated)));
    assert!(matches!(
        decode_connect_response(&vec![0; 20]),
        Err(DecodeError::Truncated)
    ));
}

#[test]
fn unknown_opcode_is_a_decode_error_not_a_panic() {
    // xid 1, opcode 999: outside the closed enumeration.
    let mut body = vec![0, 0, 0, 1];
    body.extend_from_slice(&999i32.to_be_bytes());
    assert!(matches!(decode_request(&body), Err(DecodeError::UnknownOpCode)));
}

#[test]
fn inner_length_mismatch_is_rejected() {
    // A connect body whose passwd_len disagrees with the body's extent.
    let c = ConnectRequest {
        protocol_version: 0,
        last_zxid_seen: 0,
        timeout_ms: 0,
        session_id: 0,
        passwd: vec![1, 2, 3, 4],
        read_only: false,
    };
    let mut body = body_of(&encode_connect(&c));
    // Overwrite passwd_len (offset 24..28) with 200.
    body[24..28].copy_from_slice(&200i32.to_be_bytes());
    assert!(matches!(decode_connect(&body), Err(DecodeError::LengthMismatch)));
}

#[test]
fn opcode_wire_values_roundtrip() {
    let all = [
        OpCode::Notification,
        OpCode::Create,
        OpCode::Delete,
        OpCode::Exists,
        OpCode::GetData,
        OpCode::SetData,
        OpCode::GetACL,
        OpCode::SetACL,
        OpCode::GetChildren,
        OpCode::Synchronize,
        OpCode::Ping,
        OpCode::GetChildren2,
        OpCode::Check,
        OpCode::Multi,
        OpCode::Auth,
        OpCode::SetWatches,
        OpCode::Sasl,
        OpCode::CreateSession,
        OpCode::CloseSession,
        OpCode::Error,
    ];
    for op in all {
        assert_eq!(op_from_wire(op_to_wire(op)), Some(op));
    }
    assert_eq!(op_to_wire(OpCode::CreateSession), -10);
    assert_eq!(op_to_wire(OpCode::Error), -1);
    assert_eq!(op_from_wire(10), None);
    assert_eq!(op_from_wire(999), None);
}
