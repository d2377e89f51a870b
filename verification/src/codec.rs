//! Frame codec: pure (de)serialization of the fixed binary layout.
//!
//! Layouts (all integers big-endian, no padding):
//! - general request body: `i32 xid | i32 opcode | payload`
//! - connect request body: `i32 protocol_version | i64 last_zxid_seen |
//!   i32 timeout_ms | i64 session_id | i32 passwd_len | passwd | u8 read_only`
//! - generic response body: `i32 xid | i64 zxid | i32 err_code | payload`
//! - connect response body: `i32 protocol_version | i32 timeout_ms |
//!   i64 session_id | i32 passwd_len | passwd | u8 read_only`
//!
//! A frame on the wire is a body prefixed with its length as an `i32`; the
//! prefix is the input buffer's concern, so every function here works on a
//! frame body.  The codec performs no I/O and has no state.

use vstd::prelude::*;
use crate::wire::{
    be32, be32_val, be64, be64_val, i32_to_wire, i64_to_wire, wire_to_i32, wire_to_i64, i32_to_u32,
    u32_to_i32, i64_to_u64, u64_to_i64, push_u32_be, push_u64_be, push_bytes, copy_range,
    read_u32_be,
    read_u64_be, lemma_be32_roundtrip, lemma_be64_roundtrip,
};

verus! {

/// Kind of operation a non-handshake frame carries.
#[derive(Clone, Copy, PartialEq, Eq, Structural, Debug)]
pub enum OpCode {
    Notification,
    Create,
    Delete,
    Exists,
    GetData,
    SetData,
    GetACL,
    SetACL,
    GetChildren,
    Synchronize,
    Ping,
    GetChildren2,
    Check,
    Multi,
    Auth,
    SetWatches,
    Sasl,
    CreateSession,
    CloseSession,
    Error,
}

/// Numeric wire value of an opcode.
pub open spec fn op_value(op: OpCode) -> i32 {
    match op {
        OpCode::Notification => 0,
        OpCode::Create => 1,
        OpCode::Delete => 2,
        OpCode::Exists => 3,
        OpCode::GetData => 4,
        OpCode::SetData => 5,
        OpCode::GetACL => 6,
        OpCode::SetACL => 7,
        OpCode::GetChildren => 8,
        OpCode::Synchronize => 9,
        OpCode::Ping => 11,
        OpCode::GetChildren2 => 12,
        OpCode::Check => 13,
        OpCode::Multi => 14,
        OpCode::Auth => 100,
        OpCode::SetWatches => 101,
        OpCode::Sasl => 102,
        OpCode::CreateSession => -10i32,
        OpCode::CloseSession => -11i32,
        OpCode::Error => -1i32,
    }
}

/// Opcode denoted by a numeric wire value, if any.
pub open spec fn op_of_value(v: i32) -> Option<OpCode> {
    if v == 0 {
        Some(OpCode::Notification)
    } else if v == 1 {
        Some(OpCode::Create)
    } else if v == 2 {
        Some(OpCode::Delete)
    } else if v == 3 {
        Some(OpCode::Exists)
    } else if v == 4 {
        Some(OpCode::GetData)
    } else if v == 5 {
        Some(OpCode::SetData)
    } else if v == 6 {
        Some(OpCode::GetACL)
    } else if v == 7 {
        Some(OpCode::SetACL)
    } else if v == 8 {
        Some(OpCode::GetChildren)
    } else if v == 9 {
        Some(OpCode::Synchronize)
    } else if v == 11 {
        Some(OpCode::Ping)
    } else if v == 12 {
        Some(OpCode::GetChildren2)
    } else if v == 13 {
        Some(OpCode::Check)
    } else if v == 14 {
        Some(OpCode::Multi)
    } else if v == 100 {
        Some(OpCode::Auth)
    } else if v == 101 {
        Some(OpCode::SetWatches)
    } else if v == 102 {
        Some(OpCode::Sasl)
    } else if v == -10 {
        Some(OpCode::CreateSession)
    } else if v == -11 {
        Some(OpCode::CloseSession)
    } else if v == -1 {
        Some(OpCode::Error)
    } else {
        None
    }
}

/// The numeric mapping is invertible: every opcode's wire value denotes it.
pub proof fn lemma_op_value_roundtrip(op: OpCode)
    ensures
        op_of_value(op_value(op)) == Some(op),
{
}

/// Executable counterpart of `op_value`.
pub fn op_to_wire(op: OpCode) -> (v: i32)
    ensures
        v == op_value(op),
{
    match op {
        OpCode::Notification => 0,
        OpCode::Create => 1,
        OpCode::Delete => 2,
        OpCode::Exists => 3,
        OpCode::GetData => 4,
        OpCode::SetData => 5,
        OpCode::GetACL => 6,
        OpCode::SetACL => 7,
        OpCode::GetChildren => 8,
        OpCode::Synchronize => 9,
        OpCode::Ping => 11,
        OpCode::GetChildren2 => 12,
        OpCode::Check => 13,
        OpCode::Multi => 14,
        OpCode::Auth => 100,
        OpCode::SetWatches => 101,
        OpCode::Sasl => 102,
        OpCode::CreateSession => -10,
        OpCode::CloseSession => -11,
        OpCode::Error => -1,
    }
}

/// Executable counterpart of `op_of_value`.
pub fn op_from_wire(v: i32) -> (r: Option<OpCode>)
    ensures
        r == op_of_value(v),
{
    if v == 0 {
        Some(OpCode::Notification)
    } else if v == 1 {
        Some(OpCode::Create)
    } else if v == 2 {
        Some(OpCode::Delete)
    } else if v == 3 {
        Some(OpCode::Exists)
    } else if v == 4 {
        Some(OpCode::GetData)
    } else if v == 5 {
        Some(OpCode::SetData)
    } else if v == 6 {
        Some(OpCode::GetACL)
    } else if v == 7 {
        Some(OpCode::SetACL)
    } else if v == 8 {
        Some(OpCode::GetChildren)
    } else if v == 9 {
        Some(OpCode::Synchronize)
    } else if v == 11 {
        Some(OpCode::Ping)
    } else if v == 12 {
        Some(OpCode::GetChildren2)
    } else if v == 13 {
        Some(OpCode::Check)
    } else if v == 14 {
        Some(OpCode::Multi)
    } else if v == 100 {
        Some(OpCode::Auth)
    } else if v == 101 {
        Some(OpCode::SetWatches)
    } else if v == 102 {
        Some(OpCode::Sasl)
    } else if v == -10 {
        Some(OpCode::CreateSession)
    } else if v == -11 {
        Some(OpCode::CloseSession)
    } else if v == -1 {
        Some(OpCode::Error)
    } else {
        None
    }
}

/// Largest value the signed 32-bit length prefix can carry.
pub const MAX_I32_LEN: usize = 0x7fff_ffff;

/// The handshake request: sent once, before any xid-carrying traffic.
#[derive(Debug, Clone)]
pub struct ConnectRequest {
    pub protocol_version: i32,
    pub last_zxid_seen: i64,
    pub timeout_ms: i32,
    pub session_id: i64,
    pub passwd: Vec<u8>,
    pub read_only: bool,
}

/// Mathematical image of a `ConnectRequest`.
pub struct ConnectRequestView {
    pub protocol_version: i32,
    pub last_zxid_seen: i64,
    pub timeout_ms: i32,
    pub session_id: i64,
    pub passwd: Seq<u8>,
    pub read_only: bool,
}

impl View for ConnectRequest {
    type V = ConnectRequestView;

    open spec fn view(&self) -> ConnectRequestView {
        ConnectRequestView {
            protocol_version: self.protocol_version,
            last_zxid_seen: self.last_zxid_seen,
            timeout_ms: self.timeout_ms,
            session_id: self.session_id,
            passwd: self.passwd@,
            read_only: self.read_only,
        }
    }
}

/// The server's answer to the handshake request.
#[derive(Debug, Clone)]
pub struct ConnectResponse {
    pub protocol_version: i32,
    pub timeout_ms: i32,
    pub session_id: i64,
    pub passwd: Vec<u8>,
    pub read_only: bool,
}

/// Mathematical image of a `ConnectResponse`.
pub struct ConnectResponseView {
    pub protocol_version: i32,
    pub timeout_ms: i32,
    pub session_id: i64,
    pub passwd: Seq<u8>,
    pub read_only: bool,
}

impl View for ConnectResponse {
    type V = ConnectResponseView;

    open spec fn view(&self) -> ConnectResponseView {
        ConnectResponseView {
            protocol_version: self.protocol_version,
            timeout_ms: self.timeout_ms,
            session_id: self.session_id,
            passwd: self.passwd@,
            read_only: self.read_only,
        }
    }
}

/// A decoded non-handshake response frame; the payload stays opaque.
#[derive(Debug, Clone)]
pub struct Response {
    pub xid: i32,
    pub zxid: i64,
    pub err_code: i32,
    pub payload: Vec<u8>,
}

/// Mathematical image of a `Response`.
pub struct ResponseView {
    pub xid: i32,
    pub zxid: i64,
    pub err_code: i32,
    pub payload: Seq<u8>,
}

impl View for Response {
    type V = ResponseView;

    open spec fn view(&self) -> ResponseView {
        ResponseView {
            xid: self.xid,
            zxid: self.zxid,
            err_code: self.err_code,
            payload: self.payload@,
        }
    }
}

/// Why a frame body could not be decoded.
#[derive(Clone, Copy, PartialEq, Eq, Structural, Debug)]
pub enum DecodeError {
    /// The body ends before the fixed-size fields do.
    Truncated,
    /// The opcode field carries a value outside the closed enumeration.
    UnknownOpCode,
    /// A length field inside the body disagrees with the body's extent.
    LengthMismatch,
}

/// A body together with its big-endian length prefix: one wire frame.
pub open spec fn framed(body: Seq<u8>) -> Seq<u8>
    recommends
        body.len() <= MAX_I32_LEN,
{
    be32(body.len() as u32) + body
}

/// Body of a general request frame: xid, opcode, then the opaque payload.
pub open spec fn request_body(xid: i32, op: OpCode, payload: Seq<u8>) -> Seq<u8> {
    be32(i32_to_wire(xid)) + be32(i32_to_wire(op_value(op))) + payload
}

/// Fields denoted by a general request frame body, if it is well-formed.
pub open spec fn parse_request_body(b: Seq<u8>) -> Option<(i32, OpCode, Seq<u8>)> {
    if b.len() >= 8 {
        match op_of_value(wire_to_i32(be32_val(b.subrange(4, 8)))) {
            Some(op) => Some((wire_to_i32(be32_val(b.subrange(0, 4))), op, b.skip(8))),
            None => None,
        }
    } else {
        None
    }
}

/// Body of the handshake request frame: fixed positional fields, no xid.
pub open spec fn connect_body(c: ConnectRequestView) -> Seq<u8>
    recommends
        c.passwd.len() + 29 <= MAX_I32_LEN,
{
    be32(i32_to_wire(c.protocol_version)) + be64(i64_to_wire(c.last_zxid_seen)) + be32(
        i32_to_wire(c.timeout_ms),
    ) + be64(i64_to_wire(c.session_id)) + be32(c.passwd.len() as u32) + c.passwd + seq![
        if c.read_only {
            1u8
        } else {
            0u8
        },
    ]
}

/// Fields denoted by a handshake request frame body, if it is well-formed.
pub open spec fn parse_connect_body(b: Seq<u8>) -> Option<ConnectRequestView> {
    if b.len() >= 29 {
        let plen = wire_to_i32(be32_val(b.subrange(24, 28)));
        if 0 <= plen && b.len() == 29 + plen {
            Some(
                ConnectRequestView {
                    protocol_version: wire_to_i32(be32_val(b.subrange(0, 4))),
                    last_zxid_seen: wire_to_i64(be64_val(b.subrange(4, 12))),
                    timeout_ms: wire_to_i32(be32_val(b.subrange(12, 16))),
                    session_id: wire_to_i64(be64_val(b.subrange(16, 24))),
                    passwd: b.subrange(28, 28 + plen),
                    read_only: b[b.len() - 1] != 0,
                },
            )
        } else {
            None
        }
    } else {
        None
    }
}

/// Body of the handshake response frame.
pub open spec fn connect_response_body(c: ConnectResponseView) -> Seq<u8>
    recommends
        c.passwd.len() + 21 <= MAX_I32_LEN,
{
    be32(i32_to_wire(c.protocol_version)) + be32(i32_to_wire(c.timeout_ms)) + be64(
        i64_to_wire(c.session_id),
    ) + be32(c.passwd.len() as u32) + c.passwd + seq![
        if c.read_only {
            1u8
        } else {
            0u8
        },
    ]
}

/// Fields denoted by a handshake response frame body, if it is well-formed.
pub open spec fn parse_connect_response_body(b: Seq<u8>) -> Option<ConnectResponseView> {
    if b.len() >= 21 {
        let plen = wire_to_i32(be32_val(b.subrange(16, 20)));
        if 0 <= plen && b.len() == 21 + plen {
            Some(
                ConnectResponseView {
                    protocol_version: wire_to_i32(be32_val(b.subrange(0, 4))),
                    timeout_ms: wire_to_i32(be32_val(b.subrange(4, 8))),
                    session_id: wire_to_i64(be64_val(b.subrange(8, 16))),
                    passwd: b.subrange(20, 20 + plen),
                    read_only: b[b.len() - 1] != 0,
                },
            )
        } else {
            None
        }
    } else {
        None
    }
}

/// Body of a generic response frame: xid, zxid, error code, opaque payload.
pub open spec fn response_body(r: ResponseView) -> Seq<u8> {
    be32(i32_to_wire(r.xid)) + be64(i64_to_wire(r.zxid)) + be32(i32_to_wire(r.err_code))
        + r.payload
}

/// Fields denoted by a generic response frame body, if it is long enough.
pub open spec fn parse_response_body(b: Seq<u8>) -> Option<ResponseView> {
    if b.len() >= 16 {
        Some(
            ResponseView {
                xid: wire_to_i32(be32_val(b.subrange(0, 4))),
                zxid: wire_to_i64(be64_val(b.subrange(4, 12))),
                err_code: wire_to_i32(be32_val(b.subrange(12, 16))),
                payload: b.skip(16),
            },
        )
    } else {
        None
    }
}

/// Round-trip law: decoding an encoded general request reproduces its
/// xid, opcode and payload exactly.
pub proof fn lemma_request_roundtrip(xid: i32, op: OpCode, payload: Seq<u8>)
    ensures
        parse_request_body(request_body(xid, op, payload)) == Some((xid, op, payload)),
{
    let b = request_body(xid, op, payload);
    assert(b.subrange(0, 4) =~= be32(i32_to_wire(xid)));
    assert(b.subrange(4, 8) =~= be32(i32_to_wire(op_value(op))));
    assert(b.skip(8) =~= payload);
    lemma_be32_roundtrip(i32_to_wire(xid));
    lemma_be32_roundtrip(i32_to_wire(op_value(op)));
    lemma_op_value_roundtrip(op);
}

/// Round-trip law: decoding an encoded handshake request reproduces its
/// fields exactly.
pub proof fn lemma_connect_roundtrip(c: ConnectRequestView)
    requires
        c.passwd.len() + 29 <= MAX_I32_LEN,
    ensures
        parse_connect_body(connect_body(c)) == Some(c),
{
    let b = connect_body(c);
    let plen = c.passwd.len() as int;
    assert(b.len() == 29 + plen);
    assert(b.subrange(0, 4) =~= be32(i32_to_wire(c.protocol_version)));
    assert(b.subrange(4, 12) =~= be64(i64_to_wire(c.last_zxid_seen)));
    assert(b.subrange(12, 16) =~= be32(i32_to_wire(c.timeout_ms)));
    assert(b.subrange(16, 24) =~= be64(i64_to_wire(c.session_id)));
    assert(b.subrange(24, 28) =~= be32(c.passwd.len() as u32));
    assert(b.subrange(28, 28 + plen) =~= c.passwd);
    lemma_be32_roundtrip(i32_to_wire(c.protocol_version));
    lemma_be64_roundtrip(i64_to_wire(c.last_zxid_seen));
    lemma_be32_roundtrip(i32_to_wire(c.timeout_ms));
    lemma_be64_roundtrip(i64_to_wire(c.session_id));
    lemma_be32_roundtrip(c.passwd.len() as u32);
    assert(wire_to_i32(c.passwd.len() as u32) == plen);
    assert(b[b.len() - 1] == if c.read_only {
        1u8
    } else {
        0u8
    });
}

/// Round-trip law: decoding an encoded handshake response reproduces its
/// fields exactly.
pub proof fn lemma_connect_response_roundtrip(c: ConnectResponseView)
    requires
        c.passwd.len() + 21 <= MAX_I32_LEN,
    ensures
        parse_connect_response_body(connect_response_body(c)) == Some(c),
{
    let b = connect_response_body(c);
    let plen = c.passwd.len() as int;
    assert(b.len() == 21 + plen);
    assert(b.subrange(0, 4) =~= be32(i32_to_wire(c.protocol_version)));
    assert(b.subrange(4, 8) =~= be32(i32_to_wire(c.timeout_ms)));
    assert(b.subrange(8, 16) =~= be64(i64_to_wire(c.session_id)));
    assert(b.subrange(16, 20) =~= be32(c.passwd.len() as u32));
    assert(b.subrange(20, 20 + plen) =~= c.passwd);
    lemma_be32_roundtrip(i32_to_wire(c.protocol_version));
    lemma_be32_roundtrip(i32_to_wire(c.timeout_ms));
    lemma_be64_roundtrip(i64_to_wire(c.session_id));
    lemma_be32_roundtrip(c.passwd.len() as u32);
    assert(wire_to_i32(c.passwd.len() as u32) == plen);
    assert(b[b.len() - 1] == if c.read_only {
        1u8
    } else {
        0u8
    });
}

/// Round-trip law: decoding an encoded generic response reproduces its
/// fields exactly.
pub proof fn lemma_response_roundtrip(r: ResponseView)
    ensures
        parse_response_body(response_body(r)) == Some(r),
{
    let b = response_body(r);
    assert(b.subrange(0, 4) =~= be32(i32_to_wire(r.xid)));
    assert(b.subrange(4, 12) =~= be64(i64_to_wire(r.zxid)));
    assert(b.subrange(12, 16) =~= be32(i32_to_wire(r.err_code)));
    assert(b.skip(16) =~= r.payload);
    lemma_be32_roundtrip(i32_to_wire(r.xid));
    lemma_be64_roundtrip(i64_to_wire(r.zxid));
    lemma_be32_roundtrip(i32_to_wire(r.err_code));
}

/// Encodes a general request as one self-contained frame.
pub fn encode_request(xid: i32, op: OpCode, payload: &Vec<u8>) -> (f: Vec<u8>)
    requires
        payload@.len() + 8 <= MAX_I32_LEN,
    ensures
        f@ == framed(request_body(xid, op, payload@)),
{
    let total: usize = 8 + payload.len();
    let mut f: Vec<u8> = Vec::new();
    push_u32_be(&mut f, total as u32);
    push_u32_be(&mut f, i32_to_u32(xid));
    push_u32_be(&mut f, i32_to_u32(op_to_wire(op)));
    push_bytes(&mut f, payload);
    assert(f@ =~= framed(request_body(xid, op, payload@)));
    f
}

/// Encodes the handshake request as one self-contained frame.
pub fn encode_connect(c: &ConnectRequest) -> (f: Vec<u8>)
    requires
        c@.passwd.len() + 29 <= MAX_I32_LEN,
    ensures
        f@ == framed(connect_body(c@)),
{
    let total: usize = 29 + c.passwd.len();
    let mut f: Vec<u8> = Vec::new();
    push_u32_be(&mut f, total as u32);
    push_u32_be(&mut f, i32_to_u32(c.protocol_version));
    push_u64_be(&mut f, i64_to_u64(c.last_zxid_seen));
    push_u32_be(&mut f, i32_to_u32(c.timeout_ms));
    push_u64_be(&mut f, i64_to_u64(c.session_id));
    push_u32_be(&mut f, c.passwd.len() as u32);
    push_bytes(&mut f, &c.passwd);
    f.push(if c.read_only { 1 } else { 0 });
    assert(f@ =~= framed(connect_body(c@)));
    f
}

/// Encodes a handshake response as one self-contained frame.
pub fn encode_connect_response(c: &ConnectResponse) -> (f: Vec<u8>)
    requires
        c@.passwd.len() + 21 <= MAX_I32_LEN,
    ensures
        f@ == framed(connect_response_body(c@)),
{
    let total: usize = 21 + c.passwd.len();
    let mut f: Vec<u8> = Vec::new();
    push_u32_be(&mut f, total as u32);
    push_u32_be(&mut f, i32_to_u32(c.protocol_version));
    push_u32_be(&mut f, i32_to_u32(c.timeout_ms));
    push_u64_be(&mut f, i64_to_u64(c.session_id));
    push_u32_be(&mut f, c.passwd.len() as u32);
    push_bytes(&mut f, &c.passwd);
    f.push(if c.read_only { 1 } else { 0 });
    assert(f@ =~= framed(connect_response_body(c@)));
    f
}

/// Encodes a generic response as one self-contained frame.
pub fn encode_response(r: &Response) -> (f: Vec<u8>)
    requires
        r@.payload.len() + 16 <= MAX_I32_LEN,
    ensures
        f@ == framed(response_body(r@)),
{
    let total: usize = 16 + r.payload.len();
    let mut f: Vec<u8> = Vec::new();
    push_u32_be(&mut f, total as u32);
    push_u32_be(&mut f, i32_to_u32(r.xid));
    push_u64_be(&mut f, i64_to_u64(r.zxid));
    push_u32_be(&mut f, i32_to_u32(r.err_code));
    push_bytes(&mut f, &r.payload);
    assert(f@ =~= framed(response_body(r@)));
    f
}

/// Decodes a general request frame body.
pub fn decode_request(body: &Vec<u8>) -> (r: Result<(i32, OpCode, Vec<u8>), DecodeError>)
    ensures
        parse_request_body(body@) matches Some(t) ==> (r matches Ok(v) && v.0 == t.0 && v.1 == t.1
            && v.2@ == t.2),
        body@.len() < 8 ==> r == Err::<(i32, OpCode, Vec<u8>), DecodeError>(DecodeError::Truncated),
        body@.len() >= 8 && parse_request_body(body@) is None ==> r == Err::<
            (i32, OpCode, Vec<u8>),
            DecodeError,
        >(DecodeError::UnknownOpCode),
{
    let n = body.len();
    if n < 8 {
        return Err(DecodeError::Truncated);
    }
    let xid = u32_to_i32(read_u32_be(body, 0));
    let opv = u32_to_i32(read_u32_be(body, 4));
    match op_from_wire(opv) {
        Some(op) => {
            let payload = copy_range(body, 8, n);
            assert(payload@ =~= body@.skip(8));
            Ok((xid, op, payload))
        },
        None => Err(DecodeError::UnknownOpCode),
    }
}

/// Decodes a handshake request frame body.
pub fn decode_connect(body: &Vec<u8>) -> (r: Result<ConnectRequest, DecodeError>)
    ensures
        parse_connect_body(body@) matches Some(c) ==> (r matches Ok(v) && v@ == c),
        body@.len() < 29 ==> r == Err::<ConnectRequest, DecodeError>(DecodeError::Truncated),
        body@.len() >= 29 && parse_connect_body(body@) is None ==> r == Err::<
            ConnectRequest,
            DecodeError,
        >(DecodeError::LengthMismatch),
{
    let n = body.len();
    if n < 29 {
        return Err(DecodeError::Truncated);
    }
    let plen_u = read_u32_be(body, 24);
    if plen_u >= 0x8000_0000 {
        return Err(DecodeError::LengthMismatch);
    }
    let plen = plen_u as usize;
    if n != 29 + plen {
        return Err(DecodeError::LengthMismatch);
    }
    let passwd = copy_range(body, 28, 28 + plen);
    let c = ConnectRequest {
        protocol_version: u32_to_i32(read_u32_be(body, 0)),
        last_zxid_seen: u64_to_i64(read_u64_be(body, 4)),
        timeout_ms: u32_to_i32(read_u32_be(body, 12)),
        session_id: u64_to_i64(read_u64_be(body, 16)),
        passwd,
        read_only: body[n - 1] != 0,
    };
    Ok(c)
}

/// Decodes a handshake response frame body.
pub fn decode_connect_response(body: &Vec<u8>) -> (r: Result<ConnectResponse, DecodeError>)
    ensures
        parse_connect_response_body(body@) matches Some(c) ==> (r matches Ok(v) && v@ == c),
        body@.len() < 21 ==> r == Err::<ConnectResponse, DecodeError>(DecodeError::Truncated),
        body@.len() >= 21 && parse_connect_response_body(body@) is None ==> r == Err::<
            ConnectResponse,
            DecodeError,
        >(DecodeError::LengthMismatch),
{
    let n = body.len();
    if n < 21 {
        return Err(DecodeError::Truncated);
    }
    let plen_u = read_u32_be(body, 16);
    if plen_u >= 0x8000_0000 {
        return Err(DecodeError::LengthMismatch);
    }
    let plen = plen_u as usize;
    if n != 21 + plen {
        return Err(DecodeError::LengthMismatch);
    }
    let passwd = copy_range(body, 20, 20 + plen);
    let c = ConnectResponse {
        protocol_version: u32_to_i32(read_u32_be(body, 0)),
        timeout_ms: u32_to_i32(read_u32_be(body, 4)),
        session_id: u64_to_i64(read_u64_be(body, 8)),
        passwd,
        read_only: body[n - 1] != 0,
    };
    Ok(c)
}

/// Decodes a generic response frame body.
pub fn decode_response(body: &Vec<u8>) -> (r: Result<Response, DecodeError>)
    ensures
        parse_response_body(body@) matches Some(v) ==> (r matches Ok(resp) && resp@ == v),
        parse_response_body(body@) is None ==> r == Err::<Response, DecodeError>(
            DecodeError::Truncated,
        ),
{
    let n = body.len();
    if n < 16 {
        return Err(DecodeError::Truncated);
    }
    let payload = copy_range(body, 16, n);
    assert(payload@ =~= body@.skip(16));
    let resp = Response {
        xid: u32_to_i32(read_u32_be(body, 0)),
        zxid: u64_to_i64(read_u64_be(body, 4)),
        err_code: u32_to_i32(read_u32_be(body, 12)),
        payload,
    };
    Ok(resp)
}

} // verus!
