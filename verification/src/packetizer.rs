//! Packetizer: the driver that composes the codec, the two buffers, the
//! correlation table and the handshake sequencer over one duplex stream.
//!
//! The engine performs no I/O itself.  A caller (an event loop, a blocking
//! thread, an async task) writes `pending_output` to the transport and
//! reports progress with `mark_flushed`, hands every batch of bytes read
//! from the transport to `feed`, and then calls `process`, the engine's one
//! suspension point: it consumes complete frames until none remains and
//! reports "would block" rather than waiting.
//!
//! Every observable effect is specified against `EngineModel`, the
//! mathematical image of the engine, and `engine_step`, the transition
//! function one processed frame corresponds to.

use vstd::prelude::*;
use crate::codec::{
    framed, connect_body, parse_connect_response_body, parse_response_body, encode_connect,
    encode_request, decode_connect_response, decode_response, ConnectRequest, ConnectRequestView,
    OpCode, Response, ResponseView, MAX_I32_LEN,
};
use crate::inbox::{Inbox, frame_split, length_malformed};
use crate::outbox::Outbox;
use crate::table::CorrelationTable;

verus! {

/// The xid a server-pushed notification frame carries; no waiter is looked
/// up for it.
pub const NOTIFICATION_XID: i32 = -1;

/// Whether `submit` is accepted.
#[derive(Clone, Copy, PartialEq, Eq, Structural, Debug)]
pub enum SessionState {
    Disconnected,
    Handshaking,
    Established,
    Closed,
}

/// Progress of the one-shot Connect exchange.
#[derive(Clone, Copy, PartialEq, Eq, Structural, Debug)]
pub enum HandshakeState {
    NotStarted,
    Sent,
    Confirmed,
    Failed,
}

/// Why a `submit` call was refused.
#[derive(Clone, Copy, PartialEq, Eq, Structural, Debug)]
pub enum SubmitError {
    /// The handshake has not completed (or the session is gone); the caller
    /// may retry after `connect` completes.
    NotEstablished,
    /// Xid generation collided with a still-pending request: a client-side
    /// bug, fatal to the session.
    DuplicateXid,
}

/// A violation that tears the session down.
#[derive(Clone, Copy, PartialEq, Eq, Structural, Debug)]
pub enum FatalError {
    /// A frame declared a negative or over-maximum length, or one too short
    /// for the fields it must carry.
    MalformedLength,
    /// The server referenced a request never sent or already resolved.
    UnknownXid,
    /// The Connect response was structurally invalid or not acceptable.
    HandshakeFailed,
}

/// How one settled `submit` handle ended.
#[derive(Debug, Clone)]
pub enum ReplyOutcome {
    /// The matching response frame arrived.
    Reply(Response),
    /// The session was torn down while the request was pending.
    ConnectionClosed,
}

/// Mathematical image of a `ReplyOutcome`.
pub enum ReplyOutcomeView {
    Reply(ResponseView),
    ConnectionClosed,
}

impl View for ReplyOutcome {
    type V = ReplyOutcomeView;

    open spec fn view(&self) -> ReplyOutcomeView {
        match self {
            ReplyOutcome::Reply(r) => ReplyOutcomeView::Reply(r@),
            ReplyOutcome::ConnectionClosed => ReplyOutcomeView::ConnectionClosed,
        }
    }
}

/// What one `process_one` call routed.
#[derive(Clone, Copy, PartialEq, Eq, Structural, Debug)]
pub enum Routed {
    /// The Connect response was accepted; general traffic may flow.
    HandshakeConfirmed,
    /// A response was matched to its waiter and settled.
    ReplyDelivered,
    /// A server-pushed notification was queued for the watch-callback path.
    NotificationDelivered,
}

/// Mathematical image of the whole engine.
#[verifier::ext_equal]
pub struct EngineModel {
    /// Whether `submit` is accepted.
    pub session: SessionState,
    /// Progress of the Connect exchange.
    pub handshake: HandshakeState,
    /// Bytes framed and not yet written to the transport, in order.
    pub out: Seq<u8>,
    /// Bytes read from the transport and not yet parsed, in order.
    pub inn: Seq<u8>,
    /// Xids of requests whose responses are outstanding, in order.
    pub pending: Seq<i32>,
    /// The xid the next accepted `submit` will take.
    pub next_xid: i32,
    /// Settled handles, oldest first.
    pub settled: Seq<(i32, ReplyOutcomeView)>,
    /// Server-pushed notifications awaiting the watch-callback path.
    pub notifications: Seq<ResponseView>,
    /// Largest frame body the engine will assemble.
    pub limit: usize,
    /// Session id the server declared; meaningful once Confirmed.
    pub session_id: i64,
    /// Timeout the server negotiated; meaningful once Confirmed.
    pub timeout_ms: i32,
}

/// Each aborted xid settled with the uniform connection-closed cause.
pub open spec fn aborted(xids: Seq<i32>) -> Seq<(i32, ReplyOutcomeView)> {
    xids.map_values(|x: i32| (x, ReplyOutcomeView::ConnectionClosed))
}

/// Mathematical image of the settled-handle log.
pub open spec fn settled_views(s: Seq<(i32, ReplyOutcome)>) -> Seq<(i32, ReplyOutcomeView)> {
    s.map_values(|p: (i32, ReplyOutcome)| (p.0, p.1@))
}

/// Teardown: the session closes, buffers are released, and every pending
/// handle settles with the uniform connection-closed cause.
pub open spec fn model_shutdown(m: EngineModel) -> EngineModel {
    EngineModel {
        session: SessionState::Closed,
        out: Seq::empty(),
        inn: Seq::empty(),
        pending: Seq::empty(),
        settled: m.settled + aborted(m.pending),
        ..m
    }
}

/// Teardown after a handshake that cannot succeed; Failed is terminal.
pub open spec fn model_handshake_failed(m: EngineModel) -> EngineModel {
    EngineModel { handshake: HandshakeState::Failed, ..model_shutdown(m) }
}

/// The pending xids with the (unique) occurrence of `x` removed.
pub open spec fn remove_pending(s: Seq<i32>, x: i32) -> Seq<i32>
    recommends
        s.contains(x),
{
    s.remove(s.index_of(x))
}

/// The next xid the counter assigns: strictly increasing, wrapping back to
/// the start when exhausted, never touching the notification sentinel.
pub open spec fn wrap_next(x: i32) -> i32 {
    if x == i32::MAX {
        1
    } else {
        (x + 1) as i32
    }
}

/// Xids grow strictly until the counter wraps, and the wrap restarts at the
/// first assignable xid; the notification sentinel is never assigned.
pub proof fn lemma_xid_progression(x: i32)
    requires
        1 <= x,
    ensures
        x < i32::MAX ==> wrap_next(x) > x,
        x == i32::MAX ==> wrap_next(x) == 1,
        wrap_next(x) != NOTIFICATION_XID && wrap_next(x) >= 1,
{
}

/// The transition one processed frame corresponds to: the model after the
/// step, and what the step reported.
pub open spec fn engine_step(m: EngineModel) -> (EngineModel, Result<Option<Routed>, FatalError>) {
    if m.session == SessionState::Handshaking {
        if length_malformed(m.inn, m.limit as int) {
            (model_handshake_failed(m), Err(FatalError::HandshakeFailed))
        } else {
            match frame_split(m.inn, m.limit as int) {
                Some(t) => match parse_connect_response_body(t.0) {
                    Some(c) => if c.protocol_version == 0 {
                        (
                            EngineModel {
                                session: SessionState::Established,
                                handshake: HandshakeState::Confirmed,
                                inn: t.1,
                                session_id: c.session_id,
                                timeout_ms: c.timeout_ms,
                                ..m
                            },
                            Ok(Some(Routed::HandshakeConfirmed)),
                        )
                    } else {
                        (model_handshake_failed(m), Err(FatalError::HandshakeFailed))
                    },
                    None => (model_handshake_failed(m), Err(FatalError::HandshakeFailed)),
                },
                None => (m, Ok(None)),
            }
        }
    } else if m.session == SessionState::Established {
        if length_malformed(m.inn, m.limit as int) {
            (model_shutdown(m), Err(FatalError::MalformedLength))
        } else {
            match frame_split(m.inn, m.limit as int) {
                Some(t) => match parse_response_body(t.0) {
                    Some(v) => if v.xid == NOTIFICATION_XID {
                        (
                            EngineModel { inn: t.1, notifications: m.notifications.push(v), ..m },
                            Ok(Some(Routed::NotificationDelivered)),
                        )
                    } else if m.pending.contains(v.xid) {
                        (
                            EngineModel {
                                inn: t.1,
                                pending: remove_pending(m.pending, v.xid),
                                settled: m.settled.push((v.xid, ReplyOutcomeView::Reply(v))),
                                ..m
                            },
                            Ok(Some(Routed::ReplyDelivered)),
                        )
                    } else {
                        (model_shutdown(m), Err(FatalError::UnknownXid))
                    },
                    None => (model_shutdown(m), Err(FatalError::MalformedLength)),
                },
                None => (m, Ok(None)),
            }
        }
    } else {
        (m, Ok(None))
    }
}

/// A frame carrying the notification sentinel goes to the watch-callback
/// queue: it settles no waiter, touches no pending entry, and is never an
/// unknown-xid violation, even though no `submit` registered that xid.
pub proof fn lemma_notification_routed(m: EngineModel, body: Seq<u8>, rest: Seq<u8>)
    requires
        m.session == SessionState::Established,
        !length_malformed(m.inn, m.limit as int),
        frame_split(m.inn, m.limit as int) == Some((body, rest)),
        parse_response_body(body) matches Some(v) && v.xid == NOTIFICATION_XID,
    ensures
        engine_step(m).1 == Ok::<Option<Routed>, FatalError>(
            Some(Routed::NotificationDelivered),
        ),
        engine_step(m).0.notifications == m.notifications.push(
            parse_response_body(body).unwrap(),
        ),
        engine_step(m).0.pending == m.pending,
        engine_step(m).0.settled == m.settled,
        engine_step(m).0.session == SessionState::Established,
{
}

/// A step that routed a frame consumed that frame from the input.
pub proof fn lemma_step_consumes(m: EngineModel)
    requires
        engine_step(m).1 matches Ok(Some(_)),
    ensures
        engine_step(m).0.inn.len() < m.inn.len(),
{
}

/// Exhaustive processing: steps taken until one reports "would block" or
/// fails; what `process` does in one call.
pub open spec fn engine_run(m: EngineModel) -> (EngineModel, Result<(), FatalError>)
    decreases m.inn.len(),
    via engine_run_dec
{
    match engine_step(m).1 {
        Err(f) => (engine_step(m).0, Err(f)),
        Ok(None) => (engine_step(m).0, Ok(())),
        Ok(Some(_)) => engine_run(engine_step(m).0),
    }
}

#[via_fn]
proof fn engine_run_dec(m: EngineModel) {
    if engine_step(m).1 matches Ok(Some(_)) {
        lemma_step_consumes(m);
    }
}

/// A run that reports "would block" has truly drained the input: in a live
/// session no complete admissible frame remains, so calling again without
/// feeding more bytes changes nothing.
pub proof fn lemma_run_would_block(m: EngineModel)
    requires
        engine_run(m).1 == Ok::<(), FatalError>(()),
    ensures
        (engine_run(m).0.session == SessionState::Handshaking || engine_run(m).0.session
            == SessionState::Established) ==> !length_malformed(
            engine_run(m).0.inn,
            engine_run(m).0.limit as int,
        ) && frame_split(engine_run(m).0.inn, engine_run(m).0.limit as int) is None,
        engine_run(engine_run(m).0) == engine_run(m),
    decreases m.inn.len(),
{
    match engine_step(m).1 {
        Ok(Some(_)) => {
            lemma_step_consumes(m);
            lemma_run_would_block(engine_step(m).0);
        },
        _ => {},
    }
}

/// The engine a fresh `connect` call builds: handshake enqueued and sent,
/// nothing pending, the counter at its first xid.
pub open spec fn initial_model(c: ConnectRequestView, limit: usize) -> EngineModel {
    EngineModel {
        session: SessionState::Handshaking,
        handshake: HandshakeState::Sent,
        out: framed(connect_body(c)),
        inn: Seq::empty(),
        pending: Seq::empty(),
        next_xid: 1,
        settled: Seq::empty(),
        notifications: Seq::empty(),
        limit,
        session_id: 0,
        timeout_ms: 0,
    }
}

/// The engine: owns both buffers, the correlation table and the two state
/// machines for the lifetime of one connection.
pub struct Packetizer {
    state: SessionState,
    hs: HandshakeState,
    outbox: Outbox,
    inbox: Inbox,
    table: CorrelationTable,
    next_xid: i32,
    settled: Vec<(i32, ReplyOutcome)>,
    notifications: Vec<Response>,
    max_frame: usize,
    session_id: i64,
    timeout_ms: i32,
}

impl Packetizer {
    /// Mathematical image of the engine.
    pub closed spec fn model(&self) -> EngineModel {
        EngineModel {
            session: self.state,
            handshake: self.hs,
            out: self.outbox.pending(),
            inn: self.inbox.pending(),
            pending: self.table.pending(),
            next_xid: self.next_xid,
            settled: settled_views(self.settled@),
            notifications: self.notifications@.map_values(|r: Response| r@),
            limit: self.max_frame,
            session_id: self.session_id,
            timeout_ms: self.timeout_ms,
        }
    }

    /// Structural soundness: buffers and table well formed, the counter in
    /// its assignable range, the frame limit expressible as an `i32`, and
    /// the two state machines in agreement.
    pub closed spec fn wf(&self) -> bool {
        &&& self.outbox.wf()
        &&& self.inbox.wf()
        &&& self.table.wf()
        &&& self.next_xid >= 1
        &&& 8 <= self.max_frame <= MAX_I32_LEN
        &&& (self.state == SessionState::Established ==> self.hs == HandshakeState::Confirmed)
        &&& (self.state == SessionState::Handshaking ==> self.hs == HandshakeState::Sent)
    }

    /// Opens the single construction path: encodes and enqueues the Connect
    /// request and waits for the very first frame to confirm it.
    pub fn connect(c: &ConnectRequest, max_frame: usize) -> (p: Packetizer)
        requires
            c@.passwd.len() + 29 <= MAX_I32_LEN,
            8 <= max_frame <= MAX_I32_LEN,
        ensures
            p.wf(),
            p.model() == initial_model(c@, max_frame),
    {
        let frame = encode_connect(c);
        let mut outbox = Outbox::new();
        outbox.enqueue(&frame);
        let p = Packetizer {
            state: SessionState::Handshaking,
            hs: HandshakeState::Sent,
            outbox,
            inbox: Inbox::new(),
            table: CorrelationTable::new(),
            next_xid: 1,
            settled: Vec::new(),
            notifications: Vec::new(),
            max_frame,
            session_id: 0,
            timeout_ms: 0,
        };
        assert(p.model() =~= initial_model(c@, max_frame));
        p
    }

    /// Current session state.
    pub fn session_state(&self) -> (r: SessionState)
        ensures
            r == self.model().session,
    {
        self.state
    }

    /// Current handshake state.
    pub fn handshake_state(&self) -> (r: HandshakeState)
        ensures
            r == self.model().handshake,
    {
        self.hs
    }

    /// Session id the server declared, once the handshake is confirmed.
    pub fn session_id(&self) -> (r: i64)
        ensures
            r == self.model().session_id,
    {
        self.session_id
    }

    /// Timeout the server negotiated, once the handshake is confirmed.
    pub fn negotiated_timeout_ms(&self) -> (r: i32)
        ensures
            r == self.model().timeout_ms,
    {
        self.timeout_ms
    }

    /// Largest frame body the engine will assemble.
    pub fn frame_limit(&self) -> (r: usize)
        ensures
            r == self.model().limit,
    {
        self.max_frame
    }

    /// How many requests still await their responses.
    pub fn pending_count(&self) -> (r: usize)
        ensures
            r == self.model().pending.len(),
    {
        self.table.len()
    }

    /// A copy of the bytes awaiting the transport, in flush order.
    pub fn pending_output(&self) -> (r: Vec<u8>)
        requires
            self.wf(),
        ensures
            r@ == self.model().out,
    {
        self.outbox.pending_bytes()
    }

    /// Records that the transport accepted `n` bytes of `pending_output`;
    /// under a partial write the remainder stays queued, in order.
    pub fn mark_flushed(&mut self, n: usize)
        requires
            old(self).wf(),
            n <= old(self).model().out.len(),
        ensures
            final(self).wf(),
            final(self).model() == (EngineModel {
                out: old(self).model().out.skip(n as int),
                ..old(self).model()
            }),
    {
        self.outbox.advance(n);
        assert(self.model() =~= (EngineModel {
            out: old(self).model().out.skip(n as int),
            ..old(self).model()
        }));
    }

    /// Tears the session down: Closed, buffers released, every pending
    /// handle settled with the uniform connection-closed cause, the table
    /// left empty.
    pub fn shutdown(&mut self)
        requires
            old(self).wf(),
        ensures
            final(self).wf(),
            final(self).model() == model_shutdown(old(self).model()),
    {
        self.state = SessionState::Closed;
        self.outbox.clear();
        self.inbox.clear();
        proof {
            self.table.lemma_no_dup();
        }
        let xids = self.table.abort_all();
        let mut k: usize = 0;
        while k < xids.len()
            invariant
                k <= xids@.len(),
                xids@ == old(self).model().pending,
                self.state == SessionState::Closed,
                self.hs == old(self).hs,
                self.outbox.wf(),
                self.outbox.pending() == Seq::<u8>::empty(),
                self.inbox.wf(),
                self.inbox.pending() == Seq::<u8>::empty(),
                self.table.wf(),
                self.table.pending() == Seq::<i32>::empty(),
                self.next_xid == old(self).next_xid,
                self.max_frame == old(self).max_frame,
                self.session_id == old(self).session_id,
                self.timeout_ms == old(self).timeout_ms,
                self.notifications == old(self).notifications,
                old(self).wf(),
                settled_views(self.settled@) == settled_views(old(self).settled@) + aborted(
                    xids@.take(k as int),
                ),
            decreases xids@.len() - k,
        {
            let ghost prev = self.settled@;
            self.settled.push((xids[k], ReplyOutcome::ConnectionClosed));
            proof {
                let base = settled_views(old(self).settled@);
                let target = base + aborted(xids@.take(k as int + 1));
                assert(aborted(xids@.take(k as int + 1)).len() == k + 1);
                assert(aborted(xids@.take(k as int)).len() == k as int);
                assert(settled_views(prev).len() == base.len() + k);
                assert forall|j: int|
                    0 <= j < settled_views(self.settled@).len() implies settled_views(
                    self.settled@,
                )[j] == target[j] by {
                    if j < base.len() {
                        assert(settled_views(self.settled@)[j] == settled_views(prev)[j]);
                        assert(settled_views(prev)[j] == base[j]);
                        assert(target[j] == base[j]);
                    } else if j < settled_views(prev).len() {
                        assert(settled_views(self.settled@)[j] == settled_views(prev)[j]);
                        assert(settled_views(prev)[j] == aborted(xids@.take(k as int))[j
                            - base.len()]);
                        assert(aborted(xids@.take(k as int))[j - base.len()] == (xids@[j
                            - base.len()], ReplyOutcomeView::ConnectionClosed));
                        assert(target[j] == aborted(xids@.take(k as int + 1))[j - base.len()]);
                        assert(aborted(xids@.take(k as int + 1))[j - base.len()] == (xids@[j
                            - base.len()], ReplyOutcomeView::ConnectionClosed));
                    } else {
                        assert(settled_views(self.settled@)[j] == (xids@[k as int],
                        ReplyOutcomeView::ConnectionClosed));
                        assert(target[j] == aborted(xids@.take(k as int + 1))[k as int]);
                        assert(aborted(xids@.take(k as int + 1))[k as int] == (xids@[k as int],
                        ReplyOutcomeView::ConnectionClosed));
                    }
                }
                assert(settled_views(self.settled@) =~= target);
            }
            k = k + 1;
        }
        assert(xids@.take(xids@.len() as int) =~= xids@);
        assert(self.model() =~= model_shutdown(old(self).model()));
    }

    /// Accepts a request once the session is established: assigns the next
    /// xid, frames the request behind everything already queued, and
    /// registers the waiter.  Before the handshake completes (and after
    /// teardown) nothing is accepted or changed.  An xid collision with a
    /// still-pending request is a client bug and fatal: the session is torn
    /// down as by `shutdown`.
    pub fn submit(&mut self, op: OpCode, payload: &Vec<u8>) -> (r: Result<i32, SubmitError>)
        requires
            old(self).wf(),
            payload@.len() + 8 <= old(self).model().limit,
        ensures
            final(self).wf(),
            old(self).model().session != SessionState::Established ==> r == Err::<
                i32,
                SubmitError,
            >(SubmitError::NotEstablished) && final(self).model() == old(self).model(),
            old(self).model().session == SessionState::Established && !old(
                self,
            ).model().pending.contains(old(self).model().next_xid) ==> r == Ok::<
                i32,
                SubmitError,
            >(old(self).model().next_xid) && final(self).model() == (EngineModel {
                out: old(self).model().out + framed(
                    crate::codec::request_body(old(self).model().next_xid, op, payload@),
                ),
                pending: old(self).model().pending.push(old(self).model().next_xid),
                next_xid: wrap_next(old(self).model().next_xid),
                ..old(self).model()
            }),
            old(self).model().session == SessionState::Established && old(
                self,
            ).model().pending.contains(old(self).model().next_xid) ==> r == Err::<
                i32,
                SubmitError,
            >(SubmitError::DuplicateXid) && final(self).model() == model_shutdown(
                old(self).model(),
            ),
    {
        match self.state {
            SessionState::Established => {},
            _ => {
                return Err(SubmitError::NotEstablished);
            },
        }
        let xid = self.next_xid;
        match self.table.register(xid) {
            Err(()) => {
                self.shutdown();
                return Err(SubmitError::DuplicateXid);
            },
            Ok(()) => {},
        }
        let frame = encode_request(xid, op, payload);
        self.outbox.enqueue(&frame);
        self.next_xid = if xid == i32::MAX {
            1
        } else {
            xid + 1
        };
        assert(self.model() =~= (EngineModel {
            out: old(self).model().out + framed(crate::codec::request_body(xid, op, payload@)),
            pending: old(self).model().pending.push(xid),
            next_xid: wrap_next(xid),
            ..old(self).model()
        }));
        Ok(xid)
    }

    /// Hands back the settled outcome of the handle `xid`, removing it; the
    /// oldest settled entry for that xid is the one taken.  `None` means the
    /// handle has not settled (or was already taken — an abandoned handle's
    /// late outcome is simply discarded this way).
    pub fn take_settled(&mut self, xid: i32) -> (r: Option<ReplyOutcome>)
        requires
            old(self).wf(),
        ensures
            final(self).wf(),
            (forall|k: int|
                0 <= k < old(self).model().settled.len() ==> (#[trigger] old(
                    self,
                ).model().settled[k]).0 != xid) ==> r is None && final(self).model() == old(
                self,
            ).model(),
            (exists|k: int|
                0 <= k < old(self).model().settled.len() && (#[trigger] old(
                    self,
                ).model().settled[k]).0 == xid) ==> exists|i: int|
                {
                    &&& 0 <= i < old(self).model().settled.len()
                    &&& old(self).model().settled[i].0 == xid
                    &&& forall|k: int|
                        0 <= k < i ==> (#[trigger] old(self).model().settled[k]).0 != xid
                    &&& r matches Some(o) && o@ == old(self).model().settled[i].1
                    &&& final(self).model() == (EngineModel {
                        settled: old(self).model().settled.remove(i),
                        ..old(self).model()
                    })
                },
    {
        let mut i: usize = 0;
        while i < self.settled.len()
            invariant
                self == old(self),
                old(self).wf(),
                i <= self.settled@.len(),
                forall|k: int| 0 <= k < i ==> (#[trigger] self.settled@[k]).0 != xid,
            decreases self.settled@.len() - i,
        {
            if self.settled[i].0 == xid {
                let e = self.settled.remove(i);
                proof {
                    let s = old(self).settled@;
                    let sv = old(self).model().settled;
                    assert(sv[i as int] == (s[i as int].0, s[i as int].1@));
                    assert(sv[i as int].0 == xid);
                    assert(e.1@ == sv[i as int].1);
                    assert forall|k: int| 0 <= k < i implies (#[trigger] sv[k]).0 != xid by {
                        assert(sv[k] == (s[k].0, s[k].1@));
                    }
                    assert forall|j: int|
                        0 <= j < settled_views(self.settled@).len() implies settled_views(
                        self.settled@,
                    )[j] == sv.remove(i as int)[j] by {
                        assert(self.settled@ == s.remove(i as int));
                        if j < i {
                            assert(self.settled@[j] == s[j]);
                        } else {
                            assert(self.settled@[j] == s[j + 1]);
                        }
                    }
                    assert(settled_views(self.settled@) =~= sv.remove(i as int));
                    assert(self.model() =~= (EngineModel {
                        settled: sv.remove(i as int),
                        ..old(self).model()
                    }));
                }
                return Some(e.1);
            }
            i = i + 1;
        }
        assert(forall|k: int|
            0 <= k < old(self).model().settled.len() ==> (#[trigger] old(
                self,
            ).model().settled[k]).0 != xid);
        None
    }

    /// Hands back the oldest server-pushed notification, if any awaits the
    /// watch-callback path.
    pub fn take_notification(&mut self) -> (r: Option<Response>)
        requires
            old(self).wf(),
        ensures
            final(self).wf(),
            old(self).model().notifications.len() == 0 ==> r is None && final(self).model() == old(
                self,
            ).model(),
            old(self).model().notifications.len() > 0 ==> (r matches Some(n) && n@ == old(
                self,
            ).model().notifications[0] && final(self).model() == (EngineModel {
                notifications: old(self).model().notifications.skip(1),
                ..old(self).model()
            })),
    {
        if self.notifications.len() == 0 {
            return None;
        }
        let n = self.notifications.remove(0);
        proof {
            assert(self.notifications@.map_values(|r: Response| r@) =~= old(
                self,
            ).model().notifications.skip(1));
            assert(self.model() =~= (EngineModel {
                notifications: old(self).model().notifications.skip(1),
                ..old(self).model()
            }));
        }
        Some(n)
    }

    /// Takes the next complete frame, if any, and routes it: to the
    /// handshake sequencer while Handshaking, to the matching waiter (or
    /// the watch-callback queue, for the notification sentinel) while
    /// Established.  One call is exactly one `engine_step` of the model;
    /// a fatal outcome has already torn the session down.
    pub fn process_one(&mut self) -> (r: Result<Option<Routed>, FatalError>)
        requires
            old(self).wf(),
        ensures
            final(self).wf(),
            final(self).model() == engine_step(old(self).model()).0,
            r == engine_step(old(self).model()).1,
    {
        let ghost m = old(self).model();
        match self.state {
            SessionState::Handshaking => {
                match self.inbox.try_take_frame(self.max_frame) {
                    Err(_) => {
                        self.shutdown();
                        self.hs = HandshakeState::Failed;
                        assert(self.model() =~= model_handshake_failed(m));
                        Err(FatalError::HandshakeFailed)
                    },
                    Ok(None) => {
                        assert(self.model() =~= m);
                        Ok(None)
                    },
                    Ok(Some(body)) => {
                        match decode_connect_response(&body) {
                            Ok(cr) => {
                                if cr.protocol_version == 0 {
                                    self.state = SessionState::Established;
                                    self.hs = HandshakeState::Confirmed;
                                    self.session_id = cr.session_id;
                                    self.timeout_ms = cr.timeout_ms;
                                    assert(self.model() =~= engine_step(m).0);
                                    Ok(Some(Routed::HandshakeConfirmed))
                                } else {
                                    self.shutdown();
                                    self.hs = HandshakeState::Failed;
                                    assert(self.model() =~= model_handshake_failed(m));
                                    Err(FatalError::HandshakeFailed)
                                }
                            },
                            Err(_) => {
                                self.shutdown();
                                self.hs = HandshakeState::Failed;
                                assert(self.model() =~= model_handshake_failed(m));
                                Err(FatalError::HandshakeFailed)
                            },
                        }
                    },
                }
            },
            SessionState::Established => {
                match self.inbox.try_take_frame(self.max_frame) {
                    Err(_) => {
                        self.shutdown();
                        assert(self.model() =~= model_shutdown(m));
                        Err(FatalError::MalformedLength)
                    },
                    Ok(None) => {
                        assert(self.model() =~= m);
                        Ok(None)
                    },
                    Ok(Some(body)) => {
                        match decode_response(&body) {
                            Err(_) => {
                                self.shutdown();
                                assert(self.model() =~= model_shutdown(m));
                                Err(FatalError::MalformedLength)
                            },
                            Ok(resp) => {
                                if resp.xid == NOTIFICATION_XID {
                                    let ghost v = resp@;
                                    self.notifications.push(resp);
                                    proof {
                                        assert(self.notifications@.map_values(|r: Response| r@)
                                            =~= m.notifications.push(v));
                                        assert(self.model() =~= engine_step(m).0);
                                    }
                                    Ok(Some(Routed::NotificationDelivered))
                                } else {
                                    proof {
                                        self.table.lemma_no_dup();
                                    }
                                    let ghost s = self.table.pending();
                                    let xid = resp.xid;
                                    match self.table.resolve(xid) {
                                        Ok(()) => {
                                            let ghost v = resp@;
                                            self.settled.push((xid, ReplyOutcome::Reply(resp)));
                                            proof {
                                                let i = choose|i: int|
                                                    0 <= i < s.len() && s[i] == xid
                                                        && self.table.pending() == s.remove(i);
                                                assert(s.contains(xid));
                                                let j = s.index_of(xid);
                                                assert(0 <= j < s.len() && s[j] == xid);
                                                assert(i == j);
                                                assert(self.table.pending() == remove_pending(
                                                    s,
                                                    xid,
                                                ));
                                                assert(settled_views(self.settled@) =~= m
                                                    .settled.push(
                                                    (xid, ReplyOutcomeView::Reply(v)),
                                                ));
                                                assert(self.model() =~= engine_step(m).0);
                                            }
                                            Ok(Some(Routed::ReplyDelivered))
                                        },
                                        Err(()) => {
                                            self.shutdown();
                                            assert(self.model() =~= model_shutdown(m));
                                            Err(FatalError::UnknownXid)
                                        },
                                    }
                                }
                            },
                        }
                    },
                }
            },
            _ => {
                assert(self.model() =~= m);
                Ok(None)
            },
        }
    }

    /// Performs the read-side half of one `drive` round: extracts and
    /// routes complete frames until none remains, then reports Ok — the
    /// "would block" indication; idempotent to call repeatedly.  A fatal
    /// outcome has already torn the session down.
    pub fn process(&mut self) -> (r: Result<(), FatalError>)
        requires
            old(self).wf(),
        ensures
            final(self).wf(),
            final(self).model() == engine_run(old(self).model()).0,
            r == engine_run(old(self).model()).1,
    {
        loop
            invariant
                self.wf(),
                engine_run(old(self).model()) == engine_run(self.model()),
            decreases self.model().inn.len(),
        {
            let ghost m0 = self.model();
            let step = self.process_one();
            match step {
                Ok(Some(_)) => {
                    proof {
                        lemma_step_consumes(m0);
                    }
                },
                Ok(None) => {
                    return Ok(());
                },
                Err(f) => {
                    return Err(f);
                },
            }
        }
    }

    /// Hands the engine bytes freshly read from the transport, in any
    /// chunking; only their concatenation matters.
    pub fn feed(&mut self, bytes: &Vec<u8>)
        requires
            old(self).wf(),
        ensures
            final(self).wf(),
            final(self).model() == (EngineModel {
                inn: old(self).model().inn + bytes@,
                ..old(self).model()
            }),
    {
        self.inbox.append(bytes);
        assert(self.model() =~= (EngineModel {
            inn: old(self).model().inn + bytes@,
            ..old(self).model()
        }));
    }
}

} // verus!
