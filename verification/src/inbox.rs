//! Input buffer: raw transport bytes not yet parsed into frames, with a
//! cursor over the already-consumed prefix.
//!
//! `append` may be fed the incoming bytes in any chunking; only their
//! concatenation matters.  `try_take_frame` hands out the next complete
//! frame body once the whole length-prefixed record is present, rejects a
//! negative or over-maximum declared length before touching the body, and
//! otherwise reports "incomplete" — a normal suspension, not an error.

use vstd::prelude::*;
use crate::codec::{framed, MAX_I32_LEN};
use crate::wire::{be32_val, wire_to_i32, push_bytes, copy_range, read_u32_be};

verus! {

/// Consumed prefixes longer than this are dropped eagerly.
pub const COMPACT_LIMIT: usize = 4096;

/// A declared frame length the engine refuses to assemble.
#[derive(Clone, Copy, PartialEq, Eq, Structural, Debug)]
pub enum FrameError {
    /// The length prefix is negative or exceeds the configured maximum.
    MalformedLength,
}

/// Whether the buffered bytes begin with a length prefix the engine must
/// reject: negative, or larger than `max`.
pub open spec fn length_malformed(b: Seq<u8>, max: int) -> bool {
    b.len() >= 4 && !(0 <= wire_to_i32(be32_val(b.subrange(0, 4))) <= max)
}

/// The first complete frame body and the bytes after it, when a whole
/// length-prefixed record with an admissible length is present.
pub open spec fn frame_split(b: Seq<u8>, max: int) -> Option<(Seq<u8>, Seq<u8>)> {
    if b.len() >= 4 {
        let declared = wire_to_i32(be32_val(b.subrange(0, 4)));
        if 0 <= declared <= max && b.len() >= 4 + declared {
            Some((b.subrange(4, 4 + declared), b.skip(4 + declared)))
        } else {
            None
        }
    } else {
        None
    }
}

/// Accumulates incoming bytes; hands out complete frames.
pub struct Inbox {
    buf: Vec<u8>,
    start: usize,
}

impl Inbox {
    /// The cursor never passes the end of the buffer.
    pub closed spec fn wf(&self) -> bool {
        self.start <= self.buf@.len()
    }

    /// The bytes received and not yet parsed, in order.
    pub closed spec fn pending(&self) -> Seq<u8> {
        self.buf@.skip(self.start as int)
    }

    /// An empty buffer.
    pub fn new() -> (r: Inbox)
        ensures
            r.wf(),
            r.pending() == Seq::<u8>::empty(),
    {
        let r = Inbox { buf: Vec::new(), start: 0 };
        assert(r.pending() =~= Seq::<u8>::empty());
        r
    }

    /// Drops the consumed prefix once it is large, or the whole buffer once
    /// everything is consumed.
    fn compact(&mut self)
        requires
            old(self).wf(),
        ensures
            final(self).wf(),
            final(self).pending() == old(self).pending(),
    {
        if self.start == self.buf.len() {
            self.buf.clear();
            self.start = 0;
            assert(self.pending() =~= old(self).pending());
        } else if self.start >= COMPACT_LIMIT {
            let rest = copy_range(&self.buf, self.start, self.buf.len());
            self.buf = rest;
            self.start = 0;
            assert(self.pending() =~= old(self).pending());
        }
    }

    /// Discards everything unparsed; used on teardown.
    pub fn clear(&mut self)
        ensures
            final(self).wf(),
            final(self).pending() == Seq::<u8>::empty(),
    {
        self.buf.clear();
        self.start = 0;
        assert(self.pending() =~= Seq::<u8>::empty());
    }

    /// Grows the tail with freshly read transport bytes.
    pub fn append(&mut self, bytes: &Vec<u8>)
        requires
            old(self).wf(),
        ensures
            final(self).wf(),
            final(self).pending() == old(self).pending() + bytes@,
    {
        push_bytes(&mut self.buf, bytes);
        assert(self.pending() =~= old(self).pending() + bytes@);
    }

    /// Extracts the next complete frame body, if a whole record is present.
    ///
    /// `Ok(None)` means not enough bytes have arrived yet; the buffer is
    /// unchanged and the caller retries after the next read.  A negative or
    /// over-`max` declared length is refused before any body is assembled.
    pub fn try_take_frame(&mut self, max: usize) -> (r: Result<Option<Vec<u8>>, FrameError>)
        requires
            old(self).wf(),
            max <= MAX_I32_LEN,
        ensures
            final(self).wf(),
            length_malformed(old(self).pending(), max as int) ==> r == Err::<
                Option<Vec<u8>>,
                FrameError,
            >(FrameError::MalformedLength) && final(self).pending() == old(self).pending(),
            !length_malformed(old(self).pending(), max as int) ==> match frame_split(
                old(self).pending(),
                max as int,
            ) {
                Some(t) => r matches Ok(Some(body)) && body@ == t.0 && final(self).pending()
                    == t.1,
                None => r == Ok::<Option<Vec<u8>>, FrameError>(None) && final(self).pending()
                    == old(self).pending(),
            },
    {
        let len = self.buf.len();
        if len - self.start < 4 {
            return Ok(None);
        }
        let declared_u = read_u32_be(&self.buf, self.start);
        proof {
            assert(self.buf@.subrange(self.start as int, self.start as int + 4) =~= self.pending()
                .subrange(0, 4));
        }
        if declared_u >= 0x8000_0000 {
            return Err(FrameError::MalformedLength);
        }
        let declared = declared_u as usize;
        if declared > max {
            return Err(FrameError::MalformedLength);
        }
        if len - self.start < 4 + declared {
            return Ok(None);
        }
        let body = copy_range(&self.buf, self.start + 4, self.start + 4 + declared);
        proof {
            assert(self.buf@.subrange(
                self.start as int + 4,
                self.start as int + 4 + declared as int,
            ) =~= self.pending().subrange(4, 4 + declared as int));
        }
        self.start = self.start + 4 + declared;
        assert(self.pending() =~= old(self).pending().skip(4 + declared as int));
        self.compact();
        Ok(Some(body))
    }
}

/// The concatenation of the given bodies, each with its length prefix: what
/// the wire carries for that sequence of frames.
pub open spec fn concat_framed(bodies: Seq<Seq<u8>>) -> Seq<u8>
    decreases bodies.len(),
{
    if bodies.len() == 0 {
        Seq::empty()
    } else {
        framed(bodies[0]) + concat_framed(bodies.skip(1))
    }
}

/// The frame bodies extractable from `b`, in order, by repeated splitting.
pub open spec fn drain_frames(b: Seq<u8>, max: int) -> Seq<Seq<u8>>
    decreases b.len(),
{
    if b.len() >= 4 {
        let declared = wire_to_i32(be32_val(b.subrange(0, 4)));
        if 0 <= declared <= max && b.len() >= 4 + declared {
            seq![b.subrange(4, 4 + declared)] + drain_frames(b.skip(4 + declared), max)
        } else {
            Seq::empty()
        }
    } else {
        Seq::empty()
    }
}

/// Splitting the concatenation of framed bodies yields the first body and
/// the concatenation of the rest.
pub proof fn lemma_split_concat(bodies: Seq<Seq<u8>>, max: int)
    requires
        bodies.len() > 0,
        forall|i: int| 0 <= i < bodies.len() ==> #[trigger] bodies[i].len() <= max,
        max <= MAX_I32_LEN,
    ensures
        frame_split(concat_framed(bodies), max) == Some(
            (bodies[0], concat_framed(bodies.skip(1))),
        ),
{
    let b = concat_framed(bodies);
    let b0 = bodies[0];
    let n = b0.len() as int;
    assert(bodies[0].len() <= max);
    assert(b == framed(b0) + concat_framed(bodies.skip(1)));
    assert(b.subrange(0, 4) =~= crate::wire::be32(b0.len() as u32));
    crate::wire::lemma_be32_roundtrip(b0.len() as u32);
    assert(wire_to_i32(be32_val(b.subrange(0, 4))) == n);
    assert(b.subrange(4, 4 + n) =~= b0);
    assert(b.skip(4 + n) =~= concat_framed(bodies.skip(1)));
}

/// Partial-read assembly law: however the incoming bytes were chunked
/// across `append` calls, once the buffer holds the concatenation of a
/// sequence of valid framed bodies, repeated extraction yields exactly
/// those bodies, in order.
pub proof fn lemma_partial_read_assembly(bodies: Seq<Seq<u8>>, max: int)
    requires
        forall|i: int| 0 <= i < bodies.len() ==> #[trigger] bodies[i].len() <= max,
        max <= MAX_I32_LEN,
    ensures
        drain_frames(concat_framed(bodies), max) == bodies,
    decreases bodies.len(),
{
    if bodies.len() == 0 {
        assert(concat_framed(bodies).len() == 0);
        assert(drain_frames(concat_framed(bodies), max) =~= bodies);
    } else {
        lemma_split_concat(bodies, max);
        lemma_partial_read_assembly(bodies.skip(1), max);
        let b = concat_framed(bodies);
        let declared = wire_to_i32(be32_val(b.subrange(0, 4)));
        assert(drain_frames(b, max) == seq![b.subrange(4, 4 + declared)] + drain_frames(
            b.skip(4 + declared),
            max,
        ));
        assert(drain_frames(b, max) =~= bodies);
    }
}

} // verus!
