//! Output buffer: fully-framed outgoing bytes not yet written to the
//! transport, with a cursor over the already-flushed prefix.
//!
//! Frames are flushed strictly in enqueue order: `enqueue` appends at the
//! tail and `advance` only moves the cursor forward, so the unsent bytes are
//! always a suffix of the frames in the order they were enqueued.

use vstd::prelude::*;
use crate::wire::{push_bytes, copy_range};

verus! {

/// Flushed prefixes longer than this are dropped eagerly.
pub const COMPACT_LIMIT: usize = 4096;

/// Accumulates outgoing bytes; tracks how many have been flushed.
pub struct Outbox {
    buf: Vec<u8>,
    start: usize,
}

impl Outbox {
    /// The cursor never passes the end of the buffer.
    pub closed spec fn wf(&self) -> bool {
        self.start <= self.buf@.len()
    }

    /// The bytes still to be written, in order.
    pub closed spec fn pending(&self) -> Seq<u8> {
        self.buf@.skip(self.start as int)
    }

    /// An empty buffer.
    pub fn new() -> (r: Outbox)
        ensures
            r.wf(),
            r.pending() == Seq::<u8>::empty(),
    {
        let r = Outbox { buf: Vec::new(), start: 0 };
        assert(r.pending() =~= Seq::<u8>::empty());
        r
    }

    /// Drops the flushed prefix once it is large, or the whole buffer once
    /// everything is flushed.
    fn compact(&mut self)
        requires
            old(self).wf(),
        ensures
            final(self).wf(),
            final(self).pending() == old(self).pending(),
    {
        if self.start == self.buf.len() {
            self.buf.clear();
            self.start = 0;
            assert(self.pending() =~= old(self).pending());
        } else if self.start >= COMPACT_LIMIT {
            let rest = copy_range(&self.buf, self.start, self.buf.len());
            self.buf = rest;
            self.start = 0;
            assert(self.pending() =~= old(self).pending());
        }
    }

    /// Appends one fully serialized frame at the tail.
    pub fn enqueue(&mut self, frame: &Vec<u8>)
        requires
            old(self).wf(),
        ensures
            final(self).wf(),
            final(self).pending() == old(self).pending() + frame@,
    {
        push_bytes(&mut self.buf, frame);
        assert(self.pending() =~= old(self).pending() + frame@);
    }

    /// Marks `n` bytes as successfully written; they are logically gone.
    pub fn advance(&mut self, n: usize)
        requires
            old(self).wf(),
            n <= old(self).pending().len(),
        ensures
            final(self).wf(),
            final(self).pending() == old(self).pending().skip(n as int),
    {
        let len = self.buf.len();
        assert(self.start + n <= len);
        self.start = self.start + n;
        assert(self.pending() =~= old(self).pending().skip(n as int));
        self.compact();
    }

    /// Discards everything, flushed or not; used on teardown.
    pub fn clear(&mut self)
        ensures
            final(self).wf(),
            final(self).pending() == Seq::<u8>::empty(),
    {
        self.buf.clear();
        self.start = 0;
        assert(self.pending() =~= Seq::<u8>::empty());
    }

    /// Whether anything remains to write.
    pub fn is_empty(&self) -> (r: bool)
        requires
            self.wf(),
        ensures
            r == (self.pending().len() == 0),
    {
        self.start == self.buf.len()
    }

    /// How many bytes remain to write.
    pub fn pending_len(&self) -> (r: usize)
        requires
            self.wf(),
        ensures
            r == self.pending().len(),
    {
        self.buf.len() - self.start
    }

    /// A copy of the bytes still to be written, for the transport.
    pub fn pending_bytes(&self) -> (r: Vec<u8>)
        requires
            self.wf(),
        ensures
            r@ == self.pending(),
    {
        copy_range(&self.buf, self.start, self.buf.len())
    }
}

} // verus!
