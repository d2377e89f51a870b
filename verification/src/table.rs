//! Correlation table: the xids of requests whose responses are still
//! outstanding, in registration order.
//!
//! A duplicate registration and a resolve for an unknown xid are both
//! protocol-invariant violations; the driver treats either as fatal to the
//! session.  On teardown every still-pending xid is handed back so each
//! waiter can be settled with a connection-closed failure.

use vstd::prelude::*;

verus! {

/// Pending xids, in registration order, no xid twice.
pub struct CorrelationTable {
    xids: Vec<i32>,
}

impl CorrelationTable {
    /// No xid is pending twice.
    pub closed spec fn wf(&self) -> bool {
        forall|i: int, j: int|
            0 <= i < j < self.xids@.len() ==> self.xids@[i] != self.xids@[j]
    }

    /// The pending xids, in registration order.
    pub closed spec fn pending(&self) -> Seq<i32> {
        self.xids@
    }

    /// An empty table.
    pub fn new() -> (r: CorrelationTable)
        ensures
            r.wf(),
            r.pending() == Seq::<i32>::empty(),
    {
        CorrelationTable { xids: Vec::new() }
    }

    /// How many requests are pending.
    pub fn len(&self) -> (r: usize)
        ensures
            r == self.pending().len(),
    {
        self.xids.len()
    }

    /// Whether `xid` is pending.
    pub fn contains(&self, xid: i32) -> (r: bool)
        ensures
            r == self.pending().contains(xid),
    {
        let mut i: usize = 0;
        while i < self.xids.len()
            invariant
                i <= self.xids@.len(),
                forall|k: int| 0 <= k < i ==> self.xids@[k] != xid,
            decreases self.xids@.len() - i,
        {
            if self.xids[i] == xid {
                assert(self.pending().contains(xid));
                return true;
            }
            i = i + 1;
        }
        assert(forall|k: int| 0 <= k < self.pending().len() ==> self.pending()[k] != xid);
        false
    }

    /// Inserts a new pending entry; refuses an xid already pending.
    pub fn register(&mut self, xid: i32) -> (r: Result<(), ()>)
        requires
            old(self).wf(),
        ensures
            final(self).wf(),
            old(self).pending().contains(xid) ==> r == Err::<(), ()>(()) && final(self).pending()
                == old(self).pending(),
            !old(self).pending().contains(xid) ==> r == Ok::<(), ()>(()) && final(self).pending()
                == old(self).pending().push(xid),
    {
        if self.contains(xid) {
            return Err(());
        }
        self.xids.push(xid);
        assert forall|i: int, j: int|
            0 <= i < j < self.xids@.len() implies self.xids@[i] != self.xids@[j] by {
            if j == self.xids@.len() - 1 {
                assert(old(self).pending()[i] == self.xids@[i]);
                assert(!old(self).pending().contains(xid));
            }
        }
        Ok(())
    }

    /// Removes the entry for `xid` so its waiter can be fulfilled; refuses
    /// an xid that is not pending.
    pub fn resolve(&mut self, xid: i32) -> (r: Result<(), ()>)
        requires
            old(self).wf(),
        ensures
            final(self).wf(),
            !old(self).pending().contains(xid) ==> r == Err::<(), ()>(()) && final(self).pending()
                == old(self).pending(),
            old(self).pending().contains(xid) ==> r == Ok::<(), ()>(()) && exists|i: int|
                0 <= i < old(self).pending().len() && old(self).pending()[i] == xid
                    && final(self).pending() == old(self).pending().remove(i),
    {
        let mut i: usize = 0;
        while i < self.xids.len()
            invariant
                self == old(self),
                old(self).wf(),
                i <= self.xids@.len(),
                forall|k: int| 0 <= k < i ==> self.xids@[k] != xid,
            decreases self.xids@.len() - i,
        {
            if self.xids[i] == xid {
                self.xids.remove(i);
                assert(old(self).pending().contains(xid));
                assert forall|a: int, b: int|
                    0 <= a < b < self.xids@.len() implies self.xids@[a] != self.xids@[b] by {
                    let s = old(self).pending();
                    assert(self.xids@ == s.remove(i as int));
                    let a2 = if a < i { a } else { a + 1 };
                    let b2 = if b < i { b } else { b + 1 };
                    assert(self.xids@[a] == s[a2]);
                    assert(self.xids@[b] == s[b2]);
                    assert(forall|p: int, q: int| 0 <= p < q < s.len() ==> s[p] != s[q]);
                }
                return Ok(());
            }
            i = i + 1;
        }
        assert(forall|k: int| 0 <= k < self.pending().len() ==> self.pending()[k] != xid);
        Err(())
    }

    /// In a well-formed table no xid is pending at two indices.
    pub proof fn lemma_no_dup(&self)
        requires
            self.wf(),
        ensures
            forall|i: int, j: int|
                0 <= i < j < self.pending().len() ==> self.pending()[i] != self.pending()[j],
    {
    }

    /// Empties the table on teardown; returns every xid that was still
    /// pending, in registration order, so each can be failed as aborted.
    pub fn abort_all(&mut self) -> (r: Vec<i32>)
        requires
            old(self).wf(),
        ensures
            final(self).wf(),
            r@ == old(self).pending(),
            final(self).pending() == Seq::<i32>::empty(),
    {
        let mut r: Vec<i32> = Vec::new();
        core::mem::swap(&mut r, &mut self.xids);
        assert(self.pending() =~= Seq::<i32>::empty());
        r
    }
}

} // verus!
