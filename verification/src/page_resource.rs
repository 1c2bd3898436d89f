//! Monotone page resource: hands out pages sequentially to its space and
//! keeps the used/reserved page accounts.
//!
//! `committed` counts pages that hold allocated data; `pending` counts pages
//! promised to an allocation request that has not yet committed them.  The
//! invariant is `committed + pending <= total`: a space never holds more
//! pages than its capacity.

use vstd::prelude::*;

verus! {

/// Page accounts of one space.
#[derive(Clone, Copy, PartialEq, Eq, Structural, Debug)]
pub struct PageResource {
    /// Pages that hold allocated data.
    pub committed: usize,
    /// Pages reserved for an in-flight request, not yet committed.
    pub pending: usize,
    /// Capacity of the space in pages.
    pub total: usize,
}

impl PageResource {
    /// The accounting invariant: reserved pages never exceed capacity.
    pub open spec fn wf(self) -> bool {
        self.committed + self.pending <= self.total
    }

    /// Pages counted against the heap budget: committed plus pending.
    pub open spec fn spec_reserved(self) -> int {
        self.committed + self.pending
    }

    /// A fresh resource over `total` pages, with nothing handed out.
    pub fn new(total: usize) -> (r: PageResource)
        ensures
            r.wf(),
            r.committed == 0,
            r.pending == 0,
            r.total == total,
    {
        PageResource { committed: 0, pending: 0, total }
    }

    /// Reserved pages: what the space currently counts against the heap.
    pub fn reserved_pages(&self) -> (r: usize)
        requires
            self.wf(),
        ensures
            r == self.spec_reserved(),
    {
        self.committed + self.pending
    }

    /// Promise `n` pages to an allocation request.  Fails (returning false,
    /// changing nothing) when the capacity cannot cover them.
    pub fn reserve_pages(&mut self, n: usize) -> (ok: bool)
        requires
            old(self).wf(),
        ensures
            final(self).wf(),
            final(self).total == old(self).total,
            final(self).committed == old(self).committed,
            ok == (old(self).spec_reserved() + n <= old(self).total),
            ok ==> final(self).pending == old(self).pending + n,
            !ok ==> *final(self) == *old(self),
    {
        if n <= self.total - self.committed - self.pending {
            self.pending = self.pending + n;
            true
        } else {
            false
        }
    }

    /// Turn `n` pending pages into committed ones: the request succeeded and
    /// the pages now hold data.
    pub fn commit_pages(&mut self, n: usize)
        requires
            old(self).wf(),
            n <= old(self).pending,
        ensures
            final(self).wf(),
            final(self).total == old(self).total,
            final(self).committed == old(self).committed + n,
            final(self).pending == old(self).pending - n,
            final(self).spec_reserved() == old(self).spec_reserved(),
    {
        self.pending = self.pending - n;
        self.committed = self.committed + n;
    }

    /// Drop `n` pending pages: the request was abandoned.
    pub fn clear_pending(&mut self, n: usize)
        requires
            old(self).wf(),
            n <= old(self).pending,
        ensures
            final(self).wf(),
            final(self).total == old(self).total,
            final(self).committed == old(self).committed,
            final(self).pending == old(self).pending - n,
    {
        self.pending = self.pending - n;
    }

    /// Return every page to the space's own free list at once; the chunks
    /// stay owned by the space for fast reuse.  Afterwards nothing is
    /// reserved.
    pub fn release_all(&mut self)
        requires
            old(self).wf(),
        ensures
            final(self).wf(),
            final(self).total == old(self).total,
            final(self).committed == 0,
            final(self).pending == 0,
            final(self).spec_reserved() == 0,
    {
        self.committed = 0;
        self.pending = 0;
    }
}

} // verus!
