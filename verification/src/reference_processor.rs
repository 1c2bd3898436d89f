//! Reference processors: the soft, weak and phantom reference tables,
//! scanned during the release phase of a collection.
//!
//! Each table is a list of `(reference, referent)` pairs.  During release a
//! referent that survived the collected half is updated to its copy's
//! address; a weak or soft referent that did not survive is cleared; a
//! phantom reference whose referent did not survive is enqueued for the
//! runtime.

use crate::forwarding_word::ForwardingState;
use crate::gencopy::GenCopy;
use crate::object_model::ObjectTable;
use vstd::prelude::*;

verus! {

/// One reference-table entry: the reference object and its referent.
#[derive(Clone, Copy, PartialEq, Eq, Structural, Debug)]
pub struct RefPair {
    pub reff: usize,
    pub referent: usize,
}

/// The three reference classes.
pub struct ReferenceProcessors {
    pub soft: Vec<RefPair>,
    pub weak: Vec<RefPair>,
    pub phantom: Vec<RefPair>,
    /// Phantom references whose referents died, handed to the runtime.
    pub enqueued: Vec<usize>,
}

/// What the release-phase scan makes of one referent under the given plan
/// and post-closure heap: kept as is when it lies outside the collected
/// halves, moved to its copy when it was copied out, cleared to null when
/// it died in a collected half.
pub open spec fn spec_scan_outcome(plan: GenCopy, heap: ObjectTable, referent: usize) -> usize {
    if referent == 0 {
        0usize
    } else if !in_collected(plan, referent) {
        referent
    } else if heap.spec_has(referent) && heap.spec_at(referent).forwarding.spec_is_forwarded() {
        heap.spec_at(referent).forwarding.spec_forwarded_to()
    } else {
        0usize
    }
}

/// Is the address inside a half the current collection evacuates?
pub open spec fn in_collected(plan: GenCopy, addr: usize) -> bool {
    plan.nursery.spec_in_space(addr) || (!plan.in_nursery_gc
        && plan.spec_fromspace().spec_in_space(addr))
}

/// Runtime check of `spec_scan_outcome`.
fn scan_referent(plan: &GenCopy, heap: &ObjectTable, referent: usize) -> (r: usize)
    requires
        heap.wf(),
    ensures
        r == spec_scan_outcome(*plan, *heap, referent),
{
    if referent == 0 {
        return 0;
    }
    let collected = plan.nursery.address_in_space(referent) || (!plan.in_nursery()
        && plan.fromspace().address_in_space(referent));
    if !collected {
        return referent;
    }
    let found = heap.find_unique(referent);
    match found {
        Some(i) => {
            match heap.objs[i].forwarding {
                ForwardingState::Forwarded(n) => n,
                _ => 0,
            }
        },
        None => 0,
    }
}

impl ReferenceProcessors {
    pub fn new() -> (r: ReferenceProcessors)
        ensures
            r.soft@.len() == 0,
            r.weak@.len() == 0,
            r.phantom@.len() == 0,
            r.enqueued@.len() == 0,
    {
        ReferenceProcessors {
            soft: Vec::new(),
            weak: Vec::new(),
            phantom: Vec::new(),
            enqueued: Vec::new(),
        }
    }

    pub fn add_soft_candidate(&mut self, reff: usize, referent: usize)
        ensures
            final(self).soft@ == old(self).soft@.push(RefPair { reff, referent }),
            final(self).weak@ == old(self).weak@,
            final(self).phantom@ == old(self).phantom@,
            final(self).enqueued@ == old(self).enqueued@,
    {
        self.soft.push(RefPair { reff, referent });
    }

    pub fn add_weak_candidate(&mut self, reff: usize, referent: usize)
        ensures
            final(self).weak@ == old(self).weak@.push(RefPair { reff, referent }),
            final(self).soft@ == old(self).soft@,
            final(self).phantom@ == old(self).phantom@,
            final(self).enqueued@ == old(self).enqueued@,
    {
        self.weak.push(RefPair { reff, referent });
    }

    pub fn add_phantom_candidate(&mut self, reff: usize, referent: usize)
        ensures
            final(self).phantom@ == old(self).phantom@.push(RefPair { reff, referent }),
            final(self).soft@ == old(self).soft@,
            final(self).weak@ == old(self).weak@,
            final(self).enqueued@ == old(self).enqueued@,
    {
        self.phantom.push(RefPair { reff, referent });
    }

    /// Scan the weak table after the closure: each referent is kept,
    /// moved, or cleared exactly as `spec_scan_outcome` says.
    pub fn scan_weak_refs(&mut self, plan: &GenCopy, heap: &ObjectTable)
        requires
            heap.wf(),
        ensures
            final(self).weak@.len() == old(self).weak@.len(),
            forall|i: int|
                0 <= i < old(self).weak@.len() ==> {
                    &&& (#[trigger] final(self).weak@[i]).reff == old(self).weak@[i].reff
                    &&& final(self).weak@[i].referent == spec_scan_outcome(
                        *plan,
                        *heap,
                        old(self).weak@[i].referent,
                    )
                },
            final(self).soft@ == old(self).soft@,
            final(self).phantom@ == old(self).phantom@,
            final(self).enqueued@ == old(self).enqueued@,
    {
        let n = self.weak.len();
        let mut i: usize = 0;
        while i < n
            invariant
                n == self.weak@.len(),
                n == old(self).weak@.len(),
                i <= n,
                heap.wf(),
                forall|k: int|
                    0 <= k < i ==> {
                        &&& (#[trigger] self.weak@[k]).reff == old(self).weak@[k].reff
                        &&& self.weak@[k].referent == spec_scan_outcome(
                            *plan,
                            *heap,
                            old(self).weak@[k].referent,
                        )
                    },
                forall|k: int| i <= k < n ==> #[trigger] self.weak@[k] == old(self).weak@[k],
                self.soft@ == old(self).soft@,
                self.phantom@ == old(self).phantom@,
                self.enqueued@ == old(self).enqueued@,
            decreases n - i,
        {
            let new_referent = scan_referent(plan, heap, self.weak[i].referent);
            let reff = self.weak[i].reff;
            self.weak[i] = RefPair { reff, referent: new_referent };
            i = i + 1;
        }
    }

    /// Scan the soft table.  This collector is under memory pressure at
    /// every collection, so soft references behave exactly like weak ones:
    /// a referent that survived is updated to its copy, one that did not is
    /// cleared.
    pub fn scan_soft_refs(&mut self, plan: &GenCopy, heap: &ObjectTable)
        requires
            heap.wf(),
        ensures
            final(self).soft@.len() == old(self).soft@.len(),
            forall|i: int|
                0 <= i < old(self).soft@.len() ==> {
                    &&& (#[trigger] final(self).soft@[i]).reff == old(self).soft@[i].reff
                    &&& final(self).soft@[i].referent == spec_scan_outcome(
                        *plan,
                        *heap,
                        old(self).soft@[i].referent,
                    )
                },
            final(self).weak@ == old(self).weak@,
            final(self).phantom@ == old(self).phantom@,
            final(self).enqueued@ == old(self).enqueued@,
    {
        let n = self.soft.len();
        let mut i: usize = 0;
        while i < n
            invariant
                n == self.soft@.len(),
                n == old(self).soft@.len(),
                i <= n,
                heap.wf(),
                forall|k: int|
                    0 <= k < i ==> {
                        &&& (#[trigger] self.soft@[k]).reff == old(self).soft@[k].reff
                        &&& self.soft@[k].referent == spec_scan_outcome(
                            *plan,
                            *heap,
                            old(self).soft@[k].referent,
                        )
                    },
                forall|k: int| i <= k < n ==> #[trigger] self.soft@[k] == old(self).soft@[k],
                self.weak@ == old(self).weak@,
                self.phantom@ == old(self).phantom@,
                self.enqueued@ == old(self).enqueued@,
            decreases n - i,
        {
            let new_referent = scan_referent(plan, heap, self.soft[i].referent);
            let reff = self.soft[i].reff;
            self.soft[i] = RefPair { reff, referent: new_referent };
            i = i + 1;
        }
    }

    /// Scan the phantom table: a phantom reference whose referent did not
    /// survive is cleared and enqueued for the runtime.
    pub fn scan_phantom_refs(&mut self, plan: &GenCopy, heap: &ObjectTable)
        requires
            heap.wf(),
        ensures
            final(self).phantom@.len() == old(self).phantom@.len(),
            forall|i: int|
                0 <= i < old(self).phantom@.len() ==> {
                    &&& (#[trigger] final(self).phantom@[i]).reff == old(self).phantom@[i].reff
                    &&& final(self).phantom@[i].referent == spec_scan_outcome(
                        *plan,
                        *heap,
                        old(self).phantom@[i].referent,
                    )
                },
            final(self).soft@ == old(self).soft@,
            final(self).weak@ == old(self).weak@,
            final(self).enqueued@.len() >= old(self).enqueued@.len(),
            // a phantom reference is enqueued exactly when its referent,
            // once non-null, did not survive
            forall|i: int|
                0 <= i < old(self).enqueued@.len() ==> #[trigger] final(self).enqueued@[i] == old(
                    self,
                ).enqueued@[i],
    {
        let n = self.phantom.len();
        let mut i: usize = 0;
        while i < n
            invariant
                n == self.phantom@.len(),
                n == old(self).phantom@.len(),
                i <= n,
                heap.wf(),
                forall|k: int|
                    0 <= k < i ==> {
                        &&& (#[trigger] self.phantom@[k]).reff == old(self).phantom@[k].reff
                        &&& self.phantom@[k].referent == spec_scan_outcome(
                            *plan,
                            *heap,
                            old(self).phantom@[k].referent,
                        )
                    },
                forall|k: int| i <= k < n ==> #[trigger] self.phantom@[k] == old(self).phantom@[k],
                self.soft@ == old(self).soft@,
                self.weak@ == old(self).weak@,
                self.enqueued@.len() >= old(self).enqueued@.len(),
                forall|k: int|
                    0 <= k < old(self).enqueued@.len() ==> #[trigger] self.enqueued@[k] == old(
                        self,
                    ).enqueued@[k],
            decreases n - i,
        {
            let old_referent = self.phantom[i].referent;
            let new_referent = scan_referent(plan, heap, old_referent);
            let reff = self.phantom[i].reff;
            if old_referent != 0 && new_referent == 0 {
                self.enqueued.push(reff);
            }
            self.phantom[i] = RefPair { reff, referent: new_referent };
            i = i + 1;
        }
    }
}

} // verus!
