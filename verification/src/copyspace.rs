//! `CopySpace`: one half of a copying generation.  Two instances pair up as
//! fromspace / tospace; at collection start the roles flip, survivors are
//! copied out of the fromspace by the forwarding-word protocol, and at
//! collection end the fromspace is released en masse.

use crate::errors::GcError;
use crate::forwarding_word::{
    attempt_to_forward, clear_forwarding_bits, fw_step_allowed, is_forwarded, publish_forwarded,
    spin_and_get_forwarded_object, ForwardingState,
};
use crate::layout::{lemma_min_align_legal, ObjectReference, MIN_OBJECT_ALIGN};
use crate::object_model::{copy_bytes, copy_words, obj_like, HeapObject, ObjectTable};
use crate::space::CommonSpace;
use vstd::prelude::*;

verus! {

/// A space whose objects are evacuated by copying.
#[derive(Clone, Copy, Debug)]
pub struct CopySpace {
    pub common: CommonSpace,
    /// Is this half currently the one being collected?
    pub from_space: bool,
}

/// Every object the table places inside `cs`'s range lies wholly below the
/// bump cursor: fresh allocations from the cursor can never collide with an
/// existing object.
pub open spec fn objects_bounded(heap: ObjectTable, cs: CommonSpace) -> bool {
    forall|k: int|
        0 <= k < heap.objs.len() && cs.spec_in_range((#[trigger] heap.objs[k]).addr)
            ==> heap.objs[k].addr + heap.objs[k].size <= cs.start + cs.cursor
}

/// Between packet steps every claimed forwarding word has been published:
/// no object rests in `BeingForwarded`.
pub open spec fn all_words_published(heap: ObjectTable) -> bool {
    forall|k: int|
        0 <= k < heap.objs.len() ==> (#[trigger] heap.objs[k]).forwarding
            != ForwardingState::BeingForwarded
}

/// Objects already housed in the copy destination are fresh copies: none of
/// them is forwarded.
pub open spec fn dest_unforwarded(heap: ObjectTable, dest: CopySpace) -> bool {
    forall|k: int|
        0 <= k < heap.objs.len() && dest.common.spec_in_range((#[trigger] heap.objs[k]).addr)
            ==> heap.objs[k].forwarding == ForwardingState::Unforwarded
}

/// Every forwarded object of `src` points at a real copy: the stored address
/// names an object of the table, housed in `dest`, with the same size and
/// the same payload bytes, itself unforwarded.
pub open spec fn fw_targets_ok(heap: ObjectTable, src: CopySpace, dest: CopySpace) -> bool {
    forall|k: int|
        0 <= k < heap.objs.len() && src.common.spec_in_range((#[trigger] heap.objs[k]).addr)
            && heap.objs[k].forwarding.spec_is_forwarded() ==> {
            let n = heap.objs[k].forwarding.spec_forwarded_to();
            &&& heap.spec_has(n)
            &&& dest.common.spec_in_range(n)
            &&& heap.spec_at(n).size == heap.objs[k].size
            &&& heap.spec_at(n).payload@ == heap.objs[k].payload@
            &&& heap.spec_at(n).forwarding == ForwardingState::Unforwarded
        }
}

/// How one trace step may change the table: every existing object keeps its
/// place, address, size, payload and fields; its mark bit is free and its
/// forwarding word takes only allowed steps; new objects may be appended.
pub open spec fn table_evolves(pre: ObjectTable, post: ObjectTable) -> bool {
    &&& post.objs.len() >= pre.objs.len()
    &&& forall|k: int|
        0 <= k < pre.objs.len() ==> {
            let a = #[trigger] post.objs[k];
            let b = #[trigger] pre.objs[k];
            &&& a.addr == b.addr
            &&& a.size == b.size
            &&& a.payload@ == b.payload@
            &&& a.fields@ == b.fields@
            &&& fw_step_allowed(b.forwarding, a.forwarding)
        }
}

/// An address present before a table evolution is present after it, at the
/// same index.
pub proof fn lemma_evolves_preserves_lookup(pre: ObjectTable, post: ObjectTable, addr: usize)
    requires
        pre.wf(),
        post.wf(),
        table_evolves(pre, post),
        pre.spec_has(addr),
    ensures
        post.spec_has(addr),
        post.spec_index_of(addr) == pre.spec_index_of(addr),
        post.spec_at(addr).addr == pre.spec_at(addr).addr,
        post.spec_at(addr).size == pre.spec_at(addr).size,
        post.spec_at(addr).payload@ == pre.spec_at(addr).payload@,
        post.spec_at(addr).fields@ == pre.spec_at(addr).fields@,
        fw_step_allowed(pre.spec_at(addr).forwarding, post.spec_at(addr).forwarding),
{
    let k = pre.spec_index_of(addr);
    assert(0 <= k < pre.objs.len() && pre.objs[k].addr == addr);
    assert(post.objs[k].addr == addr);
    post.lemma_index_unique(addr, k);
}

impl CopySpace {
    /// A copy space is well formed when its common state is, with no pending
    /// reservation outside an allocation.
    pub open spec fn wf(self) -> bool {
        &&& self.common.wf()
        &&& self.common.pr.pending == 0
    }

    pub open spec fn spec_in_space(self, addr: usize) -> bool {
        self.common.spec_in_range(addr)
    }

    /// A fresh copy space over `[start, start + extent)`.
    pub fn new(
        name: &'static str,
        from_space: bool,
        zeroed: bool,
        start: usize,
        extent: usize,
    ) -> (r: CopySpace)
        requires
            crate::layout::HEAP_START <= start,
            start + extent <= crate::layout::HEAP_END,
            extent as int % (crate::layout::BYTES_IN_PAGE as int) == 0,
        ensures
            r.wf(),
            r.common.name == name,
            r.common.start == start,
            r.common.extent == extent,
            r.common.cursor == 0,
            r.common.zeroed == zeroed,
            r.common.movable,
            r.from_space == from_space,
            r.common.pr.spec_reserved() == 0,
    {
        CopySpace { common: CommonSpace::new(name, start, extent, true, true, zeroed, ), from_space }
    }

    pub fn in_space(&self, object: ObjectReference) -> (r: bool)
        ensures
            r == self.spec_in_space(object.0),
    {
        self.common.in_space(object)
    }

    pub fn address_in_space(&self, addr: usize) -> (r: bool)
        ensures
            r == self.spec_in_space(addr),
    {
        self.common.in_range(addr)
    }

    /// Set this half's role for the coming collection.
    pub fn prepare(&mut self, from_space: bool)
        requires
            old(self).wf(),
        ensures
            final(self).wf(),
            final(self).from_space == from_space,
            final(self).common == old(self).common,
    {
        self.from_space = from_space;
    }

    /// An object of a copy space is live exactly when the trace has copied
    /// it out: its forwarding word is `Forwarded`.
    pub fn is_live(&self, heap: &ObjectTable, object: ObjectReference) -> (r: bool)
        requires
            heap.wf(),
        ensures
            r == (heap.spec_has(object.0) && heap.spec_at(object.0).forwarding.spec_is_forwarded()),
    {
        let found = heap.find_unique(object.0);
        match found {
            Some(i) => is_forwarded(&heap.objs[i].forwarding),
            None => false,
        }
    }

    pub fn is_movable(&self) -> (r: bool)
        ensures
            r,
    {
        true
    }

    /// Release the collected half: return all pages to the space's free
    /// list at once (without zeroing), drop the dead objects it housed, and
    /// clear the fromspace role.  Runs only after the closure has completed,
    /// when no surviving reference targets this space.
    #[verifier::rlimit(40)]
    pub fn release(&mut self, heap: &mut ObjectTable)
        requires
            old(self).wf(),
            old(heap).wf(),
        ensures
            final(self).wf(),
            final(heap).wf(),
            !final(self).from_space,
            final(self).common.pr.spec_reserved() == 0,
            final(self).common.cursor == 0,
            final(self).common.start == old(self).common.start,
            final(self).common.extent == old(self).common.extent,
            final(self).common.name == old(self).common.name,
            // nothing the space housed survives
            forall|k: int|
                0 <= k < final(heap).objs.len() ==> !old(self).common.spec_in_range(
                    (#[trigger] final(heap).objs[k]).addr,
                ),
            // every object outside the space survives unchanged
            forall|addr: usize|
                old(heap).spec_has(addr) && !old(self).common.spec_in_range(addr) ==> {
                    &&& #[trigger] final(heap).spec_has(addr)
                    &&& obj_like(final(heap).spec_at(addr), old(heap).spec_at(addr))
                },
            // and nothing else appears
            forall|addr: usize|
                #[trigger] final(heap).spec_has(addr) ==> old(heap).spec_has(addr)
                    && obj_like(final(heap).spec_at(addr), old(heap).spec_at(addr)),
    {
        let n = heap.objs.len();
        let mut kept: Vec<HeapObject> = Vec::new();
        let mut i: usize = 0;
        while i < n
            invariant
                n == heap.objs@.len(),
                old(heap).objs@ == heap.objs@,
                old(heap).wf(),
                old(self).wf(),
                *old(self) == *self,
                i <= n,
                forall|j: int|
                    0 <= j < kept@.len() ==> !old(self).common.spec_in_range(
                        (#[trigger] kept@[j]).addr,
                    ),
                forall|j: int|
                    0 <= j < kept@.len() ==> exists|k: int|
                        0 <= k < i && obj_like(old(heap).objs@[k], #[trigger] kept@[j]),
                forall|k: int|
                    0 <= k < i && !old(self).common.spec_in_range(
                        (#[trigger] old(heap).objs@[k]).addr,
                    ) ==> exists|j: int|
                        0 <= j < kept@.len() && obj_like(kept@[j], old(heap).objs@[k]),
                forall|j1: int, j2: int|
                    0 <= j1 < j2 < kept@.len() ==> (#[trigger] kept@[j1]).addr != (
                    #[trigger] kept@[j2]).addr,
                forall|j: int| 0 <= j < kept@.len() ==> (#[trigger] kept@[j]).wf(),
            decreases n - i,
        {
            let in_it = self.common.in_range(heap.objs[i].addr);
            if !in_it {
                let ghost pre_kept = kept@;
                let o = clone_object(&heap.objs[i]);
                kept.push(o);
                proof {
                    assert(obj_like(kept@[kept@.len() - 1], old(heap).objs@[i as int]));
                    assert forall|j1: int, j2: int| 0 <= j1 < j2 < kept@.len() implies (
                    #[trigger] kept@[j1]).addr != (#[trigger] kept@[j2]).addr by {
                        if j2 == kept@.len() - 1 {
                            let k1 = choose|k: int|
                                0 <= k < i && obj_like(old(heap).objs@[k], pre_kept[j1]);
                            assert(old(heap).objs@[k1].addr != old(heap).objs@[i as int].addr);
                        }
                    }
                    assert forall|k: int|
                        0 <= k < i + 1 && !old(self).common.spec_in_range(
                            (#[trigger] old(heap).objs@[k]).addr,
                        ) implies exists|j: int|
                        0 <= j < kept@.len() && obj_like(kept@[j], old(heap).objs@[k]) by {
                        if k == i {
                            assert(obj_like(kept@[kept@.len() - 1], old(heap).objs@[k]));
                        } else {
                            let j = choose|j: int|
                                0 <= j < pre_kept.len() && obj_like(
                                    pre_kept[j],
                                    old(heap).objs@[k],
                                );
                            assert(obj_like(kept@[j], old(heap).objs@[k]));
                        }
                    }
                }
            } else {
                proof {
                    assert forall|k: int|
                        0 <= k < i + 1 && !old(self).common.spec_in_range(
                            (#[trigger] old(heap).objs@[k]).addr,
                        ) implies exists|j: int|
                        0 <= j < kept@.len() && obj_like(kept@[j], old(heap).objs@[k]) by {
                        if k < i {
                            let j = choose|j: int|
                                0 <= j < kept@.len() && obj_like(kept@[j], old(heap).objs@[k]);
                        }
                    }
                }
            }
            i = i + 1;
        }
        heap.objs = kept;
        self.common.reset();
        self.from_space = false;
        proof {
            assert forall|addr: usize|
                old(heap).spec_has(addr) && !old(self).common.spec_in_range(addr) implies {
                &&& #[trigger] heap.spec_has(addr)
                &&& obj_like(heap.spec_at(addr), old(heap).spec_at(addr))
            } by {
                let k = choose|k: int|
                    0 <= k < old(heap).objs@.len() && (#[trigger] old(heap).objs@[k]).addr == addr;
                let j = choose|j: int|
                    0 <= j < heap.objs@.len() && obj_like(heap.objs@[j], old(heap).objs@[k]);
                heap.lemma_index_unique(addr, j);
                old(heap).lemma_index_unique(addr, k);
            }
            assert forall|addr: usize| #[trigger] heap.spec_has(addr) implies old(heap).spec_has(
                addr,
            ) && obj_like(heap.spec_at(addr), old(heap).spec_at(addr)) by {
                let j = heap.spec_index_of(addr);
                let k = choose|k: int|
                    0 <= k < old(heap).objs@.len() && obj_like(old(heap).objs@[k], heap.objs@[j]);
                old(heap).lemma_index_unique(addr, k);
                heap.lemma_index_unique(addr, j);
            }
        }
    }

    /// The copying trace.  For an object of the collected half: claim its
    /// forwarding word; the winner copies the object into `dest`, publishes
    /// the copy's address and enqueues the copy for scanning; when the word
    /// is already published the stored address is returned.  Objects of a
    /// half not under collection, and null references, are returned
    /// unchanged.  Fails only when `dest` is out of pages.
    pub fn trace_object(
        &self,
        dest: &mut CopySpace,
        heap: &mut ObjectTable,
        scan_queue: &mut Vec<usize>,
        object: ObjectReference,
    ) -> (r: Result<ObjectReference, GcError>)
        requires
            old(heap).wf(),
            self.wf(),
            old(dest).wf(),
            self.common.spec_disjoint(old(dest).common),
            !old(dest).from_space,
            object.0 != 0 ==> self.spec_in_space(object.0) && old(heap).spec_has(object.0),
            all_words_published(*old(heap)),
            objects_bounded(*old(heap), old(dest).common),
            dest_unforwarded(*old(heap), *old(dest)),
            fw_targets_ok(*old(heap), *self, *old(dest)),
        ensures
            final(heap).wf(),
            final(dest).wf(),
            final(dest).from_space == old(dest).from_space,
            final(dest).common.start == old(dest).common.start,
            final(dest).common.extent == old(dest).common.extent,
            final(dest).common.name == old(dest).common.name,
            final(dest).common.cursor >= old(dest).common.cursor,
            table_evolves(*old(heap), *final(heap)),
            all_words_published(*final(heap)),
            objects_bounded(*final(heap), final(dest).common),
            dest_unforwarded(*final(heap), *final(dest)),
            fw_targets_ok(*final(heap), *self, *final(dest)),
            // forwarding-word changes are confined to this space's range
            forall|k: int|
                0 <= k < old(heap).objs.len() && (#[trigger] final(heap).objs[k]).forwarding != (
                #[trigger] old(heap).objs[k]).forwarding ==> self.common.spec_in_range(
                    old(heap).objs[k].addr,
                ),
            // objects appended by this step lie in the destination
            forall|k: int|
                old(heap).objs.len() <= k < final(heap).objs.len()
                    ==> final(dest).common.spec_in_range((#[trigger] final(heap).objs[k]).addr)
                    && (#[trigger] final(heap).objs[k]).forwarding
                    == ForwardingState::Unforwarded,
            match r {
                Ok(n) => {
                    &&& (object.0 == 0 ==> n.0 == 0)
                    &&& (!self.from_space ==> n == object)
                    &&& (object.0 == 0 || !self.from_space ==> {
                        &&& final(heap).objs@ == old(heap).objs@
                        &&& *final(dest) == *old(dest)
                        &&& final(scan_queue)@ == old(scan_queue)@
                    })
                    &&& (object.0 != 0 && self.from_space ==> {
                        &&& n.0 != 0
                        &&& final(dest).spec_in_space(n.0)
                        &&& !self.spec_in_space(n.0)
                        &&& final(heap).spec_has(n.0)
                        &&& final(heap).spec_at(n.0).size == old(heap).spec_at(object.0).size
                        &&& final(heap).spec_at(n.0).payload@ == old(heap).spec_at(
                            object.0,
                        ).payload@
                        &&& final(heap).spec_at(object.0).forwarding
                            == ForwardingState::Forwarded(n.0)
                        &&& final(heap).spec_at(n.0).forwarding == ForwardingState::Unforwarded
                        &&& (final(scan_queue)@ == old(scan_queue)@ || final(scan_queue)@ == old(
                            scan_queue,
                        )@.push(n.0))
                    })
                },
                Err(e) => {
                    &&& e == GcError::OutOfMemory
                    &&& self.from_space
                    &&& object.0 != 0
                    &&& old(heap).spec_at(object.0).forwarding == ForwardingState::Unforwarded
                    &&& final(heap).objs@ == old(heap).objs@
                    &&& final(scan_queue)@ == old(scan_queue)@
                    &&& *final(dest) == *old(dest)
                    // failure comes only of the destination: the aligned
                    // allocation point plus the object's size overruns it
                    &&& crate::layout::spec_align_up(
                        (old(dest).common.start + old(dest).common.cursor) as usize,
                        MIN_OBJECT_ALIGN,
                        0,
                    ) + old(heap).spec_at(object.0).size > old(dest).common.start + old(
                        dest,
                    ).common.extent
                },
            },
    {
        if !self.from_space {
            return Ok(object);
        }
        if object.is_null() {
            return Ok(object);
        }
        let found = heap.find_unique(object.value());
        let idx: usize = match found {
            Some(i) => i,
            None => {
                proof {
                    assert(false);
                }
                return Err(GcError::OutOfMemory);
            },
        };
        let mut word = heap.objs[idx].forwarding;
        let prior = attempt_to_forward(&mut word);
        match prior {
            ForwardingState::Forwarded(n) => {
                // another visit already copied the object
                proof {
                    assert(heap.objs@ =~= old(heap).objs@);
                }
                let r = spin_and_get_forwarded_object(&heap.objs[idx].forwarding);
                proof {
                    assert(self.common.spec_in_range(heap.objs@[idx as int].addr));
                }
                Ok(ObjectReference(r))
            },
            ForwardingState::BeingForwarded => {
                // ruled out between packet steps: every word is published
                proof {
                    assert(false);
                }
                Err(GcError::OutOfMemory)
            },
            ForwardingState::Unforwarded => {
                // this visit won the claim: copy, publish, enqueue
                heap.objs[idx].forwarding = word;
                let size = heap.objs[idx].size;
                proof {
                    lemma_min_align_legal();
                }
                let alloc = dest.common.bump_alloc(size, MIN_OBJECT_ALIGN, 0);
                match alloc {
                    None => {
                        // destination exhausted: surrender the claim
                        heap.objs[idx].forwarding = ForwardingState::Unforwarded;
                        proof {
                            assert(heap.objs@ =~= old(heap).objs@);
                        }
                        Err(GcError::OutOfMemory)
                    },
                    Some(new_addr) => {
                        let payload = copy_bytes(&heap.objs[idx].payload);
                        let fields = copy_words(&heap.objs[idx].fields);
                        let mut copy = HeapObject {
                            addr: new_addr,
                            size,
                            forwarding: word,  // the copy inherits the claimed word
                            mark: heap.objs[idx].mark,
                            payload,
                            fields,
                        };
                        clear_forwarding_bits(&mut copy.forwarding);
                        let ghost pre_push = heap.objs@;
                        heap.objs.push(copy);
                        let mut word2 = heap.objs[idx].forwarding;
                        publish_forwarded(&mut word2, new_addr);
                        heap.objs[idx].forwarding = word2;
                        scan_queue.push(new_addr);
                        proof {
                            let post = heap.objs@;
                            let li = idx as int;
                            let newi = post.len() - 1;
                            assert forall|k: int, j: int| 0 <= k < j < post.len() implies (
                            #[trigger] post[k]).addr != (#[trigger] post[j]).addr by {
                                if j == newi {
                                    if old(dest).common.spec_in_range(post[k].addr) {
                                        assert(old(heap).objs@[k].addr + old(heap).objs@[k].size
                                            <= old(dest).common.start + old(dest).common.cursor);
                                    }
                                }
                            }
                            heap.lemma_index_unique(new_addr, newi);
                            heap.lemma_index_unique(object.0, li);
                            assert forall|k: int|
                                0 <= k < post.len() && self.common.spec_in_range(
                                    (#[trigger] post[k]).addr,
                                ) && post[k].forwarding.spec_is_forwarded() implies {
                                let n2 = post[k].forwarding.spec_forwarded_to();
                                &&& heap.spec_has(n2)
                                &&& final(dest).common.spec_in_range(n2)
                                &&& heap.spec_at(n2).size == post[k].size
                                &&& heap.spec_at(n2).payload@ == post[k].payload@
                                &&& heap.spec_at(n2).forwarding == ForwardingState::Unforwarded
                            } by {
                                let n2 = post[k].forwarding.spec_forwarded_to();
                                if k == li {
                                    assert(n2 == new_addr);
                                } else {
                                    assert(old(heap).objs@[k] == post[k] || k == newi);
                                    assert(k != newi);
                                    let m = old(heap).spec_index_of(n2);
                                    old(heap).lemma_index_unique(n2, m);
                                    heap.lemma_index_unique(n2, m);
                                }
                            }
                        }
                        Ok(ObjectReference(new_addr))
                    },
                }
            },
        }
    }

    /// Mark the whole range inaccessible after release, to harden against
    /// dangling pointers.  Only supported for contiguous spaces; the caller
    /// applies the returned range to the real pages.
    pub fn protect(&mut self) -> (r: (usize, usize))
        requires
            old(self).common.contiguous,
        ensures
            final(self).common == (crate::space::CommonSpace {
                protected: true,
                ..old(self).common
            }),
            final(self).from_space == old(self).from_space,
            r.0 == old(self).common.start,
            r.1 == old(self).common.extent,
            old(self).wf() ==> final(self).wf(),
    {
        self.common.protected = true;
        (self.common.start, self.common.extent)
    }

    /// Make the range accessible again before reuse.
    pub fn unprotect(&mut self) -> (r: (usize, usize))
        requires
            old(self).common.contiguous,
        ensures
            final(self).common == (crate::space::CommonSpace {
                protected: false,
                ..old(self).common
            }),
            final(self).from_space == old(self).from_space,
            r.0 == old(self).common.start,
            r.1 == old(self).common.extent,
            old(self).wf() ==> final(self).wf(),
    {
        self.common.protected = false;
        (self.common.start, self.common.extent)
    }
}

/// Clone one heap object field by field.
pub fn clone_object(o: &HeapObject) -> (r: HeapObject)
    ensures
        r.addr == o.addr,
        r.size == o.size,
        r.forwarding == o.forwarding,
        r.mark == o.mark,
        r.payload@ == o.payload@,
        r.fields@ == o.fields@,
        r.wf() == o.wf(),
        obj_like(r, *o),
{
    HeapObject {
        addr: o.addr,
        size: o.size,
        forwarding: o.forwarding,
        mark: o.mark,
        payload: copy_bytes(&o.payload),
        fields: copy_words(&o.fields),
    }
}

} // verus!
