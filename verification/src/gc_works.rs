//! The generational plan's collection work: plan-level trace functions that
//! dispatch on the space holding an object, the edge-processing packets and
//! the copy context used while a collection is in flight.

use crate::copyspace::{
    all_words_published, dest_unforwarded, fw_targets_ok, lemma_evolves_preserves_lookup,
    objects_bounded, table_evolves,
};
use crate::errors::GcError;
use crate::forwarding_word::ForwardingState;
use crate::gencopy::GenCopy;
use crate::layout::ObjectReference;
use crate::object_model::ObjectTable;
use vstd::prelude::*;

verus! {

/// A slot holding an object reference — an edge of the object graph: either
/// a root slot of the runtime or a numbered field of a heap object.
#[derive(Clone, Copy, PartialEq, Eq, Structural, Debug)]
pub enum Slot {
    /// The `index`th entry of the root table.
    Root { index: usize },
    /// The `field`th reference slot of the object whose header is at
    /// `object`.
    Field { object: usize, field: usize },
}

/// No object of the table lies in the given copy space: between full
/// collections the fromspace stays empty.
pub open spec fn space_empty(heap: ObjectTable, cs: crate::copyspace::CopySpace) -> bool {
    forall|k: int|
        0 <= k < heap.objs.len() ==> !cs.common.spec_in_range((#[trigger] heap.objs[k]).addr)
}

/// What one trace step may do to the plan: everything stays put except the
/// tospace, whose cursor may only advance.
pub open spec fn trace_plan_frame(pre: GenCopy, post: GenCopy) -> bool {
    &&& post.hi == pre.hi
    &&& post.nursery == pre.nursery
    &&& post.vm_space == pre.vm_space
    &&& post.immortal == pre.immortal
    &&& post.los == pre.los
    &&& post.common == pre.common
    &&& post.in_nursery_gc == pre.in_nursery_gc
    &&& post.spec_fromspace() == pre.spec_fromspace()
    &&& post.spec_tospace().common.start == pre.spec_tospace().common.start
    &&& post.spec_tospace().common.extent == pre.spec_tospace().common.extent
    &&& post.spec_tospace().common.name == pre.spec_tospace().common.name
    &&& post.spec_tospace().from_space == pre.spec_tospace().from_space
    &&& post.spec_tospace().common.cursor >= pre.spec_tospace().common.cursor
}

impl GenCopy {
    /// The copying result the trace promises for an object of a collected
    /// half: its word now points at a copy in the tospace with the same
    /// size and payload bytes.
    pub open spec fn spec_copied_out(
        self,
        pre: ObjectTable,
        post: ObjectTable,
        object: ObjectReference,
        n: ObjectReference,
    ) -> bool {
        &&& n.0 != 0
        &&& self.spec_tospace().spec_in_space(n.0)
        &&& post.spec_has(object.0)
        &&& post.spec_at(object.0).forwarding == ForwardingState::Forwarded(n.0)
        &&& post.spec_has(n.0)
        &&& post.spec_at(n.0).size == pre.spec_at(object.0).size
        &&& post.spec_at(n.0).payload@ == pre.spec_at(object.0).payload@
    }

    /// The nursery-collection trace: evacuate nursery objects into the
    /// tospace; every other object is returned unchanged.
    pub fn trace_object_nursery(
        &mut self,
        heap: &mut ObjectTable,
        nodes: &mut Vec<usize>,
        object: ObjectReference,
    ) -> (r: Result<ObjectReference, GcError>)
        requires
            old(self).wf(),
            old(heap).wf(),
            old(self).gc_inv(*old(heap)),
            old(self).nursery.from_space,
            space_empty(*old(heap), old(self).spec_fromspace()),
        ensures
            final(self).wf(),
            final(heap).wf(),
            final(self).gc_inv(*final(heap)),
            space_empty(*final(heap), old(self).spec_fromspace()),
            trace_plan_frame(*old(self), *final(self)),
            table_evolves(*old(heap), *final(heap)),
            forall|k: int|
                old(heap).objs@.len() <= k < final(heap).objs@.len()
                    ==> final(self).spec_tospace().common.spec_in_range(
                    (#[trigger] final(heap).objs@[k]).addr,
                ),
            match r {
                Ok(n) => {
                    &&& (n.0 == 0 <==> object.0 == 0)
                    &&& (n.0 != 0 ==> !old(self).nursery.spec_in_space(n.0))
                    &&& (n.0 != 0 ==> !old(self).spec_fromspace().spec_in_space(n.0))
                    &&& (object.0 != 0 && old(self).nursery.spec_in_space(object.0)
                        ==> old(self).spec_copied_out(*old(heap), *final(heap), object, n))
                    &&& (object.0 != 0 && !old(self).nursery.spec_in_space(object.0) ==> n
                        == object && final(heap).objs@ == old(heap).objs@ && *final(self) == *old(
                        self,
                    ))
                },
                Err(e) => {
                    &&& final(heap).objs@ == old(heap).objs@
                    &&& final(nodes)@ == old(nodes)@
                    &&& *final(self) == *old(self)
                    &&& (e == GcError::InvalidReference ==> old(
                        self,
                    ).spec_fromspace().spec_in_space(object.0) || (old(self).nursery.spec_in_space(
                        object.0,
                    ) && !old(heap).spec_has(object.0)))
                    &&& (e == GcError::OutOfMemory ==> old(self).nursery.spec_in_space(object.0)
                        && old(heap).spec_has(object.0) && old(heap).spec_at(object.0).forwarding
                        == ForwardingState::Unforwarded && no_room_for(
                        *old(self),
                        old(heap).spec_at(object.0).size,
                    ))
                    &&& (e == GcError::OutOfMemory || e == GcError::InvalidReference)
                },
            },
    {
        if object.is_null() {
            return Ok(object);
        }
        if !self.nursery.in_space(object) {
            if self.fromspace().in_space(object) {
                // a nursery collection must never meet a fromspace reference
                return Err(GcError::InvalidReference);
            }
            return Ok(object);
        }
        let found = heap.find(object.value());
        if found.is_none() {
            return Err(GcError::InvalidReference);
        }
        let r = if self.hi {
            self.nursery.trace_object(&mut self.copyspace1, heap, nodes, object)
        } else {
            self.nursery.trace_object(&mut self.copyspace0, heap, nodes, object)
        };
        match r {
            Ok(n) => {
                proof {
                    self.lemma_trace_reestablish(
                        *old(self),
                        *old(heap),
                        *heap,
                        old(self).nursery,
                    );
                    lemma_evolves_preserves_lookup(*old(heap), *heap, object.0);
                }
                Ok(n)
            },
            Err(e) => {
                proof {
                    self.lemma_trace_reestablish(
                        *old(self),
                        *old(heap),
                        *heap,
                        old(self).nursery,
                    );
                }
                Err(e)
            },
        }
    }

    /// The full-heap trace: evacuate nursery and fromspace objects into the
    /// tospace; mark objects of the non-moving spaces; everything else is
    /// returned unchanged.
    pub fn trace_object_mature(
        &mut self,
        heap: &mut ObjectTable,
        nodes: &mut Vec<usize>,
        object: ObjectReference,
    ) -> (r: Result<ObjectReference, GcError>)
        requires
            old(self).wf(),
            old(heap).wf(),
            old(self).gc_inv(*old(heap)),
            old(self).nursery.from_space,
            old(self).spec_fromspace().from_space,
        ensures
            final(self).wf(),
            final(heap).wf(),
            final(self).gc_inv(*final(heap)),
            trace_plan_frame(*old(self), *final(self)),
            table_evolves(*old(heap), *final(heap)),
            forall|k: int|
                old(heap).objs@.len() <= k < final(heap).objs@.len()
                    ==> final(self).spec_tospace().common.spec_in_range(
                    (#[trigger] final(heap).objs@[k]).addr,
                ),
            match r {
                Ok(n) => {
                    &&& (n.0 == 0 <==> object.0 == 0)
                    &&& (n.0 != 0 ==> !old(self).nursery.spec_in_space(n.0))
                    &&& (n.0 != 0 ==> !old(self).spec_fromspace().spec_in_space(n.0))
                    &&& (object.0 != 0 && (old(self).nursery.spec_in_space(object.0) || old(
                        self,
                    ).spec_fromspace().spec_in_space(object.0)) ==> old(self).spec_copied_out(
                        *old(heap),
                        *final(heap),
                        object,
                        n,
                    ))
                    &&& (object.0 != 0 && !old(self).nursery.spec_in_space(object.0) && !old(
                        self,
                    ).spec_fromspace().spec_in_space(object.0) ==> n == object)
                },
                Err(e) => {
                    &&& final(heap).objs@ == old(heap).objs@
                    &&& final(nodes)@ == old(nodes)@
                    &&& *final(self) == *old(self)
                    &&& (e == GcError::InvalidReference ==> mature_invalid_target(
                        *old(self),
                        *old(heap),
                        object.0,
                    ))
                    &&& (e == GcError::OutOfMemory ==> (old(self).nursery.spec_in_space(object.0)
                        || old(self).spec_fromspace().spec_in_space(object.0)) && old(
                        heap,
                    ).spec_has(object.0) && old(heap).spec_at(object.0).forwarding
                        == ForwardingState::Unforwarded && no_room_for(
                        *old(self),
                        old(heap).spec_at(object.0).size,
                    ))
                    &&& (e == GcError::OutOfMemory || e == GcError::InvalidReference)
                },
            },
    {
        if object.is_null() {
            return Ok(object);
        }
        if self.nursery.in_space(object) {
            let found = heap.find(object.value());
            if found.is_none() {
                return Err(GcError::InvalidReference);
            }
            let r = if self.hi {
                self.nursery.trace_object(&mut self.copyspace1, heap, nodes, object)
            } else {
                self.nursery.trace_object(&mut self.copyspace0, heap, nodes, object)
            };
            proof {
                self.lemma_trace_reestablish(*old(self), *old(heap), *heap, old(self).nursery);
                if r is Ok {
                    lemma_evolves_preserves_lookup(*old(heap), *heap, object.0);
                }
            }
            return r;
        }
        if self.tospace().in_space(object) {
            return Ok(object);
        }
        if self.fromspace().in_space(object) {
            let found = heap.find(object.value());
            if found.is_none() {
                return Err(GcError::InvalidReference);
            }
            let r = if self.hi {
                self.copyspace0.trace_object(&mut self.copyspace1, heap, nodes, object)
            } else {
                self.copyspace1.trace_object(&mut self.copyspace0, heap, nodes, object)
            };
            proof {
                self.lemma_trace_reestablish(
                    *old(self),
                    *old(heap),
                    *heap,
                    old(self).spec_fromspace(),
                );
                if r is Ok {
                    lemma_evolves_preserves_lookup(*old(heap), *heap, object.0);
                }
            }
            return r;
        }
        if self.immortal.in_space(object) {
            let found = heap.find(object.value());
            if found.is_none() {
                return Err(GcError::InvalidReference);
            }
            let r = self.immortal.trace_object(heap, nodes, object);
            proof {
                self.lemma_mark_reestablish(*old(heap), *heap);
            }
            return Ok(r);
        }
        if self.los.in_space(object) {
            let found = heap.find(object.value());
            if found.is_none() {
                return Err(GcError::InvalidReference);
            }
            let r = self.los.trace_object(heap, nodes, object);
            proof {
                self.lemma_mark_reestablish(*old(heap), *heap);
            }
            return Ok(r);
        }
        if self.vm_space.in_space(object) {
            let found = heap.find(object.value());
            if found.is_none() {
                return Err(GcError::InvalidReference);
            }
            let r = self.vm_space.trace_object(heap, nodes, object);
            proof {
                self.lemma_mark_reestablish(*old(heap), *heap);
            }
            return Ok(r);
        }
        Err(GcError::InvalidReference)
    }

    /// Re-establish the collector's invariant after one copying trace step
    /// whose source was `src` (the nursery or the fromspace) and whose
    /// destination was the tospace.
    proof fn lemma_trace_reestablish(
        &self,
        pre_plan: GenCopy,
        pre: ObjectTable,
        post: ObjectTable,
        src: crate::copyspace::CopySpace,
    )
        requires
            pre_plan.wf(),
            self.wf(),
            trace_plan_frame(pre_plan, *self),
            pre.wf(),
            post.wf(),
            pre_plan.gc_inv(pre),
            table_evolves(pre, post),
            all_words_published(post),
            objects_bounded(post, self.spec_tospace().common),
            dest_unforwarded(post, self.spec_tospace()),
            fw_targets_ok(post, src, self.spec_tospace()),
            src == pre_plan.nursery || src == pre_plan.spec_fromspace(),
            // changes confined to the source's range
            forall|k: int|
                0 <= k < pre.objs.len() && (#[trigger] post.objs[k]).forwarding != (
                #[trigger] pre.objs[k]).forwarding ==> src.common.spec_in_range(pre.objs[k].addr),
            // appended objects lie in the tospace, unforwarded
            forall|k: int|
                pre.objs.len() <= k < post.objs.len() ==> self.spec_tospace().common.spec_in_range(
                    (#[trigger] post.objs[k]).addr,
                ) && (#[trigger] post.objs[k]).forwarding == ForwardingState::Unforwarded,
        ensures
            self.gc_inv(post),
            space_empty(pre, pre_plan.spec_fromspace()) ==> space_empty(
                post,
                pre_plan.spec_fromspace(),
            ),
    {
        let to = self.spec_tospace();
        let other: crate::copyspace::CopySpace = if src == pre_plan.nursery {
            pre_plan.spec_fromspace()
        } else {
            pre_plan.nursery
        };
        assert forall|k: int|
            0 <= k < post.objs.len() && other.common.spec_in_range(
                (#[trigger] post.objs[k]).addr,
            ) && post.objs[k].forwarding.spec_is_forwarded() implies {
            let n2 = post.objs[k].forwarding.spec_forwarded_to();
            &&& post.spec_has(n2)
            &&& to.common.spec_in_range(n2)
            &&& post.spec_at(n2).size == post.objs[k].size
            &&& post.spec_at(n2).payload@ == post.objs[k].payload@
            &&& post.spec_at(n2).forwarding == ForwardingState::Unforwarded
        } by {
            assert(pre.objs[k].forwarding == post.objs[k].forwarding);
            assert(pre.objs[k].forwarding.spec_is_forwarded());
            let n2 = post.objs[k].forwarding.spec_forwarded_to();
            assert(pre.spec_has(n2));
            lemma_evolves_preserves_lookup(pre, post, n2);
            let m = pre.spec_index_of(n2);
            assert(post.spec_at(n2).forwarding == post.objs[m].forwarding);
            assert(pre.objs[m].forwarding == ForwardingState::Unforwarded);
            assert(to.common.spec_in_range(pre.objs[m].addr));
            assert(post.objs[m].forwarding == pre.objs[m].forwarding);
        }
        assert forall|k: int|
            0 <= k < post.objs.len() && !self.nursery.spec_in_space(
                (#[trigger] post.objs[k]).addr,
            ) && !self.spec_fromspace().spec_in_space(post.objs[k].addr) implies post.objs[k].forwarding
            == ForwardingState::Unforwarded by {
            if k < pre.objs.len() {
                if post.objs[k].forwarding != pre.objs[k].forwarding {
                    assert(src.common.spec_in_range(pre.objs[k].addr));
                }
            }
        }
        if space_empty(pre, pre_plan.spec_fromspace()) {
            assert forall|k: int|
                0 <= k < post.objs.len() implies !pre_plan.spec_fromspace().common.spec_in_range(
                (#[trigger] post.objs[k]).addr,
            ) by {
                if k < pre.objs.len() {
                    assert(post.objs[k].addr == pre.objs[k].addr);
                } else {
                    assert(self.spec_tospace().common.spec_in_range(post.objs[k].addr));
                }
            }
        }
    }

    /// Re-establish the collector's invariant after a marking trace step,
    /// which changes no forwarding word and appends nothing.
    proof fn lemma_mark_reestablish(&self, pre: ObjectTable, post: ObjectTable)
        requires
            self.wf(),
            pre.wf(),
            post.wf(),
            self.gc_inv(pre),
            table_evolves(pre, post),
            post.objs@.len() == pre.objs@.len(),
            forall|k: int|
                0 <= k < pre.objs.len() ==> (#[trigger] post.objs[k]).forwarding == (
                #[trigger] pre.objs[k]).forwarding,
        ensures
            self.gc_inv(post),
            space_empty(pre, self.spec_fromspace()) ==> space_empty(
                post,
                self.spec_fromspace(),
            ),
    {
        let to = self.spec_tospace();
        assert forall|k: int| 0 <= k < post.objs.len() implies {
            &&& (#[trigger] post.objs[k]).addr == pre.objs[k].addr
            &&& post.objs[k].size == pre.objs[k].size
            &&& post.objs[k].forwarding == pre.objs[k].forwarding
        } by {
            assert(table_evolves(pre, post));
            assert(pre.objs[k].addr == post.objs[k].addr);
        }
        assert forall|k: int|
            0 <= k < post.objs.len() && self.nursery.common.spec_in_range(
                (#[trigger] post.objs[k]).addr,
            ) && post.objs[k].forwarding.spec_is_forwarded() implies {
            let n2 = post.objs[k].forwarding.spec_forwarded_to();
            &&& post.spec_has(n2)
            &&& to.common.spec_in_range(n2)
            &&& post.spec_at(n2).size == post.objs[k].size
            &&& post.spec_at(n2).payload@ == post.objs[k].payload@
            &&& post.spec_at(n2).forwarding == ForwardingState::Unforwarded
        } by {
            let n2 = post.objs[k].forwarding.spec_forwarded_to();
            assert(pre.objs[k].forwarding.spec_is_forwarded());
            assert(pre.spec_has(n2));
            lemma_evolves_preserves_lookup(pre, post, n2);
            let m = pre.spec_index_of(n2);
            assert(post.spec_at(n2).forwarding == post.objs[m].forwarding);
        }
        assert forall|k: int|
            0 <= k < post.objs.len() && self.spec_fromspace().common.spec_in_range(
                (#[trigger] post.objs[k]).addr,
            ) && post.objs[k].forwarding.spec_is_forwarded() implies {
            let n2 = post.objs[k].forwarding.spec_forwarded_to();
            &&& post.spec_has(n2)
            &&& to.common.spec_in_range(n2)
            &&& post.spec_at(n2).size == post.objs[k].size
            &&& post.spec_at(n2).payload@ == post.objs[k].payload@
            &&& post.spec_at(n2).forwarding == ForwardingState::Unforwarded
        } by {
            let n2 = post.objs[k].forwarding.spec_forwarded_to();
            assert(pre.objs[k].forwarding.spec_is_forwarded());
            assert(pre.spec_has(n2));
            lemma_evolves_preserves_lookup(pre, post, n2);
            let m = pre.spec_index_of(n2);
            assert(post.spec_at(n2).forwarding == post.objs[m].forwarding);
        }
    }
}

/// A weaker evolution relation for whole closure phases: addresses, sizes
/// and payloads stay put, forwarding words only advance, but reference
/// slots may be rewritten (that is what the closure does).
pub open spec fn table_evolves_loose(pre: ObjectTable, post: ObjectTable) -> bool {
    &&& post.objs.len() >= pre.objs.len()
    &&& forall|k: int|
        0 <= k < pre.objs.len() ==> {
            let a = #[trigger] post.objs[k];
            let b = #[trigger] pre.objs[k];
            &&& a.addr == b.addr
            &&& a.size == b.size
            &&& a.payload@ == b.payload@
            &&& a.fields@.len() == b.fields@.len()
            &&& crate::forwarding_word::fw_step_allowed(b.forwarding, a.forwarding)
        }
}

/// The strict relation implies the loose one.
pub proof fn lemma_evolves_to_loose(pre: ObjectTable, post: ObjectTable)
    requires
        table_evolves(pre, post),
    ensures
        table_evolves_loose(pre, post),
{
}

/// The loose relation is transitive.
pub proof fn lemma_loose_trans(a: ObjectTable, b: ObjectTable, c: ObjectTable)
    requires
        table_evolves_loose(a, b),
        table_evolves_loose(b, c),
    ensures
        table_evolves_loose(a, c),
{
    assert forall|k: int| 0 <= k < a.objs.len() implies {
        let x = #[trigger] c.objs[k];
        let y = #[trigger] a.objs[k];
        &&& x.addr == y.addr
        &&& x.size == y.size
        &&& x.payload@ == y.payload@
        &&& x.fields@.len() == y.fields@.len()
        &&& crate::forwarding_word::fw_step_allowed(y.forwarding, x.forwarding)
    } by {
        assert(b.objs[k].addr == a.objs[k].addr);
        assert(c.objs[k].addr == b.objs[k].addr);
    }
}

/// Load the reference a slot currently holds.
pub fn load_slot(roots: &Vec<usize>, heap: &ObjectTable, slot: Slot) -> (r: Result<
    usize,
    GcError,
>)
    requires
        heap.wf(),
    ensures
        (r is Ok) == slot_valid(*heap, roots@, slot),
        r is Ok ==> r->Ok_0 == slot_value(*heap, roots@, slot),
        match r {
            Ok(v) => match slot {
                Slot::Root { index } => index < roots@.len() && v == roots@[index as int],
                Slot::Field { object, field } => heap.spec_has(object) && field < heap.spec_at(
                    object,
                ).fields@.len() && v == heap.spec_at(object).fields@[field as int],
            },
            Err(e) => e == GcError::InvalidReference,
        },
{
    match slot {
        Slot::Root { index } => {
            if index < roots.len() {
                Ok(roots[index])
            } else {
                Err(GcError::InvalidReference)
            }
        },
        Slot::Field { object, field } => {
            let found = heap.find_unique(object);
            match found {
                Some(i) => {
                    if field < heap.objs[i].fields.len() {
                        Ok(heap.objs[i].fields[field])
                    } else {
                        Err(GcError::InvalidReference)
                    }
                },
                None => Err(GcError::InvalidReference),
            }
        },
    }
}

/// Write a reference back into a slot.  Only that slot changes: every other
/// root and every other field of every object keeps its value.
pub fn store_slot(roots: &mut Vec<usize>, heap: &mut ObjectTable, slot: Slot, value: usize) -> (r:
    Result<(), GcError>)
    requires
        old(heap).wf(),
    ensures
        (r is Ok) == slot_valid(*old(heap), old(roots)@, slot),
        final(heap).wf(),
        final(heap).objs@.len() == old(heap).objs@.len(),
        final(roots)@.len() == old(roots)@.len(),
        table_evolves_loose(*old(heap), *final(heap)),
        forall|k: int|
            0 <= k < old(heap).objs@.len() ==> (#[trigger] final(heap).objs@[k]).forwarding == (
            #[trigger] old(heap).objs@[k]).forwarding && final(heap).objs@[k].mark == old(
                heap,
            ).objs@[k].mark,
        match r {
            Ok(u) => match slot {
                Slot::Root { index } => {
                    &&& index < old(roots)@.len()
                    &&& final(roots)@ == old(roots)@.update(index as int, value)
                    &&& final(heap).objs@ == old(heap).objs@
                },
                Slot::Field { object, field } => {
                    &&& final(roots)@ == old(roots)@
                    &&& old(heap).spec_has(object)
                    &&& field < old(heap).spec_at(object).fields@.len()
                    &&& final(heap).spec_has(object)
                    &&& final(heap).spec_at(object).fields@ == old(heap).spec_at(
                        object,
                    ).fields@.update(field as int, value)
                    &&& forall|k: int|
                        0 <= k < old(heap).objs@.len() && k != old(heap).spec_index_of(object)
                            ==> (#[trigger] final(heap).objs@[k]).fields@ == old(
                            heap,
                        ).objs@[k].fields@
                },
            },
            Err(e) => {
                &&& e == GcError::InvalidReference
                &&& final(heap).objs@ == old(heap).objs@
                &&& final(roots)@ == old(roots)@
            },
        },
{
    match slot {
        Slot::Root { index } => {
            if index < roots.len() {
                roots[index] = value;
                Ok(())
            } else {
                Err(GcError::InvalidReference)
            }
        },
        Slot::Field { object, field } => {
            let found = heap.find_unique(object);
            match found {
                Some(i) => {
                    if field < heap.objs[i].fields.len() {
                        heap.objs[i].fields[field] = value;
                        proof {
                            heap.lemma_index_unique(object, i as int);
                        }
                        Ok(())
                    } else {
                        Err(GcError::InvalidReference)
                    }
                },
                None => Err(GcError::InvalidReference),
            }
        },
    }
}

impl GenCopy {
    /// Re-establish the collector's invariant across a step that leaves
    /// every object's address, size, payload and forwarding word exactly in
    /// place (a slot store, which touches reference fields only).
    pub proof fn lemma_pointwise_reestablish(&self, pre: ObjectTable, post: ObjectTable)
        requires
            self.wf(),
            pre.wf(),
            post.wf(),
            self.gc_inv(pre),
            post.objs@.len() == pre.objs@.len(),
            forall|k: int|
                0 <= k < pre.objs@.len() ==> {
                    let a = #[trigger] post.objs@[k];
                    let b = #[trigger] pre.objs@[k];
                    &&& a.addr == b.addr
                    &&& a.size == b.size
                    &&& a.payload@ == b.payload@
                    &&& a.forwarding == b.forwarding
                },
            space_empty(pre, self.spec_fromspace()),
        ensures
            self.gc_inv(post),
            space_empty(post, self.spec_fromspace()),
    {
        let to = self.spec_tospace();
        assert forall|k: int| 0 <= k < post.objs.len() implies {
            &&& (#[trigger] post.objs[k]).addr == pre.objs[k].addr
            &&& post.objs[k].size == pre.objs[k].size
            &&& post.objs[k].forwarding == pre.objs[k].forwarding
        } by {
            assert(post.objs@[k].addr == pre.objs@[k].addr);
        }
        assert forall|k: int|
            0 <= k < post.objs.len() && self.nursery.common.spec_in_range(
                (#[trigger] post.objs[k]).addr,
            ) && post.objs[k].forwarding.spec_is_forwarded() implies {
            let n2 = post.objs[k].forwarding.spec_forwarded_to();
            &&& post.spec_has(n2)
            &&& to.common.spec_in_range(n2)
            &&& post.spec_at(n2).size == post.objs[k].size
            &&& post.spec_at(n2).payload@ == post.objs[k].payload@
            &&& post.spec_at(n2).forwarding == ForwardingState::Unforwarded
        } by {
            let n2 = post.objs[k].forwarding.spec_forwarded_to();
            assert(pre.objs[k].forwarding.spec_is_forwarded());
            assert(pre.spec_has(n2));
            let m = pre.spec_index_of(n2);
            assert(post.objs[m].addr == n2);
            post.lemma_index_unique(n2, m);
        }
    }

    /// Process one edge during a nursery collection: load the reference,
    /// trace it (evacuating a nursery object), write the result back.
    /// After a successful step the slot holds a reference that points into
    /// neither the nursery nor the fromspace.
    pub fn process_edge_nursery(
        &mut self,
        heap: &mut ObjectTable,
        roots: &mut Vec<usize>,
        nodes: &mut Vec<usize>,
        slot: Slot,
    ) -> (r: Result<(), GcError>)
        requires
            old(self).wf(),
            old(heap).wf(),
            old(self).gc_inv(*old(heap)),
            old(self).nursery.from_space,
            space_empty(*old(heap), old(self).spec_fromspace()),
        ensures
            final(self).wf(),
            final(heap).wf(),
            final(self).gc_inv(*final(heap)),
            space_empty(*final(heap), old(self).spec_fromspace()),
            trace_plan_frame(*old(self), *final(self)),
            table_evolves_loose(*old(heap), *final(heap)),
            forall|k: int|
                old(heap).objs@.len() <= k < final(heap).objs@.len()
                    ==> final(self).spec_tospace().common.spec_in_range(
                    (#[trigger] final(heap).objs@[k]).addr,
                ),
            final(roots)@.len() == old(roots)@.len(),
            r is Ok ==> slot_points_clear(*final(self), *final(heap), final(roots)@, slot),
            r is Ok ==> match slot {
                Slot::Root { index } => {
                    &&& index < old(roots)@.len()
                    &&& final(roots)@ == old(roots)@.update(index as int, final(roots)@[index as int])
                    &&& forall|k: int|
                        0 <= k < old(heap).objs@.len() ==> (#[trigger] final(heap).objs@[k]).fields@
                            == old(heap).objs@[k].fields@
                },
                Slot::Field { object, field } => {
                    &&& final(roots)@ == old(roots)@
                    &&& old(heap).spec_has(object)
                    &&& forall|k: int|
                        0 <= k < old(heap).objs@.len() && k != old(heap).spec_index_of(object)
                            ==> (#[trigger] final(heap).objs@[k]).fields@
                            == old(heap).objs@[k].fields@
                    &&& final(heap).spec_at(object).fields@ == old(heap).spec_at(
                        object,
                    ).fields@.update(field as int, final(heap).spec_at(object).fields@[field as int])
                },
            },
            r is Ok && slot is Root ==> root_successor_ok(
                *old(heap),
                old(roots)@[slot->Root_index as int],
                *final(heap),
                final(roots)@[slot->Root_index as int],
            ),
            r is Err ==> final(roots)@ == old(roots)@ && final(heap).objs@ == old(heap).objs@
                && *final(self) == *old(self),
            r is Err ==> r->Err_0 == GcError::OutOfMemory || r->Err_0
                == GcError::InvalidReference,
            r is Err && r->Err_0 == GcError::OutOfMemory ==> unfit_survivor(
                *final(self),
                *final(heap),
            ),
            // failure has a cause: the slot does not exist, or the
            // reference it holds is invalid, or the tospace cannot take the
            // copy
            r is Err ==> !slot_valid(*old(heap), old(roots)@, slot) || {
                let v = slot_value(*old(heap), old(roots)@, slot);
                ||| (r->Err_0 == GcError::InvalidReference && (old(
                    self,
                ).spec_fromspace().spec_in_space(v) || (old(self).nursery.spec_in_space(v) && !old(
                    heap,
                ).spec_has(v))))
                ||| (r->Err_0 == GcError::OutOfMemory && old(self).nursery.spec_in_space(v) && old(
                    heap,
                ).spec_has(v) && no_room_for(*old(self), old(heap).spec_at(v).size))
            },
    {
        let loaded = load_slot(roots, heap, slot);
        let v: usize = match loaded {
            Ok(v) => v,
            Err(e) => {
                proof {
                    lemma_evolves_to_loose(*old(heap), *heap);
                }
                return Err(e);
            },
        };
        let traced = self.trace_object_nursery(heap, nodes, ObjectReference(v));
        let n: ObjectReference = match traced {
            Ok(n) => n,
            Err(e) => {
                proof {
                    lemma_evolves_to_loose(*old(heap), *heap);
                    if e == GcError::OutOfMemory {
                        let k = heap.spec_index_of(v);
                        assert(0 <= k < heap.objs@.len() && heap.objs@[k].addr == v);
                    }
                }
                return Err(e);
            },
        };
        let ghost mid_heap = *heap;
        let ghost mid_plan = *self;
        let stored = store_slot(roots, heap, slot, n.0);
        proof {
            self.lemma_pointwise_reestablish(mid_heap, *heap);
            lemma_evolves_to_loose(*old(heap), mid_heap);
            lemma_loose_trans(*old(heap), mid_heap, *heap);
        }
        match stored {
            Ok(u) => {
                proof {
                    if slot is Field {
                        let o = slot->Field_object;
                        heap.lemma_index_unique(o, mid_heap.spec_index_of(o));
                        lemma_evolves_preserves_lookup(*old(heap), mid_heap, o);
                        assert forall|k: int|
                            0 <= k < old(heap).objs@.len() && k != old(heap).spec_index_of(o)
                                implies (#[trigger] heap.objs@[k]).fields@
                                == old(heap).objs@[k].fields@ by {
                            assert(mid_heap.objs@[k].fields@ == old(heap).objs@[k].fields@);
                        }
                    } else {
                        assert forall|k: int|
                            0 <= k < old(heap).objs@.len() implies (
                        #[trigger] heap.objs@[k]).fields@ == old(heap).objs@[k].fields@ by {
                            assert(mid_heap.objs@[k].fields@ == old(heap).objs@[k].fields@);
                        }
                        if v != 0 && old(heap).spec_has(v) {
                            lemma_evolves_preserves_lookup(*old(heap), mid_heap, v);
                        }
                    }
                }
                Ok(())
            },
            Err(e) => {
                // the slot was loaded, and the closure keeps every object
                // and every slot in place, so the write-back cannot miss
                proof {
                    if slot is Field {
                        let o = slot->Field_object;
                        lemma_loose_preserves_lookup(*old(heap), mid_heap, o);
                    }
                    assert(false);
                }
                Err(e)
            },
        }
    }

    /// Process one edge during a full-heap collection.  After a successful
    /// step the slot holds a reference that points into neither the nursery
    /// nor the fromspace.
    pub fn process_edge_mature(
        &mut self,
        heap: &mut ObjectTable,
        roots: &mut Vec<usize>,
        nodes: &mut Vec<usize>,
        slot: Slot,
    ) -> (r: Result<(), GcError>)
        requires
            old(self).wf(),
            old(heap).wf(),
            old(self).gc_inv(*old(heap)),
            old(self).nursery.from_space,
            old(self).spec_fromspace().from_space,
        ensures
            final(self).wf(),
            final(heap).wf(),
            final(self).gc_inv(*final(heap)),
            trace_plan_frame(*old(self), *final(self)),
            table_evolves_loose(*old(heap), *final(heap)),
            forall|k: int|
                old(heap).objs@.len() <= k < final(heap).objs@.len()
                    ==> final(self).spec_tospace().common.spec_in_range(
                    (#[trigger] final(heap).objs@[k]).addr,
                ),
            final(roots)@.len() == old(roots)@.len(),
            r is Ok ==> slot_points_clear(*final(self), *final(heap), final(roots)@, slot),
            r is Ok ==> match slot {
                Slot::Root { index } => {
                    &&& index < old(roots)@.len()
                    &&& final(roots)@ == old(roots)@.update(index as int, final(roots)@[index as int])
                    &&& forall|k: int|
                        0 <= k < old(heap).objs@.len() ==> (#[trigger] final(heap).objs@[k]).fields@
                            == old(heap).objs@[k].fields@
                },
                Slot::Field { object, field } => {
                    &&& final(roots)@ == old(roots)@
                    &&& old(heap).spec_has(object)
                    &&& forall|k: int|
                        0 <= k < old(heap).objs@.len() && k != old(heap).spec_index_of(object)
                            ==> (#[trigger] final(heap).objs@[k]).fields@
                            == old(heap).objs@[k].fields@
                    &&& final(heap).spec_at(object).fields@ == old(heap).spec_at(
                        object,
                    ).fields@.update(field as int, final(heap).spec_at(object).fields@[field as int])
                },
            },
            r is Ok && slot is Root ==> root_successor_ok(
                *old(heap),
                old(roots)@[slot->Root_index as int],
                *final(heap),
                final(roots)@[slot->Root_index as int],
            ),
            r is Err ==> final(roots)@ == old(roots)@ && final(heap).objs@ == old(heap).objs@
                && *final(self) == *old(self),
            r is Err ==> r->Err_0 == GcError::OutOfMemory || r->Err_0
                == GcError::InvalidReference,
            r is Err && r->Err_0 == GcError::OutOfMemory ==> unfit_survivor(
                *final(self),
                *final(heap),
            ),
            // failure has a cause: the slot does not exist, or the
            // reference it holds is invalid, or the tospace cannot take the
            // copy
            r is Err ==> !slot_valid(*old(heap), old(roots)@, slot) || {
                let v = slot_value(*old(heap), old(roots)@, slot);
                ||| (r->Err_0 == GcError::InvalidReference && mature_invalid_target(
                    *old(self),
                    *old(heap),
                    v,
                ))
                ||| (r->Err_0 == GcError::OutOfMemory && (old(self).nursery.spec_in_space(v) || old(
                    self,
                ).spec_fromspace().spec_in_space(v)) && old(heap).spec_has(v) && no_room_for(
                    *old(self),
                    old(heap).spec_at(v).size,
                ))
            },
    {
        let loaded = load_slot(roots, heap, slot);
        let v: usize = match loaded {
            Ok(v) => v,
            Err(e) => {
                proof {
                    lemma_evolves_to_loose(*old(heap), *heap);
                }
                return Err(e);
            },
        };
        let traced = self.trace_object_mature(heap, nodes, ObjectReference(v));
        let n: ObjectReference = match traced {
            Ok(n) => n,
            Err(e) => {
                proof {
                    lemma_evolves_to_loose(*old(heap), *heap);
                    if e == GcError::OutOfMemory {
                        let k = heap.spec_index_of(v);
                        assert(0 <= k < heap.objs@.len() && heap.objs@[k].addr == v);
                    }
                }
                return Err(e);
            },
        };
        let ghost mid_heap = *heap;
        let stored = store_slot(roots, heap, slot, n.0);
        proof {
            if space_empty(mid_heap, self.spec_fromspace()) {
            }
            self.lemma_pointwise_reestablish_full(mid_heap, *heap);
            lemma_evolves_to_loose(*old(heap), mid_heap);
            lemma_loose_trans(*old(heap), mid_heap, *heap);
        }
        match stored {
            Ok(u) => {
                proof {
                    if slot is Field {
                        let o = slot->Field_object;
                        heap.lemma_index_unique(o, mid_heap.spec_index_of(o));
                        lemma_evolves_preserves_lookup(*old(heap), mid_heap, o);
                        assert forall|k: int|
                            0 <= k < old(heap).objs@.len() && k != old(heap).spec_index_of(o)
                                implies (#[trigger] heap.objs@[k]).fields@
                                == old(heap).objs@[k].fields@ by {
                            assert(mid_heap.objs@[k].fields@ == old(heap).objs@[k].fields@);
                        }
                    } else {
                        assert forall|k: int|
                            0 <= k < old(heap).objs@.len() implies (
                        #[trigger] heap.objs@[k]).fields@ == old(heap).objs@[k].fields@ by {
                            assert(mid_heap.objs@[k].fields@ == old(heap).objs@[k].fields@);
                        }
                        if v != 0 && old(heap).spec_has(v) {
                            lemma_evolves_preserves_lookup(*old(heap), mid_heap, v);
                        }
                    }
                }
                Ok(())
            },
            Err(e) => {
                // the slot was loaded, and the closure keeps every object
                // and every slot in place, so the write-back cannot miss
                proof {
                    if slot is Field {
                        let o = slot->Field_object;
                        lemma_loose_preserves_lookup(*old(heap), mid_heap, o);
                    }
                    assert(false);
                }
                Err(e)
            },
        }
    }

    /// As `lemma_pointwise_reestablish`, without the empty-fromspace part.
    pub proof fn lemma_pointwise_reestablish_full(&self, pre: ObjectTable, post: ObjectTable)
        requires
            self.wf(),
            pre.wf(),
            post.wf(),
            self.gc_inv(pre),
            post.objs@.len() == pre.objs@.len(),
            forall|k: int|
                0 <= k < pre.objs@.len() ==> {
                    let a = #[trigger] post.objs@[k];
                    let b = #[trigger] pre.objs@[k];
                    &&& a.addr == b.addr
                    &&& a.size == b.size
                    &&& a.payload@ == b.payload@
                    &&& a.forwarding == b.forwarding
                },
        ensures
            self.gc_inv(post),
    {
        let to = self.spec_tospace();
        assert forall|k: int| 0 <= k < post.objs.len() implies {
            &&& (#[trigger] post.objs[k]).addr == pre.objs[k].addr
            &&& post.objs[k].size == pre.objs[k].size
            &&& post.objs[k].forwarding == pre.objs[k].forwarding
        } by {
            assert(post.objs@[k].addr == pre.objs@[k].addr);
        }
        assert forall|k: int|
            0 <= k < post.objs.len() && (self.nursery.common.spec_in_range(
                (#[trigger] post.objs[k]).addr,
            ) || self.spec_fromspace().common.spec_in_range(post.objs[k].addr))
            && post.objs[k].forwarding.spec_is_forwarded() implies {
            let n2 = post.objs[k].forwarding.spec_forwarded_to();
            &&& post.spec_has(n2)
            &&& to.common.spec_in_range(n2)
            &&& post.spec_at(n2).size == post.objs[k].size
            &&& post.spec_at(n2).payload@ == post.objs[k].payload@
            &&& post.spec_at(n2).forwarding == ForwardingState::Unforwarded
        } by {
            let n2 = post.objs[k].forwarding.spec_forwarded_to();
            assert(pre.objs[k].forwarding.spec_is_forwarded());
            assert(pre.spec_has(n2));
            let m = pre.spec_index_of(n2);
            assert(post.objs[m].addr == n2);
            post.lemma_index_unique(n2, m);
        }
    }
}

/// After a successful edge step, the slot exists and the reference it holds
/// is null or points into neither the nursery nor the half under
/// collection.
pub open spec fn slot_points_clear(
    plan: GenCopy,
    heap: ObjectTable,
    roots: Seq<usize>,
    slot: Slot,
) -> bool {
    match slot {
        Slot::Root { index } => index < roots.len() && ref_clear(plan, roots[index as int]),
        Slot::Field { object, field } => heap.spec_has(object) && field < heap.spec_at(
            object,
        ).fields@.len() && ref_clear(plan, heap.spec_at(object).fields@[field as int]),
    }
}

/// A written-back reference is null or outside both collected halves.
pub open spec fn ref_clear(plan: GenCopy, v: usize) -> bool {
    v == 0 || (!plan.nursery.spec_in_space(v) && !plan.spec_fromspace().spec_in_space(v))
}

/// Does the slot exist: a root index inside the table, or a field index
/// inside an existing object's slots?
pub open spec fn slot_valid(heap: ObjectTable, roots: Seq<usize>, slot: Slot) -> bool {
    match slot {
        Slot::Root { index } => index < roots.len(),
        Slot::Field { object, field } => heap.spec_has(object) && field < heap.spec_at(
            object,
        ).fields@.len(),
    }
}

/// The reference a valid slot holds.
pub open spec fn slot_value(heap: ObjectTable, roots: Seq<usize>, slot: Slot) -> usize {
    match slot {
        Slot::Root { index } => roots[index as int],
        Slot::Field { object, field } => heap.spec_at(object).fields@[field as int],
    }
}

/// The tospace cannot take one more object of `bytes` bytes at the given
/// alignment request.
pub open spec fn no_room_for_aligned(plan: GenCopy, bytes: usize, align: usize, offset: usize) -> bool {
    let to = plan.spec_tospace().common;
    crate::layout::spec_align_up((to.start + to.cursor) as usize, align, offset) + bytes > to.start
        + to.extent
}

/// The tospace cannot take one more object of `size` bytes: the aligned
/// allocation point plus the size overruns the space.
pub open spec fn no_room_for(plan: GenCopy, size: usize) -> bool {
    let to = plan.spec_tospace().common;
    crate::layout::spec_align_up(
        (to.start + to.cursor) as usize,
        crate::layout::MIN_OBJECT_ALIGN,
        0,
    ) + size > to.start + to.extent
}

/// A collection failed for want of room: some object of a collected half
/// sits unforwarded in the heap and the tospace cannot take its copy.
pub open spec fn unfit_survivor(plan: GenCopy, heap: ObjectTable) -> bool {
    exists|k: int|
        0 <= k < heap.objs@.len() && {
            let o = #[trigger] heap.objs@[k];
            &&& (plan.nursery.spec_in_space(o.addr) || plan.spec_fromspace().spec_in_space(o.addr))
            &&& o.forwarding == crate::forwarding_word::ForwardingState::Unforwarded
            &&& no_room_for(plan, o.size)
        }
}

/// A reference the full-heap trace must refuse: non-null, not in the
/// tospace, and either inside a known space without a table entry or inside
/// no space at all.
pub open spec fn mature_invalid_target(plan: GenCopy, heap: ObjectTable, a: usize) -> bool {
    &&& a != 0
    &&& !plan.spec_tospace().spec_in_space(a)
    &&& ((plan.nursery.spec_in_space(a) || plan.spec_fromspace().spec_in_space(a)
        || plan.immortal.spec_in_space(a) || plan.los.spec_in_space(a)
        || plan.vm_space.spec_in_space(a)) ==> !heap.spec_has(a))
}

/// The per-collection copy context of a worker: the seed of each copy
/// allocation.  In this model the destination bump pointer lives in the
/// tospace itself, so the context only carries the worker's thread handle;
/// `alloc_copy` bumps the tospace and `post_copy` resets the copy's
/// forwarding bits, exactly as the copying trace does internally.
pub struct GenCopyCopyContext {
    pub tls: usize,
}

impl GenCopyCopyContext {
    pub fn new(tls: usize) -> (r: GenCopyCopyContext)
        ensures
            r.tls == tls,
    {
        GenCopyCopyContext { tls }
    }

    /// Bind the copy allocator to the tospace for the coming collection.
    /// The binding is implicit here: allocation always targets the current
    /// tospace.
    pub fn prepare(&mut self) {
    }

    /// Intentionally empty, as in the release phase of the running system:
    /// the allocator is rebound at the next prepare.
    pub fn release(&mut self) {
    }

    /// Allocate room for a copy in the tospace: the result is the aligned
    /// bump point, fresh above everything placed before it, and the copy's
    /// bytes fit below the advanced cursor.
    pub fn alloc_copy(&mut self, plan: &mut GenCopy, bytes: usize, align: usize, offset: usize)
        -> (r: Option<usize>)
        requires
            old(plan).wf(),
            crate::layout::spec_align_legal(align),
            offset < crate::layout::BYTES_IN_PAGE,
            1 <= bytes,
        ensures
            final(plan).wf(),
            trace_plan_frame(*old(plan), *final(plan)),
            match r {
                Some(a) => {
                    let to = old(plan).spec_tospace().common;
                    &&& a == crate::layout::spec_align_up(
                        (to.start + to.cursor) as usize,
                        align,
                        offset,
                    )
                    &&& (a + offset) % (align as int) == 0
                    &&& to.start + to.cursor <= a
                    &&& a + bytes <= to.start + to.extent
                    &&& a + bytes <= final(plan).spec_tospace().common.start
                        + final(plan).spec_tospace().common.cursor
                    &&& final(plan).spec_tospace().spec_in_space(a)
                },
                None => {
                    &&& *final(plan) == *old(plan)
                    &&& no_room_for_aligned(*old(plan), bytes, align, offset)
                },
            },
    {
        let r = if plan.hi {
            plan.copyspace1.common.bump_alloc(bytes, align, offset)
        } else {
            plan.copyspace0.common.bump_alloc(bytes, align, offset)
        };
        r
    }

    /// Reset the forwarding bits a fresh copy inherited from its source.
    /// Nothing else changes: the copy keeps its payload and every other
    /// object keeps all its metadata.
    pub fn post_copy(&mut self, heap: &mut ObjectTable, obj: ObjectReference)
        requires
            old(heap).wf(),
            old(heap).spec_has(obj.0),
            !old(heap).spec_at(obj.0).forwarding.spec_is_forwarded(),
        ensures
            final(heap).wf(),
            final(heap).spec_has(obj.0),
            final(heap).spec_at(obj.0).forwarding == ForwardingState::Unforwarded,
            final(heap).objs@.len() == old(heap).objs@.len(),
            forall|k: int|
                0 <= k < old(heap).objs@.len() ==> {
                    let a = #[trigger] final(heap).objs@[k];
                    let b = #[trigger] old(heap).objs@[k];
                    &&& a.addr == b.addr
                    &&& a.size == b.size
                    &&& a.payload@ == b.payload@
                    &&& a.fields@ == b.fields@
                    &&& a.mark == b.mark
                },
            forall|k: int|
                0 <= k < old(heap).objs@.len() && k != old(heap).spec_index_of(obj.0) ==> (
                #[trigger] final(heap).objs@[k]).forwarding == old(heap).objs@[k].forwarding,
    {
        let found = heap.find_unique(obj.value());
        match found {
            Some(i) => {
                let mut word = heap.objs[i].forwarding;
                crate::forwarding_word::clear_forwarding_bits(&mut word);
                heap.objs[i].forwarding = word;
                proof {
                    heap.lemma_index_unique(obj.0, i as int);
                }
            },
            None => {
                proof {
                    assert(false);
                }
            },
        }
    }
}

/// A packet of edges to process with the nursery trace.
pub struct GenCopyNurseryProcessEdges {
    pub edges: Vec<Slot>,
    pub roots: bool,
}

impl GenCopyNurseryProcessEdges {
    pub fn new(edges: Vec<Slot>, roots: bool) -> (r: GenCopyNurseryProcessEdges)
        ensures
            r.edges@ == edges@,
            r.roots == roots,
    {
        GenCopyNurseryProcessEdges { edges, roots }
    }

    /// Process every edge of the packet, collecting the newly copied
    /// objects for scanning.
    pub fn do_work(
        &self,
        plan: &mut GenCopy,
        heap: &mut ObjectTable,
        roots_table: &mut Vec<usize>,
    ) -> (r: Result<Vec<usize>, GcError>)
        requires
            old(plan).wf(),
            old(heap).wf(),
            old(plan).gc_inv(*old(heap)),
            old(plan).nursery.from_space,
            space_empty(*old(heap), old(plan).spec_fromspace()),
        ensures
            final(plan).wf(),
            final(heap).wf(),
            final(plan).gc_inv(*final(heap)),
            space_empty(*final(heap), old(plan).spec_fromspace()),
            trace_plan_frame(*old(plan), *final(plan)),
            table_evolves_loose(*old(heap), *final(heap)),
            forall|k: int|
                old(heap).objs@.len() <= k < final(heap).objs@.len()
                    ==> final(plan).spec_tospace().common.spec_in_range(
                    (#[trigger] final(heap).objs@[k]).addr,
                ),
            final(roots_table)@.len() == old(roots_table)@.len(),
            r is Ok ==> forall|j: int|
                0 <= j < self.edges@.len() ==> slot_points_clear(
                    *final(plan),
                    *final(heap),
                    final(roots_table)@,
                    #[trigger] self.edges@[j],
                ),
            forall|ri: int|
                0 <= ri < old(roots_table)@.len() ==> final(roots_table)@[ri] == old(
                    roots_table,
                )@[ri] || ref_clear(*final(plan), final(roots_table)@[ri]),
            forall|ri: int|
                0 <= ri < old(roots_table)@.len() ==> root_successor_ok(
                    *old(heap),
                    old(roots_table)@[ri],
                    *final(heap),
                    final(roots_table)@[ri],
                ),
            r is Err ==> r->Err_0 == GcError::OutOfMemory || r->Err_0
                == GcError::InvalidReference,
            r is Err && r->Err_0 == GcError::OutOfMemory ==> unfit_survivor(
                *final(plan),
                *final(heap),
            ),
    {
        let mut nodes: Vec<usize> = Vec::new();
        let n = self.edges.len();
        let mut i: usize = 0;
        while i < n
            invariant
                n == self.edges@.len(),
                i <= n,
                plan.wf(),
                heap.wf(),
                plan.gc_inv(*heap),
                plan.nursery.from_space,
                old(plan).spec_fromspace() == plan.spec_fromspace(),
                space_empty(*heap, plan.spec_fromspace()),
                trace_plan_frame(*old(plan), *plan),
                table_evolves_loose(*old(heap), *heap),
                forall|k: int|
                    old(heap).objs@.len() <= k < heap.objs@.len()
                        ==> plan.spec_tospace().common.spec_in_range(
                        (#[trigger] heap.objs@[k]).addr,
                    ),
                roots_table@.len() == old(roots_table)@.len(),
                forall|k: int|
                    0 <= k < i ==> slot_points_clear(
                        *plan,
                        *heap,
                        roots_table@,
                        #[trigger] self.edges@[k],
                    ),
                forall|ri: int|
                    0 <= ri < old(roots_table)@.len() ==> roots_table@[ri] == old(
                        roots_table,
                    )@[ri] || ref_clear(*plan, roots_table@[ri]),
                forall|ri: int|
                    0 <= ri < old(roots_table)@.len() ==> root_successor_ok(
                        *old(heap),
                        old(roots_table)@[ri],
                        *heap,
                        roots_table@[ri],
                    ),
            decreases n - i,
        {
            let ghost pre_heap = *heap;
            let ghost pre_roots = roots_table@;
            let ghost pre_plan = *plan;
            let r = plan.process_edge_nursery(heap, roots_table, &mut nodes, self.edges[i]);
            proof {
                lemma_loose_trans(*old(heap), pre_heap, *heap);
                let ghost s_cur = self.edges@[i as int];
                // prior clear root slots stay clear: the plan's collected
                // ranges have not moved, and only the processed slot was
                // written
                assert forall|ri: int|
                    0 <= ri < old(roots_table)@.len() implies roots_table@[ri] == old(
                    roots_table,
                )@[ri] || ref_clear(*plan, roots_table@[ri]) by {
                    if roots_table@[ri] == pre_roots[ri] {
                        if pre_roots[ri] != old(roots_table)@[ri] {
                            assert(ref_clear(pre_plan, pre_roots[ri]));
                        }
                    } else {
                        assert(r is Ok && s_cur is Root && s_cur->Root_index == ri);
                        assert(slot_points_clear(*plan, *heap, roots_table@, s_cur));
                    }
                }
                assert forall|ri: int|
                    0 <= ri < old(roots_table)@.len() implies root_successor_ok(
                    *old(heap),
                    old(roots_table)@[ri],
                    *heap,
                    roots_table@[ri],
                ) by {
                    if roots_table@[ri] == pre_roots[ri] {
                        lemma_successor_loose(
                            *old(heap),
                            old(roots_table)@[ri],
                            pre_heap,
                            *heap,
                            pre_roots[ri],
                        );
                    } else {
                        assert(r is Ok && s_cur is Root && s_cur->Root_index == ri);
                        lemma_successor_trans(
                            *old(heap),
                            old(roots_table)@[ri],
                            pre_heap,
                            pre_roots[ri],
                            *heap,
                            roots_table@[ri],
                        );
                    }
                }
                if r is Ok {
                    assert forall|k: int|
                        0 <= k <= i implies slot_points_clear(
                        *plan,
                        *heap,
                        roots_table@,
                        #[trigger] self.edges@[k],
                    ) by {
                        if k == i {
                        } else {
                            let s_prev = self.edges@[k];
                            assert(slot_points_clear(pre_plan, pre_heap, pre_roots, s_prev));
                            match s_prev {
                                Slot::Root { index: j } => {
                                    if roots_table@[j as int] != pre_roots[j as int] {
                                        assert(s_cur is Root && s_cur->Root_index == j);
                                    } else {
                                        assert(ref_clear(pre_plan, pre_roots[j as int]));
                                    }
                                },
                                Slot::Field { object: o, field: f } => {
                                    lemma_loose_preserves_lookup(pre_heap, *heap, o);
                                    let oi = pre_heap.spec_index_of(o);
                                    assert(heap.objs@[oi].fields@.len()
                                        == pre_heap.objs@[oi].fields@.len());
                                    if heap.spec_at(o).fields@[f as int] == pre_heap.spec_at(
                                        o,
                                    ).fields@[f as int] {
                                        assert(ref_clear(
                                            pre_plan,
                                            pre_heap.spec_at(o).fields@[f as int],
                                        ));
                                    } else {
                                        assert(s_cur is Field);
                                        let o2 = s_cur->Field_object;
                                        let f2 = s_cur->Field_field;
                                        let o2i = pre_heap.spec_index_of(o2);
                                        if oi != o2i {
                                            assert(heap.objs@[oi].fields@
                                                == pre_heap.objs@[oi].fields@);
                                        }
                                        assert(oi == o2i);
                                        assert(o2 == o);
                                        assert(f2 == f);
                                        assert(slot_points_clear(
                                            *plan,
                                            *heap,
                                            roots_table@,
                                            s_cur,
                                        ));
                                    }
                                },
                            }
                        }
                    }
                }
            }
            proof {
                assert forall|k: int|
                    old(heap).objs@.len() <= k < heap.objs@.len()
                        implies plan.spec_tospace().common.spec_in_range(
                        (#[trigger] heap.objs@[k]).addr,
                    ) by {
                    if k < pre_heap.objs@.len() {
                        assert(heap.objs@[k].addr == pre_heap.objs@[k].addr);
                        assert(pre_plan.spec_tospace().common.spec_in_range(
                            pre_heap.objs@[k].addr,
                        ));
                    }
                }
            }

            match r {
                Err(e) => {
                    return Err(e);
                },
                Ok(u) => {},
            }
            i = i + 1;
        }
        Ok(nodes)
    }
}

/// A packet of edges to process with the full-heap trace.
pub struct GenCopyMatureProcessEdges {
    pub edges: Vec<Slot>,
    pub roots: bool,
}

impl GenCopyMatureProcessEdges {
    pub fn new(edges: Vec<Slot>, roots: bool) -> (r: GenCopyMatureProcessEdges)
        ensures
            r.edges@ == edges@,
            r.roots == roots,
    {
        GenCopyMatureProcessEdges { edges, roots }
    }

    /// Process every edge of the packet, collecting the newly copied
    /// objects for scanning.
    pub fn do_work(
        &self,
        plan: &mut GenCopy,
        heap: &mut ObjectTable,
        roots_table: &mut Vec<usize>,
    ) -> (r: Result<Vec<usize>, GcError>)
        requires
            old(plan).wf(),
            old(heap).wf(),
            old(plan).gc_inv(*old(heap)),
            old(plan).nursery.from_space,
            old(plan).spec_fromspace().from_space,
        ensures
            final(plan).wf(),
            final(heap).wf(),
            final(plan).gc_inv(*final(heap)),
            trace_plan_frame(*old(plan), *final(plan)),
            table_evolves_loose(*old(heap), *final(heap)),
            forall|k: int|
                old(heap).objs@.len() <= k < final(heap).objs@.len()
                    ==> final(plan).spec_tospace().common.spec_in_range(
                    (#[trigger] final(heap).objs@[k]).addr,
                ),
            final(roots_table)@.len() == old(roots_table)@.len(),
            final(plan).nursery.from_space,
            final(plan).spec_fromspace().from_space,
            r is Ok ==> forall|j: int|
                0 <= j < self.edges@.len() ==> slot_points_clear(
                    *final(plan),
                    *final(heap),
                    final(roots_table)@,
                    #[trigger] self.edges@[j],
                ),
            forall|ri: int|
                0 <= ri < old(roots_table)@.len() ==> final(roots_table)@[ri] == old(
                    roots_table,
                )@[ri] || ref_clear(*final(plan), final(roots_table)@[ri]),
            forall|ri: int|
                0 <= ri < old(roots_table)@.len() ==> root_successor_ok(
                    *old(heap),
                    old(roots_table)@[ri],
                    *final(heap),
                    final(roots_table)@[ri],
                ),
            r is Err ==> r->Err_0 == GcError::OutOfMemory || r->Err_0
                == GcError::InvalidReference,
            r is Err && r->Err_0 == GcError::OutOfMemory ==> unfit_survivor(
                *final(plan),
                *final(heap),
            ),
    {
        let mut nodes: Vec<usize> = Vec::new();
        let n = self.edges.len();
        let mut i: usize = 0;
        while i < n
            invariant
                n == self.edges@.len(),
                i <= n,
                plan.wf(),
                heap.wf(),
                plan.gc_inv(*heap),
                plan.nursery.from_space,
                plan.spec_fromspace().from_space,
                old(plan).spec_fromspace() == plan.spec_fromspace(),
                trace_plan_frame(*old(plan), *plan),
                table_evolves_loose(*old(heap), *heap),
                forall|k: int|
                    old(heap).objs@.len() <= k < heap.objs@.len()
                        ==> plan.spec_tospace().common.spec_in_range(
                        (#[trigger] heap.objs@[k]).addr,
                    ),
                roots_table@.len() == old(roots_table)@.len(),
                forall|k: int|
                    0 <= k < i ==> slot_points_clear(
                        *plan,
                        *heap,
                        roots_table@,
                        #[trigger] self.edges@[k],
                    ),
                forall|ri: int|
                    0 <= ri < old(roots_table)@.len() ==> roots_table@[ri] == old(
                        roots_table,
                    )@[ri] || ref_clear(*plan, roots_table@[ri]),
                forall|ri: int|
                    0 <= ri < old(roots_table)@.len() ==> root_successor_ok(
                        *old(heap),
                        old(roots_table)@[ri],
                        *heap,
                        roots_table@[ri],
                    ),
            decreases n - i,
        {
            let ghost pre_heap = *heap;
            let ghost pre_roots = roots_table@;
            let ghost pre_plan = *plan;
            let r = plan.process_edge_mature(heap, roots_table, &mut nodes, self.edges[i]);
            proof {
                lemma_loose_trans(*old(heap), pre_heap, *heap);
                let ghost s_cur = self.edges@[i as int];
                // prior clear root slots stay clear: the plan's collected
                // ranges have not moved, and only the processed slot was
                // written
                assert forall|ri: int|
                    0 <= ri < old(roots_table)@.len() implies roots_table@[ri] == old(
                    roots_table,
                )@[ri] || ref_clear(*plan, roots_table@[ri]) by {
                    if roots_table@[ri] == pre_roots[ri] {
                        if pre_roots[ri] != old(roots_table)@[ri] {
                            assert(ref_clear(pre_plan, pre_roots[ri]));
                        }
                    } else {
                        assert(r is Ok && s_cur is Root && s_cur->Root_index == ri);
                        assert(slot_points_clear(*plan, *heap, roots_table@, s_cur));
                    }
                }
                assert forall|ri: int|
                    0 <= ri < old(roots_table)@.len() implies root_successor_ok(
                    *old(heap),
                    old(roots_table)@[ri],
                    *heap,
                    roots_table@[ri],
                ) by {
                    if roots_table@[ri] == pre_roots[ri] {
                        lemma_successor_loose(
                            *old(heap),
                            old(roots_table)@[ri],
                            pre_heap,
                            *heap,
                            pre_roots[ri],
                        );
                    } else {
                        assert(r is Ok && s_cur is Root && s_cur->Root_index == ri);
                        lemma_successor_trans(
                            *old(heap),
                            old(roots_table)@[ri],
                            pre_heap,
                            pre_roots[ri],
                            *heap,
                            roots_table@[ri],
                        );
                    }
                }
                if r is Ok {
                    assert forall|k: int|
                        0 <= k <= i implies slot_points_clear(
                        *plan,
                        *heap,
                        roots_table@,
                        #[trigger] self.edges@[k],
                    ) by {
                        if k == i {
                        } else {
                            let s_prev = self.edges@[k];
                            assert(slot_points_clear(pre_plan, pre_heap, pre_roots, s_prev));
                            match s_prev {
                                Slot::Root { index: j } => {
                                    if roots_table@[j as int] != pre_roots[j as int] {
                                        assert(s_cur is Root && s_cur->Root_index == j);
                                    } else {
                                        assert(ref_clear(pre_plan, pre_roots[j as int]));
                                    }
                                },
                                Slot::Field { object: o, field: f } => {
                                    lemma_loose_preserves_lookup(pre_heap, *heap, o);
                                    let oi = pre_heap.spec_index_of(o);
                                    assert(heap.objs@[oi].fields@.len()
                                        == pre_heap.objs@[oi].fields@.len());
                                    if heap.spec_at(o).fields@[f as int] == pre_heap.spec_at(
                                        o,
                                    ).fields@[f as int] {
                                        assert(ref_clear(
                                            pre_plan,
                                            pre_heap.spec_at(o).fields@[f as int],
                                        ));
                                    } else {
                                        assert(s_cur is Field);
                                        let o2 = s_cur->Field_object;
                                        let f2 = s_cur->Field_field;
                                        let o2i = pre_heap.spec_index_of(o2);
                                        if oi != o2i {
                                            assert(heap.objs@[oi].fields@
                                                == pre_heap.objs@[oi].fields@);
                                        }
                                        assert(oi == o2i);
                                        assert(o2 == o);
                                        assert(f2 == f);
                                        assert(slot_points_clear(
                                            *plan,
                                            *heap,
                                            roots_table@,
                                            s_cur,
                                        ));
                                    }
                                },
                            }
                        }
                    }
                }
            }
            proof {
                assert forall|k: int|
                    old(heap).objs@.len() <= k < heap.objs@.len()
                        implies plan.spec_tospace().common.spec_in_range(
                        (#[trigger] heap.objs@[k]).addr,
                    ) by {
                    if k < pre_heap.objs@.len() {
                        assert(heap.objs@[k].addr == pre_heap.objs@[k].addr);
                        assert(pre_plan.spec_tospace().common.spec_in_range(
                            pre_heap.objs@[k].addr,
                        ));
                    }
                }
            }

            match r {
                Err(e) => {
                    return Err(e);
                },
                Ok(u) => {},
            }
            i = i + 1;
        }
        Ok(nodes)
    }
}

/// A packet of freshly copied objects whose fields must be turned into
/// further edges.
pub struct ScanObjectsPacket {
    pub objects: Vec<usize>,
}

impl ScanObjectsPacket {
    pub fn new(objects: Vec<usize>) -> (r: ScanObjectsPacket)
        ensures
            r.objects@ == objects@,
    {
        ScanObjectsPacket { objects }
    }

    /// Emit one `Field` edge per reference slot of each object.
    pub fn do_work(&self, heap: &ObjectTable) -> (r: Result<Vec<Slot>, GcError>)
        requires
            heap.wf(),
        ensures
            r is Err ==> r->Err_0 == GcError::InvalidReference,
    {
        let mut out: Vec<Slot> = Vec::new();
        let n = self.objects.len();
        let mut i: usize = 0;
        while i < n
            invariant
                n == self.objects@.len(),
                i <= n,
                heap.wf(),
            decreases n - i,
        {
            let addr = self.objects[i];
            let found = heap.find_unique(addr);
            match found {
                Some(oi) => {
                    let nf = heap.objs[oi].fields.len();
                    let mut j: usize = 0;
                    while j < nf
                        invariant
                            j <= nf,
                        decreases nf - j,
                    {
                        out.push(Slot::Field { object: addr, field: j });
                        j = j + 1;
                    }
                },
                None => {
                    return Err(GcError::InvalidReference);
                },
            }
            i = i + 1;
        }
        Ok(out)
    }
}

/// The write barrier's flushed buffers: objects and edges recorded by
/// mutators since the last collection.  During a nursery collection they
/// re-seed the closure; a full-heap trace needs no remembered set.
pub struct GenCopyProcessModBuf {
    pub modified_nodes: Vec<usize>,
    pub modified_edges: Vec<Slot>,
}

impl GenCopyProcessModBuf {
    /// Turn the buffers into closure work.  In a nursery collection the
    /// recorded objects are rescanned and the recorded edges replayed as
    /// root-strength edges; a full-heap trace needs neither, so nothing
    /// comes back.
    pub fn do_work(self, in_nursery_gc: bool) -> (r: (
        Option<ScanObjectsPacket>,
        Option<GenCopyNurseryProcessEdges>,
    ))
        ensures
            !in_nursery_gc ==> r.0 is None && r.1 is None,
            in_nursery_gc && self.modified_nodes@.len() > 0 ==> r.0 is Some
                && r.0->Some_0.objects@ == self.modified_nodes@,
            in_nursery_gc && self.modified_edges@.len() > 0 ==> r.1 is Some
                && r.1->Some_0.edges@ == self.modified_edges@ && r.1->Some_0.roots,
    {
        if in_nursery_gc {
            let scan = if self.modified_nodes.len() > 0 {
                Some(ScanObjectsPacket::new(self.modified_nodes))
            } else {
                None
            };
            let edges = if self.modified_edges.len() > 0 {
                Some(GenCopyNurseryProcessEdges::new(self.modified_edges, true))
            } else {
                None
            };
            (scan, edges)
        } else {
            (None, None)
        }
    }
}

/// A validation-only packet: it checks edges and writes nothing back.
pub struct SanityGCProcessEdges {
    pub edges: Vec<Slot>,
    pub roots: bool,
}

impl SanityGCProcessEdges {
    pub fn new(edges: Vec<Slot>, roots: bool) -> (r: SanityGCProcessEdges)
        ensures
            r.edges@ == edges@,
            r.roots == roots,
    {
        SanityGCProcessEdges { edges, roots }
    }

    /// Check one edge: the reference it holds must point into neither the
    /// nursery nor the fromspace.  Nothing is written back.
    pub fn process_edge(
        &self,
        plan: &GenCopy,
        heap: &ObjectTable,
        roots_table: &Vec<usize>,
        slot: Slot,
    ) -> (r: Result<(), GcError>)
        requires
            heap.wf(),
        ensures
            (r is Ok) == slot_points_clear(*plan, *heap, roots_table@, slot),
            r is Err ==> r->Err_0 == GcError::InvalidReference,
    {
        let loaded = load_slot(roots_table, heap, slot);
        match loaded {
            Ok(v) => {
                if v == 0 {
                    return Ok(());
                }
                if plan.nursery.address_in_space(v) {
                    return Err(GcError::InvalidReference);
                }
                if plan.fromspace().address_in_space(v) {
                    return Err(GcError::InvalidReference);
                }
                Ok(())
            },
            Err(e) => Err(e),
        }
    }

    /// Check every edge of the packet.
    pub fn do_work(
        &self,
        plan: &GenCopy,
        heap: &ObjectTable,
        roots_table: &Vec<usize>,
    ) -> (r: Result<(), GcError>)
        requires
            heap.wf(),
        ensures
            r is Ok ==> forall|i: int|
                0 <= i < self.edges@.len() ==> slot_points_clear(
                    *plan,
                    *heap,
                    roots_table@,
                    #[trigger] self.edges@[i],
                ),
            r is Err ==> r->Err_0 == GcError::InvalidReference,
            // a failure names a culprit: some edge of the packet is not
            // clear of the collected halves
            r is Err ==> exists|i: int|
                0 <= i < self.edges@.len() && !slot_points_clear(
                    *plan,
                    *heap,
                    roots_table@,
                    #[trigger] self.edges@[i],
                ),
    {
        let n = self.edges.len();
        let mut i: usize = 0;
        while i < n
            invariant
                n == self.edges@.len(),
                i <= n,
                heap.wf(),
                forall|k: int|
                    0 <= k < i ==> slot_points_clear(
                        *plan,
                        *heap,
                        roots_table@,
                        #[trigger] self.edges@[k],
                    ),
            decreases n - i,
        {
            let r = self.process_edge(plan, heap, roots_table, self.edges[i]);
            if r.is_err() {
                proof {
                    assert(!slot_points_clear(*plan, *heap, roots_table@, self.edges@[i as int]));
                }
                return Err(GcError::InvalidReference);
            }
            i = i + 1;
        }
        Ok(())
    }
}

/// An address present before a loose evolution is present after it, at the
/// same index, with the same size and payload.
pub proof fn lemma_loose_preserves_lookup(pre: ObjectTable, post: ObjectTable, addr: usize)
    requires
        pre.wf(),
        post.wf(),
        table_evolves_loose(pre, post),
        pre.spec_has(addr),
    ensures
        post.spec_has(addr),
        post.spec_index_of(addr) == pre.spec_index_of(addr),
        post.spec_at(addr).addr == pre.spec_at(addr).addr,
        post.spec_at(addr).size == pre.spec_at(addr).size,
        post.spec_at(addr).payload@ == pre.spec_at(addr).payload@,
        crate::forwarding_word::fw_step_allowed(
            pre.spec_at(addr).forwarding,
            post.spec_at(addr).forwarding,
        ),
{
    let k = pre.spec_index_of(addr);
    assert(0 <= k < pre.objs.len() && pre.objs[k].addr == addr);
    assert(post.objs[k].addr == addr);
    post.lemma_index_unique(addr, k);
}

/// The successor relation of one root value across collection work: a null
/// reference stays null, and a reference to an object keeps (possibly at a
/// new address) an object with the same size and the same payload bytes.
pub open spec fn root_successor_ok(h0: ObjectTable, v0: usize, h: ObjectTable, v: usize) -> bool {
    &&& (v0 == 0 ==> v == 0)
    &&& (v0 != 0 && h0.spec_has(v0) ==> {
        &&& v != 0
        &&& h.spec_has(v)
        &&& h.spec_at(v).size == h0.spec_at(v0).size
        &&& h.spec_at(v).payload@ == h0.spec_at(v0).payload@
    })
}

/// The successor relation composes across successive steps.
pub proof fn lemma_successor_trans(
    h0: ObjectTable,
    v0: usize,
    h1: ObjectTable,
    v1: usize,
    h2: ObjectTable,
    v2: usize,
)
    requires
        root_successor_ok(h0, v0, h1, v1),
        root_successor_ok(h1, v1, h2, v2),
    ensures
        root_successor_ok(h0, v0, h2, v2),
{
}

/// The successor relation survives a loose table evolution of the right
/// end, the value unchanged.
pub proof fn lemma_successor_loose(h0: ObjectTable, v0: usize, pre: ObjectTable, post: ObjectTable, v: usize)
    requires
        root_successor_ok(h0, v0, pre, v),
        pre.wf(),
        post.wf(),
        table_evolves_loose(pre, post),
    ensures
        root_successor_ok(h0, v0, post, v),
{
    if v0 != 0 && h0.spec_has(v0) {
        lemma_loose_preserves_lookup(pre, post, v);
    }
}

} // verus!
