//! The work-packet scheduler: four ordered buckets, a controller state
//! machine and a pool of workers.
//!
//! A bucket is drained completely before the next opens; packets executed
//! from one bucket may enqueue further packets into their own or a later
//! bucket.  Workers take packets round-robin; each packet is executed
//! exactly once.

use crate::errors::GcError;
use crate::gc_works::{
    space_empty, table_evolves_loose, trace_plan_frame, GenCopyMatureProcessEdges,
    GenCopyNurseryProcessEdges, GenCopyProcessModBuf, SanityGCProcessEdges, ScanObjectsPacket,
};
use crate::gencopy::GenCopy;
use crate::object_model::ObjectTable;
use vstd::prelude::*;

verus! {

/// The controller's phase: it sleeps in `Idle`, opens the prepare bucket in
/// `Preparing`, drives the transitive closure in `Closure`, and reclaims in
/// `Releasing`.
#[derive(Clone, Copy, PartialEq, Eq, Structural, Debug)]
pub enum ControllerState {
    Idle,
    Preparing,
    Closure,
    Releasing,
}

/// A unit of collection work.
pub enum WorkPacket {
    NurseryEdges(GenCopyNurseryProcessEdges),
    MatureEdges(GenCopyMatureProcessEdges),
    Scan(ScanObjectsPacket),
    ModBuf(GenCopyProcessModBuf),
    Sanity(SanityGCProcessEdges),
}

/// An ordered queue of packets.
pub struct WorkBucket {
    pub packets: Vec<WorkPacket>,
}

impl WorkBucket {
    pub fn new() -> (r: WorkBucket)
        ensures
            r.packets@.len() == 0,
    {
        WorkBucket { packets: Vec::new() }
    }

    pub fn add(&mut self, packet: WorkPacket)
        ensures
            final(self).packets@.len() == old(self).packets@.len() + 1,
    {
        self.packets.push(packet);
    }

    pub fn is_drained(&self) -> (r: bool)
        ensures
            r == (self.packets@.len() == 0),
    {
        self.packets.len() == 0
    }
}

/// One collection worker; the model executes packets on workers
/// round-robin, so every packet runs exactly once on exactly one worker.
pub struct GCWorker {
    pub ordinal: usize,
    pub tls: usize,
    pub packets_done: usize,
}

impl GCWorker {
    pub fn new(ordinal: usize, tls: usize) -> (r: GCWorker)
        ensures
            r.ordinal == ordinal,
            r.tls == tls,
            r.packets_done == 0,
    {
        GCWorker { ordinal, tls, packets_done: 0 }
    }
}

/// The scheduler: the four buckets, the controller state and the workers.
pub struct Scheduler {
    pub unconstrained: WorkBucket,
    pub prepare_stage: WorkBucket,
    pub closure_stage: WorkBucket,
    pub release_stage: WorkBucket,
    pub state: ControllerState,
    pub num_workers: usize,
    pub workers: Vec<GCWorker>,
    pub packets_drained: usize,
    pub edges_processed: usize,
}

impl Scheduler {
    pub fn new() -> (r: Scheduler)
        ensures
            r.state == ControllerState::Idle,
            r.num_workers == 0,
            r.workers@.len() == 0,
            r.packets_drained == 0,
            r.edges_processed == 0,
            r.closure_stage.packets@.len() == 0,
    {
        Scheduler {
            unconstrained: WorkBucket::new(),
            prepare_stage: WorkBucket::new(),
            closure_stage: WorkBucket::new(),
            release_stage: WorkBucket::new(),
            state: ControllerState::Idle,
            num_workers: 0,
            workers: Vec::new(),
            packets_drained: 0,
            edges_processed: 0,
        }
    }

    /// Spawn the worker pool: one worker per configured thread.
    pub fn initialize(&mut self, threads: usize, tls: usize)
        requires
            1 <= threads,
        ensures
            final(self).num_workers == threads,
            final(self).workers@.len() == threads,
            final(self).state == old(self).state,
            final(self).closure_stage.packets@.len() == old(self).closure_stage.packets@.len(),
            final(self).edges_processed == old(self).edges_processed,
            final(self).packets_drained == old(self).packets_drained,
    {
        self.num_workers = threads;
        let mut workers: Vec<GCWorker> = Vec::new();
        let mut i: usize = 0;
        while i < threads
            invariant
                i <= threads,
                workers@.len() == i,
            decreases threads - i,
        {
            workers.push(GCWorker::new(i, tls));
            i = i + 1;
        }
        self.workers = workers;
    }

    /// Credit one executed packet to the next worker round-robin.
    pub(crate) fn credit_packet(&mut self)
        ensures
            final(self).state == old(self).state,
            final(self).num_workers == old(self).num_workers,
            final(self).edges_processed == old(self).edges_processed,
            final(self).closure_stage.packets@.len() == old(self).closure_stage.packets@.len(),
            final(self).workers@.len() == old(self).workers@.len(),
    {
        if self.packets_drained == usize::MAX {
            self.packets_drained = 0;
        }
        let nw = self.workers.len();
        if nw > 0 {
            let w = self.packets_drained % nw;
            let done = self.workers[w].packets_done;
            if done < usize::MAX {
                self.workers[w].packets_done = done + 1;
            }
        }
        self.packets_drained = self.packets_drained + 1;
    }

    /// Credit processed edges to the running total.
    pub(crate) fn credit_edges(&mut self, n: usize)
        ensures
            final(self).edges_processed >= old(self).edges_processed,
            final(self).state == old(self).state,
            final(self).packets_drained == old(self).packets_drained,
            final(self).closure_stage.packets@.len() == old(self).closure_stage.packets@.len(),
            final(self).workers@.len() == old(self).workers@.len(),
            final(self).num_workers == old(self).num_workers,
    {
        if self.edges_processed <= usize::MAX - n {
            self.edges_processed = self.edges_processed + n;
        }
    }

    /// Drain the closure bucket of a nursery collection: execute packets,
    /// enqueueing the scanning work they create, until the bucket is empty
    /// or the work budget runs out.
    pub fn drain_closure_nursery(
        &mut self,
        plan: &mut GenCopy,
        heap: &mut ObjectTable,
        roots_table: &mut Vec<usize>,
        fuel: usize,
    ) -> (r: Result<(), GcError>)
        requires
            old(plan).wf(),
            old(heap).wf(),
            old(plan).gc_inv(*old(heap)),
            old(plan).nursery.from_space,
            space_empty(*old(heap), old(plan).spec_fromspace()),
        ensures
            final(plan).wf(),
            final(heap).wf(),
            final(plan).gc_inv(*final(heap)),
            final(plan).nursery.from_space,
            space_empty(*final(heap), old(plan).spec_fromspace()),
            trace_plan_frame(*old(plan), *final(plan)),
            table_evolves_loose(*old(heap), *final(heap)),
            forall|k: int|
                old(heap).objs@.len() <= k < final(heap).objs@.len()
                    ==> final(plan).spec_tospace().common.spec_in_range(
                    (#[trigger] final(heap).objs@[k]).addr,
                ),
            final(roots_table)@.len() == old(roots_table)@.len(),
            forall|ri: int|
                0 <= ri < old(roots_table)@.len() ==> final(roots_table)@[ri] == old(
                    roots_table,
                )@[ri] || crate::gc_works::ref_clear(*final(plan), final(roots_table)@[ri]),
            forall|ri: int|
                0 <= ri < old(roots_table)@.len() ==> crate::gc_works::root_successor_ok(
                    *old(heap),
                    old(roots_table)@[ri],
                    *final(heap),
                    final(roots_table)@[ri],
                ),
            r is Ok ==> final(self).closure_stage.packets@.len() == 0,
            r is Err ==> r->Err_0 == GcError::OutOfMemory || r->Err_0 == GcError::InvalidReference
                || r->Err_0 == GcError::Incomplete,
            r is Err && r->Err_0 == GcError::OutOfMemory ==> crate::gc_works::unfit_survivor(
                *final(plan),
                *final(heap),
            ),
    {
        let mut remaining: usize = fuel;
        loop
            invariant
                plan.wf(),
                heap.wf(),
                plan.gc_inv(*heap),
                plan.nursery.from_space,
                old(plan).spec_fromspace() == plan.spec_fromspace(),
                space_empty(*heap, plan.spec_fromspace()),
                trace_plan_frame(*old(plan), *plan),
                table_evolves_loose(*old(heap), *heap),
                forall|k: int|
                    old(heap).objs@.len() <= k < heap.objs@.len()
                        ==> plan.spec_tospace().common.spec_in_range(
                        (#[trigger] heap.objs@[k]).addr,
                    ),
                roots_table@.len() == old(roots_table)@.len(),
                forall|ri: int|
                    0 <= ri < old(roots_table)@.len() ==> roots_table@[ri] == old(
                        roots_table,
                    )@[ri] || crate::gc_works::ref_clear(*plan, roots_table@[ri]),
                forall|ri: int|
                    0 <= ri < old(roots_table)@.len() ==> crate::gc_works::root_successor_ok(
                        *old(heap),
                        old(roots_table)@[ri],
                        *heap,
                        roots_table@[ri],
                    ),
            decreases remaining,
        {
            let packet = self.closure_stage.packets.pop();
            let p = match packet {
                Some(p) => p,
                None => {
                    return Ok(());
                },
            };
            if remaining == 0 {
                return Err(GcError::Incomplete);
            }
            remaining = remaining - 1;
            self.credit_packet();
            let ghost pre_heap = *heap;
            let ghost pre_roots = roots_table@;
            let ghost pre_plan = *plan;
            match p {
                WorkPacket::NurseryEdges(pe) => {
                    let n_edges = pe.edges.len();
                    let worked = pe.do_work(plan, heap, roots_table);
                    proof {
                        crate::gc_works::lemma_loose_trans(*old(heap), pre_heap, *heap);
                        assert forall|ri: int|
                            0 <= ri < old(roots_table)@.len() implies roots_table@[ri] == old(
                            roots_table,
                        )@[ri] || crate::gc_works::ref_clear(*plan, roots_table@[ri]) by {
                            if roots_table@[ri] != old(roots_table)@[ri] {
                                if roots_table@[ri] == pre_roots[ri] {
                                    assert(crate::gc_works::ref_clear(pre_plan, pre_roots[ri]));
                                } else {
                                    assert(crate::gc_works::ref_clear(*plan, roots_table@[ri]));
                                }
                            }
                        }
                        assert forall|ri: int|
                            0 <= ri < old(roots_table)@.len()
                                implies crate::gc_works::root_successor_ok(
                                *old(heap),
                                old(roots_table)@[ri],
                                *heap,
                                roots_table@[ri],
                            ) by {
                            crate::gc_works::lemma_successor_trans(
                                *old(heap),
                                old(roots_table)@[ri],
                                pre_heap,
                                pre_roots[ri],
                                *heap,
                                roots_table@[ri],
                            );
                        }
                        assert forall|k: int|
                            old(heap).objs@.len() <= k < heap.objs@.len()
                                implies plan.spec_tospace().common.spec_in_range(
                                (#[trigger] heap.objs@[k]).addr,
                            ) by {
                            if k < pre_heap.objs@.len() {
                                assert(heap.objs@[k].addr == pre_heap.objs@[k].addr);
                                assert(pre_plan.spec_tospace().common.spec_in_range(
                                    pre_heap.objs@[k].addr,
                                ));
                            }
                        }
                    }
                    match worked {
                        Ok(nodes) => {
                            self.credit_edges(n_edges);
                            if nodes.len() > 0 {
                                self.closure_stage.add(
                                    WorkPacket::Scan(ScanObjectsPacket::new(nodes)),
                                );
                            }
                        },
                        Err(e) => {
                            return Err(e);
                        },
                    }
                },
                WorkPacket::Scan(sp) => {
                    let scanned = sp.do_work(heap);
                    match scanned {
                        Ok(slots) => {
                            if slots.len() > 0 {
                                self.closure_stage.add(
                                    WorkPacket::NurseryEdges(
                                        GenCopyNurseryProcessEdges::new(slots, false),
                                    ),
                                );
                            }
                        },
                        Err(e) => {
                            return Err(e);
                        },
                    }
                },
                WorkPacket::ModBuf(mb) => {
                    // the barrier's buffers re-seed the closure
                    let (scan, replay) = mb.do_work(true);
                    if let Some(sp) = scan {
                        self.closure_stage.add(WorkPacket::Scan(sp));
                    }
                    if let Some(ne) = replay {
                        self.closure_stage.add(WorkPacket::NurseryEdges(ne));
                    }
                },
                WorkPacket::Sanity(se) => {
                    let checked = se.do_work(plan, heap, roots_table);
                    if checked.is_err() {
                        return Err(GcError::InvalidReference);
                    }
                },
                WorkPacket::MatureEdges(me) => {
                    // a full-heap packet has no place in a nursery closure
                    return Err(GcError::InvalidReference);
                },
            }
            proof {
                crate::gc_works::lemma_loose_trans(*old(heap), pre_heap, *heap);
                assert forall|k: int|
                    old(heap).objs@.len() <= k < heap.objs@.len()
                        implies plan.spec_tospace().common.spec_in_range(
                        (#[trigger] heap.objs@[k]).addr,
                    ) by {
                    if k < pre_heap.objs@.len() {
                        assert(heap.objs@[k].addr == pre_heap.objs@[k].addr);
                        assert(pre_plan.spec_tospace().common.spec_in_range(
                            pre_heap.objs@[k].addr,
                        ));
                    }
                }
            }
        }
    }

    /// Drain the closure bucket of a full-heap collection.
    pub fn drain_closure_full(
        &mut self,
        plan: &mut GenCopy,
        heap: &mut ObjectTable,
        roots_table: &mut Vec<usize>,
        fuel: usize,
    ) -> (r: Result<(), GcError>)
        requires
            old(plan).wf(),
            old(heap).wf(),
            old(plan).gc_inv(*old(heap)),
            old(plan).nursery.from_space,
            old(plan).spec_fromspace().from_space,
        ensures
            final(plan).wf(),
            final(heap).wf(),
            final(plan).gc_inv(*final(heap)),
            final(plan).nursery.from_space,
            final(plan).spec_fromspace().from_space,
            trace_plan_frame(*old(plan), *final(plan)),
            table_evolves_loose(*old(heap), *final(heap)),
            forall|k: int|
                old(heap).objs@.len() <= k < final(heap).objs@.len()
                    ==> final(plan).spec_tospace().common.spec_in_range(
                    (#[trigger] final(heap).objs@[k]).addr,
                ),
            final(roots_table)@.len() == old(roots_table)@.len(),
            forall|ri: int|
                0 <= ri < old(roots_table)@.len() ==> final(roots_table)@[ri] == old(
                    roots_table,
                )@[ri] || crate::gc_works::ref_clear(*final(plan), final(roots_table)@[ri]),
            forall|ri: int|
                0 <= ri < old(roots_table)@.len() ==> crate::gc_works::root_successor_ok(
                    *old(heap),
                    old(roots_table)@[ri],
                    *final(heap),
                    final(roots_table)@[ri],
                ),
            r is Ok ==> final(self).closure_stage.packets@.len() == 0,
            r is Err ==> r->Err_0 == GcError::OutOfMemory || r->Err_0 == GcError::InvalidReference
                || r->Err_0 == GcError::Incomplete,
            r is Err && r->Err_0 == GcError::OutOfMemory ==> crate::gc_works::unfit_survivor(
                *final(plan),
                *final(heap),
            ),
    {
        let mut remaining: usize = fuel;
        loop
            invariant
                plan.wf(),
                heap.wf(),
                plan.gc_inv(*heap),
                plan.nursery.from_space,
                plan.spec_fromspace().from_space,
                old(plan).spec_fromspace() == plan.spec_fromspace(),
                trace_plan_frame(*old(plan), *plan),
                table_evolves_loose(*old(heap), *heap),
                forall|k: int|
                    old(heap).objs@.len() <= k < heap.objs@.len()
                        ==> plan.spec_tospace().common.spec_in_range(
                        (#[trigger] heap.objs@[k]).addr,
                    ),
                roots_table@.len() == old(roots_table)@.len(),
                forall|ri: int|
                    0 <= ri < old(roots_table)@.len() ==> roots_table@[ri] == old(
                        roots_table,
                    )@[ri] || crate::gc_works::ref_clear(*plan, roots_table@[ri]),
                forall|ri: int|
                    0 <= ri < old(roots_table)@.len() ==> crate::gc_works::root_successor_ok(
                        *old(heap),
                        old(roots_table)@[ri],
                        *heap,
                        roots_table@[ri],
                    ),
            decreases remaining,
        {
            let packet = self.closure_stage.packets.pop();
            let p = match packet {
                Some(p) => p,
                None => {
                    return Ok(());
                },
            };
            if remaining == 0 {
                return Err(GcError::Incomplete);
            }
            remaining = remaining - 1;
            self.credit_packet();
            let ghost pre_heap = *heap;
            let ghost pre_roots = roots_table@;
            let ghost pre_plan = *plan;
            match p {
                WorkPacket::MatureEdges(pe) => {
                    let n_edges = pe.edges.len();
                    let worked = pe.do_work(plan, heap, roots_table);
                    proof {
                        crate::gc_works::lemma_loose_trans(*old(heap), pre_heap, *heap);
                        assert forall|ri: int|
                            0 <= ri < old(roots_table)@.len() implies roots_table@[ri] == old(
                            roots_table,
                        )@[ri] || crate::gc_works::ref_clear(*plan, roots_table@[ri]) by {
                            if roots_table@[ri] != old(roots_table)@[ri] {
                                if roots_table@[ri] == pre_roots[ri] {
                                    assert(crate::gc_works::ref_clear(pre_plan, pre_roots[ri]));
                                } else {
                                    assert(crate::gc_works::ref_clear(*plan, roots_table@[ri]));
                                }
                            }
                        }
                        assert forall|ri: int|
                            0 <= ri < old(roots_table)@.len()
                                implies crate::gc_works::root_successor_ok(
                                *old(heap),
                                old(roots_table)@[ri],
                                *heap,
                                roots_table@[ri],
                            ) by {
                            crate::gc_works::lemma_successor_trans(
                                *old(heap),
                                old(roots_table)@[ri],
                                pre_heap,
                                pre_roots[ri],
                                *heap,
                                roots_table@[ri],
                            );
                        }
                        assert forall|k: int|
                            old(heap).objs@.len() <= k < heap.objs@.len()
                                implies plan.spec_tospace().common.spec_in_range(
                                (#[trigger] heap.objs@[k]).addr,
                            ) by {
                            if k < pre_heap.objs@.len() {
                                assert(heap.objs@[k].addr == pre_heap.objs@[k].addr);
                                assert(pre_plan.spec_tospace().common.spec_in_range(
                                    pre_heap.objs@[k].addr,
                                ));
                            }
                        }
                    }
                    match worked {
                        Ok(nodes) => {
                            self.credit_edges(n_edges);
                            if nodes.len() > 0 {
                                self.closure_stage.add(
                                    WorkPacket::Scan(ScanObjectsPacket::new(nodes)),
                                );
                            }
                        },
                        Err(e) => {
                            return Err(e);
                        },
                    }
                },
                WorkPacket::Scan(sp) => {
                    let scanned = sp.do_work(heap);
                    match scanned {
                        Ok(slots) => {
                            if slots.len() > 0 {
                                self.closure_stage.add(
                                    WorkPacket::MatureEdges(
                                        GenCopyMatureProcessEdges::new(slots, false),
                                    ),
                                );
                            }
                        },
                        Err(e) => {
                            return Err(e);
                        },
                    }
                },
                WorkPacket::ModBuf(mb) => {
                    // a full-heap trace needs no remembered set
                    let (scan, replay) = mb.do_work(false);
                },
                WorkPacket::Sanity(se) => {
                    let checked = se.do_work(plan, heap, roots_table);
                    if checked.is_err() {
                        return Err(GcError::InvalidReference);
                    }
                },
                WorkPacket::NurseryEdges(ne) => {
                    // a nursery packet has no place in a full-heap closure
                    return Err(GcError::InvalidReference);
                },
            }
            proof {
                crate::gc_works::lemma_loose_trans(*old(heap), pre_heap, *heap);
                assert forall|k: int|
                    old(heap).objs@.len() <= k < heap.objs@.len()
                        implies plan.spec_tospace().common.spec_in_range(
                        (#[trigger] heap.objs@[k]).addr,
                    ) by {
                    if k < pre_heap.objs@.len() {
                        assert(heap.objs@[k].addr == pre_heap.objs@[k].addr);
                        assert(pre_plan.spec_tospace().common.spec_in_range(
                            pre_heap.objs@[k].addr,
                        ));
                    }
                }
            }
        }
    }
}

} // verus!
