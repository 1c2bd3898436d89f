//! Coverage of the embedding surface: the scanning and thread-control
//! bindings, the sanity trace, the copy context and the plan accessors.

use mmtk::copyspace::CopySpace;
use mmtk::gc_works::{GenCopyCopyContext, SanityGCProcessEdges, Slot};
use mmtk::layout::{Address, ObjectReference, BYTES_IN_PAGE, HEAP_START};
use mmtk::memory_manager::{
    allocate, bind_mutator, destroy_mutator, flush_mutator, gc_init, get_allocator_mapping,
    post_alloc, scan_region, start_control_collector, start_worker,
};
use mmtk::mmtk::{MMTK, SelectedPlan};
use mmtk::nogc::NoGC;
use mmtk::options::Options;
use mmtk::plan::{AllocationSemantics, AllocatorSelector};
use mmtk::scheduler::{ControllerState, GCWorker};
use mmtk::vm::{Scanning, VMCollection, VMScanning};

const MIB: usize = 1024 * 1024;

fn setup_gencopy() -> (MMTK, usize) {
    let mut m = MMTK::new(Options::new(), true);
    assert!(gc_init(&mut m, 8 * MIB, 16 * BYTES_IN_PAGE));
    let mutator = bind_mutator(&mut m, 1);
    (m, mutator)
}

#[test]
fn thread_registry() {
    let mut c = VMCollection::new();
    c.register_thread(0x10);
    c.register_thread(0x20);
    assert_eq!(c.thread_from_id(0), Address(0x10));
    assert_eq!(c.thread_from_id(1), Address(0x20));
    assert_eq!(c.thread_from_index(1), Address(0x20));
    assert!(!c.mutators_stopped);
    c.stop_all_mutators(1);
    assert!(c.mutators_stopped);
    c.prepare_mutator(1, 0x10);
    c.resume_mutators(1);
    assert!(!c.mutators_stopped);
    c.block_for_gc(1);
    c.spawn_worker_thread(1);
    assert_eq!(c.workers_spawned, 1);
    assert!(!c.oom_reported);
    c.out_of_memory(1);
    assert!(c.oom_reported);
}

#[test]
fn scanning_emits_field_edges() {
    let (mut m, mutator) = setup_gencopy();
    let a = allocate(&mut m, mutator, 64, 8, 0, AllocationSemantics::Immortal).unwrap();
    assert!(post_alloc(&mut m, ObjectReference(a.0), ObjectReference(0), 64, AllocationSemantics::Immortal));
    assert!(m.add_field(ObjectReference(a.0), 0));
    assert!(m.add_field(ObjectReference(a.0), 0));
    let edges = VMScanning::scan_object(&m.heap, ObjectReference(a.0)).unwrap();
    assert_eq!(edges.len(), 2);
    assert_eq!(edges[0], Slot::Field { object: a.0, field: 0 });
    assert_eq!(edges[1], Slot::Field { object: a.0, field: 1 });
    // an unknown address is refused
    assert!(VMScanning::scan_object(&m.heap, ObjectReference(12345)).is_err());
    // roots become root edges, one per slot
    m.add_root(a.0);
    m.add_root(0);
    let root_edges = VMScanning::compute_thread_roots(&m.roots);
    assert_eq!(root_edges.len(), 2);
    assert_eq!(root_edges[0], Slot::Root { index: 0 });
    assert!(!VMScanning::supports_return_barrier());
}

#[test]
fn controller_and_worker_entry_points() {
    let (mut m, _mutator) = setup_gencopy();
    start_control_collector(&mut m, 1);
    assert_eq!(m.scheduler.state, ControllerState::Idle);
    let mut w = GCWorker::new(3, 0);
    start_worker(7, &mut w, &m);
    assert_eq!(w.tls, 7);
    assert_eq!(w.ordinal, 3);
}

#[test]
fn allocator_mapping_by_plan() {
    let (m, _mutator) = setup_gencopy();
    assert_eq!(
        get_allocator_mapping(&m, AllocationSemantics::Default),
        AllocatorSelector::BumpPointer(0)
    );
    assert_eq!(
        get_allocator_mapping(&m, AllocationSemantics::Immortal),
        AllocatorSelector::BumpPointer(1)
    );
    assert_eq!(
        get_allocator_mapping(&m, AllocationSemantics::LargeObject),
        AllocatorSelector::LargeObject(0)
    );
    let mut n = MMTK::new(Options::new(), false);
    assert!(gc_init(&mut n, 16 * MIB, 4 * BYTES_IN_PAGE));
    assert_eq!(
        get_allocator_mapping(&n, AllocationSemantics::Code),
        AllocatorSelector::BumpPointer(0)
    );
}

#[test]
fn mutator_lifecycle() {
    let (mut m, mutator) = setup_gencopy();
    let a = allocate(&mut m, mutator, 64, 8, 0, AllocationSemantics::Default).unwrap();
    assert!(post_alloc(&mut m, ObjectReference(a.0), ObjectReference(0), 64, AllocationSemantics::Default));
    assert!(m.add_field(ObjectReference(a.0), 0));
    // a mature-to-nursery store is recorded; flushing hands it over
    m.add_root(a.0);
    assert!(m.trigger_collection(1, false).is_ok());
    let mature = m.get_root(0).unwrap();
    let b = allocate(&mut m, mutator, 64, 8, 0, AllocationSemantics::Default).unwrap();
    assert!(post_alloc(&mut m, ObjectReference(b.0), ObjectReference(0), 64, AllocationSemantics::Default));
    assert!(m.store_reference(mutator, ObjectReference(mature), 0, ObjectReference(b.0)));
    let (nodes, edges) = flush_mutator(&mut m, mutator);
    assert_eq!(nodes, vec![mature]);
    assert_eq!(edges, vec![Slot::Field { object: mature, field: 0 }]);
    // after the flush the buffers are empty; destroy discards what is left
    let (nodes2, _edges2) = flush_mutator(&mut m, mutator);
    assert!(nodes2.is_empty());
    destroy_mutator(&mut m, mutator);
}

#[test]
fn sanity_trace_checks_edges() {
    let (mut m, mutator) = setup_gencopy();
    let a = allocate(&mut m, mutator, 64, 8, 0, AllocationSemantics::Default).unwrap();
    assert!(post_alloc(&mut m, ObjectReference(a.0), ObjectReference(0), 64, AllocationSemantics::Default));
    m.add_root(a.0);
    // before the collection the root still points into the nursery: the
    // validation trace refuses it
    match &m.plan {
        SelectedPlan::GenCopy(g) => {
            let sanity = SanityGCProcessEdges::new(vec![Slot::Root { index: 0 }], true);
            assert!(sanity.do_work(g, &m.heap, &m.roots).is_err());
        },
        _ => unreachable!(),
    }
    assert!(m.trigger_collection(1, false).is_ok());
    // afterwards every root edge passes
    match &m.plan {
        SelectedPlan::GenCopy(g) => {
            let sanity = SanityGCProcessEdges::new(vec![Slot::Root { index: 0 }], true);
            assert!(sanity.do_work(g, &m.heap, &m.roots).is_ok());
        },
        _ => unreachable!(),
    }
}

#[test]
fn copy_context_allocates_in_tospace() {
    let (mut m, _mutator) = setup_gencopy();
    let mut ctx = GenCopyCopyContext::new(5);
    assert_eq!(ctx.tls, 5);
    ctx.prepare();
    match &mut m.plan {
        SelectedPlan::GenCopy(g) => {
            let a = ctx.alloc_copy(g, 64, 8, 0).unwrap();
            let to = if g.hi { &g.copyspace1.common } else { &g.copyspace0.common };
            assert!(to.start <= a && a < to.start + to.extent);
        },
        _ => unreachable!(),
    }
    ctx.release();
}

#[test]
fn scan_region_counts_objects() {
    let (mut m, mutator) = setup_gencopy();
    let mut first = 0usize;
    let mut last = 0usize;
    for i in 0..5usize {
        let a = allocate(&mut m, mutator, 64, 8, 0, AllocationSemantics::Default).unwrap();
        assert!(post_alloc(&mut m, ObjectReference(a.0), ObjectReference(0), 64, AllocationSemantics::Default));
        if i == 0 {
            first = a.0;
        }
        last = a.0;
    }
    assert_eq!(scan_region(&m, Address(first), Address(last + 64)), 5);
    assert_eq!(scan_region(&m, Address(first), Address(first + 1)), 1);
    assert_eq!(scan_region(&m, Address(0), Address(HEAP_START)), 0);
}

#[test]
fn nogc_plan_accessors() {
    let mut n = MMTK::new(Options::new(), false);
    assert!(gc_init(&mut n, 16 * MIB, 4 * BYTES_IN_PAGE));
    let mutator = bind_mutator(&mut n, 1);
    let a = allocate(&mut n, mutator, 64, 8, 0, AllocationSemantics::Default).unwrap();
    match &n.plan {
        SelectedPlan::NoGC(p) => {
            let space = p.get_immortal_space();
            assert!(space.common.start <= a.0 && a.0 < space.common.start + space.common.extent);
            let los = p.get_los();
            assert!(los.common.start >= space.common.start + space.common.extent);
            assert!(p.is_valid_ref(ObjectReference(a.0)));
            assert!(!p.is_bad_ref(ObjectReference(a.0)));
            assert!(p.will_never_move(ObjectReference(a.0)));
            assert!(!p.is_movable(ObjectReference(a.0)));
            p.collection_phase();
        },
        _ => unreachable!(),
    }
}

#[test]
fn copyspace_protect_cycle() {
    let mut cs = CopySpace::new("half", false, true, HEAP_START, 4 * BYTES_IN_PAGE);
    let (s, e) = cs.protect();
    assert_eq!(s, HEAP_START);
    assert_eq!(e, 4 * BYTES_IN_PAGE);
    assert!(cs.common.protected);
    let (s2, e2) = cs.unprotect();
    assert_eq!((s2, e2), (s, e));
    assert!(!cs.common.protected);
}

#[test]
fn soft_references_survive_like_weak_when_traced() {
    let (mut m, mutator) = setup_gencopy();
    let holder = allocate(&mut m, mutator, 64, 8, 0, AllocationSemantics::Immortal).unwrap();
    assert!(post_alloc(&mut m, ObjectReference(holder.0), ObjectReference(0), 64, AllocationSemantics::Immortal));
    let rooted = allocate(&mut m, mutator, 64, 8, 0, AllocationSemantics::Default).unwrap();
    assert!(post_alloc(&mut m, ObjectReference(rooted.0), ObjectReference(0), 64, AllocationSemantics::Default));
    m.add_root(rooted.0);
    let unrooted = allocate(&mut m, mutator, 64, 8, 0, AllocationSemantics::Default).unwrap();
    assert!(post_alloc(&mut m, ObjectReference(unrooted.0), ObjectReference(0), 64, AllocationSemantics::Default));
    m.reference_processors.add_soft_candidate(holder.0, rooted.0);
    m.reference_processors.add_soft_candidate(holder.0, unrooted.0);
    assert!(m.trigger_collection(1, false).is_ok());
    // the rooted referent moved with the collection; the unrooted one was
    // cleared under pressure
    assert_eq!(Some(m.reference_processors.soft[0].referent), m.get_root(0));
    assert_eq!(m.reference_processors.soft[1].referent, 0);
}
