//! End-to-end behavior of the generational copying plan: nursery and
//! full-heap collections, the write barrier, reference processing, role
//! flips and the worker model.

use mmtk::layout::{Address, ObjectReference, BYTES_IN_PAGE};
use mmtk::memory_manager::{
    allocate, bind_mutator, enable_collection, free_bytes, gc_init, harness_begin, harness_end,
    is_live_object, modify_check, post_alloc, total_bytes, used_bytes,
};
use mmtk::mmtk::{MMTK, SelectedPlan};
use mmtk::options::Options;
use mmtk::plan::AllocationSemantics;

const MIB: usize = 1024 * 1024;

fn fresh_gencopy(heap: usize, nursery: usize) -> (MMTK, usize) {
    let mut m = MMTK::new(Options::new(), true);
    assert!(gc_init(&mut m, heap, nursery));
    let mutator = bind_mutator(&mut m, 1);
    (m, mutator)
}

fn alloc_obj(m: &mut MMTK, mutator: usize, size: usize, sem: AllocationSemantics, marker: u8) -> usize {
    let a = allocate(m, mutator, size, 8, 0, sem).expect("allocation fits");
    assert!(post_alloc(m, ObjectReference(a.0), ObjectReference(0), size, sem));
    assert!(m.write_payload_byte(ObjectReference(a.0), 0, marker));
    a.0
}

fn nursery_range(m: &MMTK) -> (usize, usize) {
    match &m.plan {
        SelectedPlan::GenCopy(g) => (g.nursery.common.start, g.nursery.common.extent),
        _ => panic!("generational plan expected"),
    }
}

fn in_nursery(m: &MMTK, a: usize) -> bool {
    let (s, e) = nursery_range(m);
    s <= a && a < s + e
}

fn plan_hi(m: &MMTK) -> bool {
    match &m.plan {
        SelectedPlan::GenCopy(g) => g.hi,
        _ => panic!("generational plan expected"),
    }
}

fn tospace_range(m: &MMTK) -> (usize, usize) {
    match &m.plan {
        SelectedPlan::GenCopy(g) => {
            let c = if g.hi { &g.copyspace1.common } else { &g.copyspace0.common };
            (c.start, c.extent)
        },
        _ => panic!("generational plan expected"),
    }
}

fn in_tospace(m: &MMTK, a: usize) -> bool {
    let (s, e) = tospace_range(m);
    s <= a && a < s + e
}

#[test]
fn nursery_survival() {
    // nursery of 16 pages; allocate 256 objects of 128 B, retain every 4th
    let (mut m, mutator) = fresh_gencopy(8 * MIB, 16 * BYTES_IN_PAGE);
    let mut retained: Vec<usize> = Vec::new();
    for i in 0..256usize {
        let a = alloc_obj(&mut m, mutator, 128, AllocationSemantics::Default, (i % 251) as u8);
        if i % 4 == 0 {
            retained.push(a);
            m.add_root(a);
        }
    }
    assert_eq!(m.object_count(), 256);
    assert!(m.trigger_collection(1, false).is_ok());
    // surviving count is a quarter of the input
    assert_eq!(m.object_count(), 64);
    // all retained references were updated out of the nursery, and their
    // payloads came along
    for (j, &orig) in retained.iter().enumerate() {
        let moved = m.get_root(j).unwrap();
        assert!(moved != orig);
        assert!(!in_nursery(&m, moved));
        assert!(in_tospace(&m, moved));
        let marker = m.read_payload_byte(ObjectReference(moved), 0).unwrap();
        assert_eq!(marker, (((j * 4) % 251)) as u8);
    }
    // the nursery's pages were returned en masse
    match &m.plan {
        SelectedPlan::GenCopy(g) => {
            assert_eq!(g.nursery.common.pr.committed, 0);
            assert_eq!(g.nursery.common.pr.pending, 0);
        },
        _ => unreachable!(),
    }
    assert_eq!(m.gc_count(), 1);
}

#[test]
fn write_barrier_replays_edge() {
    let (mut m, mutator) = fresh_gencopy(8 * MIB, 16 * BYTES_IN_PAGE);
    // age object A into the mature space
    let a_young = alloc_obj(&mut m, mutator, 64, AllocationSemantics::Default, 7);
    m.add_root(a_young);
    assert!(m.trigger_collection(1, false).is_ok());
    let a_mature = m.get_root(0).unwrap();
    assert!(in_tospace(&m, a_mature));
    assert!(m.add_field(ObjectReference(a_mature), 0));
    // create B in the nursery and store it into A: the barrier records it
    let b_young = alloc_obj(&mut m, mutator, 64, AllocationSemantics::Default, 9);
    assert!(m.store_reference(mutator, ObjectReference(a_mature), 0, ObjectReference(b_young)));
    // drop the roots: only the barrier's buffers can keep B alive
    m.roots = Vec::new();
    assert!(m.trigger_collection(1, false).is_ok());
    // A's slot now points at B's tospace copy
    let b_new = m.read_field(ObjectReference(a_mature), 0).unwrap();
    assert!(b_new != b_young);
    assert!(!in_nursery(&m, b_new));
    assert!(in_tospace(&m, b_new));
    assert_eq!(m.read_payload_byte(ObjectReference(b_new), 0), Some(9));
}

#[test]
fn full_heap_cycle_swaps_roles() {
    let (mut m, mutator) = fresh_gencopy(8 * MIB, 16 * BYTES_IN_PAGE);
    // populate the tospace with survivors of a nursery collection
    for i in 0..32usize {
        let a = alloc_obj(&mut m, mutator, 256, AllocationSemantics::Default, i as u8);
        m.add_root(a);
    }
    assert!(m.trigger_collection(1, false).is_ok());
    let hi_before = plan_hi(&m);
    let (to_start_before, _) = tospace_range(&m);
    // full-heap cycle: roles swap, the old tospace is evacuated and freed
    assert!(m.trigger_collection(1, true).is_ok());
    assert_eq!(plan_hi(&m), !hi_before);
    let (to_start_after, _) = tospace_range(&m);
    assert!(to_start_after != to_start_before);
    match &m.plan {
        SelectedPlan::GenCopy(g) => {
            let from = if g.hi { &g.copyspace0 } else { &g.copyspace1 };
            assert_eq!(from.common.pr.committed + from.common.pr.pending, 0);
            assert!(!from.from_space);
        },
        _ => unreachable!(),
    }
    // the live set lives in the new tospace with payloads intact
    for j in 0..32usize {
        let moved = m.get_root(j).unwrap();
        assert!(in_tospace(&m, moved));
        assert!(is_live_object(&m, ObjectReference(moved)));
        assert_eq!(m.read_payload_byte(ObjectReference(moved), 0), Some(j as u8));
    }
    assert_eq!(m.gc_count(), 2);
}

#[test]
fn flip_roles_twice_restores_topology() {
    let (mut m, _mutator) = fresh_gencopy(8 * MIB, 16 * BYTES_IN_PAGE);
    match &mut m.plan {
        SelectedPlan::GenCopy(g) => {
            let hi0 = g.hi;
            let to0 = if g.hi { g.copyspace1.common.start } else { g.copyspace0.common.start };
            g.flip_roles();
            g.flip_roles();
            assert_eq!(g.hi, hi0);
            let to2 = if g.hi { g.copyspace1.common.start } else { g.copyspace0.common.start };
            assert_eq!(to0, to2);
        },
        _ => unreachable!(),
    }
}

#[test]
fn survivors_keep_payloads_across_two_collections() {
    // allocate, force a full collection, and dereference the survivors:
    // the payload bytes are the ones written before the move
    let (mut m, mutator) = fresh_gencopy(8 * MIB, 16 * BYTES_IN_PAGE);
    for i in 0..20usize {
        let a = alloc_obj(&mut m, mutator, 64, AllocationSemantics::Default, (i * 3) as u8);
        assert!(m.write_payload_byte(ObjectReference(a), 63, (i + 100) as u8));
        m.add_root(a);
    }
    assert!(m.trigger_collection(1, true).is_ok());
    assert!(m.trigger_collection(1, true).is_ok());
    for i in 0..20usize {
        let moved = m.get_root(i).unwrap();
        assert_eq!(m.read_payload_byte(ObjectReference(moved), 0), Some((i * 3) as u8));
        assert_eq!(m.read_payload_byte(ObjectReference(moved), 63), Some((i + 100) as u8));
    }
}

#[test]
fn immortal_objects_never_move() {
    let (mut m, mutator) = fresh_gencopy(8 * MIB, 16 * BYTES_IN_PAGE);
    let i1 = alloc_obj(&mut m, mutator, 64, AllocationSemantics::Immortal, 42);
    let i2 = alloc_obj(&mut m, mutator, 64, AllocationSemantics::ReadOnly, 43);
    m.add_root(i1);
    m.add_root(i2);
    assert!(m.trigger_collection(1, true).is_ok());
    assert!(m.trigger_collection(1, false).is_ok());
    assert!(m.trigger_collection(1, true).is_ok());
    // same addresses, same payloads, still live, across any number of
    // collections
    assert_eq!(m.get_root(0), Some(i1));
    assert_eq!(m.get_root(1), Some(i2));
    assert_eq!(m.read_payload_byte(ObjectReference(i1), 0), Some(42));
    assert_eq!(m.read_payload_byte(ObjectReference(i2), 0), Some(43));
    assert!(is_live_object(&m, ObjectReference(i1)));
}

#[test]
fn closure_writes_back_only_clear_references() {
    // after a collection every root points into neither the nursery nor
    // the fromspace
    let (mut m, mutator) = fresh_gencopy(8 * MIB, 16 * BYTES_IN_PAGE);
    let a = alloc_obj(&mut m, mutator, 64, AllocationSemantics::Default, 1);
    let b = alloc_obj(&mut m, mutator, 64, AllocationSemantics::Immortal, 2);
    m.add_root(a);
    m.add_root(b);
    m.add_root(0);
    assert!(m.trigger_collection(1, false).is_ok());
    for j in 0..3usize {
        let v = m.get_root(j).unwrap();
        if v != 0 {
            assert!(!in_nursery(&m, v));
        }
    }
    assert_eq!(m.get_root(2), Some(0));
}

#[test]
fn coalesced_request_during_collection() {
    // a user request issued while a collection is in flight returns after
    // it, and no second collection is triggered
    let (mut m, _mutator) = fresh_gencopy(8 * MIB, 16 * BYTES_IN_PAGE);
    enable_collection(&mut m, 1);
    match &mut m.plan {
        SelectedPlan::GenCopy(g) => g.common.gc_in_progress = true,
        _ => unreachable!(),
    }
    let count_before = m.gc_count();
    m.handle_user_collection_request(1, false);
    assert_eq!(m.gc_count(), count_before);
    match &mut m.plan {
        SelectedPlan::GenCopy(g) => {
            assert_eq!(g.common.coalesced_requests, 1);
            g.common.gc_in_progress = false;
        },
        _ => unreachable!(),
    }
    // once the pause is over a request does collect
    m.handle_user_collection_request(1, false);
    assert_eq!(m.gc_count(), count_before + 1);
}

#[test]
fn reference_classes() {
    let (mut m, mutator) = fresh_gencopy(8 * MIB, 16 * BYTES_IN_PAGE);
    let holder = alloc_obj(&mut m, mutator, 64, AllocationSemantics::Immortal, 1);
    // a weak referent with no other path is collected and cleared
    let doomed = alloc_obj(&mut m, mutator, 64, AllocationSemantics::Default, 2);
    m.reference_processors.add_weak_candidate(holder, doomed);
    // a weak referent that survives is updated to its copy
    let kept = alloc_obj(&mut m, mutator, 64, AllocationSemantics::Default, 3);
    m.add_root(kept);
    m.reference_processors.add_weak_candidate(holder, kept);
    // a phantom whose referent dies is enqueued
    let ghost_target = alloc_obj(&mut m, mutator, 64, AllocationSemantics::Default, 4);
    m.reference_processors.add_phantom_candidate(holder, ghost_target);
    assert!(m.trigger_collection(1, false).is_ok());
    assert_eq!(m.reference_processors.weak[0].referent, 0);
    let kept_new = m.reference_processors.weak[1].referent;
    assert!(kept_new != 0);
    assert_eq!(Some(kept_new), m.get_root(0));
    assert_eq!(m.read_payload_byte(ObjectReference(kept_new), 0), Some(3));
    assert_eq!(m.reference_processors.phantom[0].referent, 0);
    assert_eq!(m.reference_processors.enqueued, vec![holder]);
}

#[test]
fn parallel_workers_process_each_edge_once() {
    let mut options = Options::new();
    options.threads = 4;
    let mut m = MMTK::new(options, true);
    assert!(gc_init(&mut m, 8 * MIB, 64 * BYTES_IN_PAGE));
    let mutator = bind_mutator(&mut m, 1);
    enable_collection(&mut m, 1);
    assert_eq!(m.scheduler.num_workers, 4);
    assert_eq!(m.scheduler.workers.len(), 4);
    for i in 0..200usize {
        let a = alloc_obj(&mut m, mutator, 64, AllocationSemantics::Default, i as u8);
        m.add_root(a);
    }
    assert!(m.trigger_collection(1, true).is_ok());
    // every root edge was processed exactly once
    assert_eq!(m.scheduler.edges_processed, 200);
    // no object was copied twice: the forwarding claim admits one winner
    assert_eq!(m.object_count(), 200);
    // the packets were spread over the worker pool
    let done: usize = m.scheduler.workers.iter().map(|w| w.packets_done).sum();
    assert_eq!(done, m.scheduler.packets_drained);
}

#[test]
fn accounting_holds_for_gencopy() {
    let (mut m, mutator) = fresh_gencopy(8 * MIB, 16 * BYTES_IN_PAGE);
    for i in 0..50usize {
        let a = alloc_obj(&mut m, mutator, 128, AllocationSemantics::Default, i as u8);
        m.add_root(a);
    }
    assert_eq!(used_bytes(&m) + free_bytes(&m), total_bytes(&m));
    assert!(m.trigger_collection(1, true).is_ok());
    assert_eq!(used_bytes(&m) + free_bytes(&m), total_bytes(&m));
}

#[test]
fn modify_check_guards_movable_objects() {
    let (mut m, mutator) = fresh_gencopy(8 * MIB, 16 * BYTES_IN_PAGE);
    let a = alloc_obj(&mut m, mutator, 64, AllocationSemantics::Default, 1);
    let b = alloc_obj(&mut m, mutator, 64, AllocationSemantics::Immortal, 2);
    assert!(modify_check(&m, ObjectReference(a)));
    match &mut m.plan {
        SelectedPlan::GenCopy(g) => g.common.gc_in_progress = true,
        _ => unreachable!(),
    }
    assert!(!modify_check(&m, ObjectReference(a)));
    assert!(modify_check(&m, ObjectReference(b)));
}

#[test]
fn harness_forces_full_collection() {
    let (mut m, mutator) = fresh_gencopy(8 * MIB, 16 * BYTES_IN_PAGE);
    enable_collection(&mut m, 1);
    let a = alloc_obj(&mut m, mutator, 64, AllocationSemantics::Default, 5);
    m.add_root(a);
    let hi_before = plan_hi(&m);
    harness_begin(&mut m, 1);
    assert!(m.inside_harness);
    // the harness collection was a full-heap one: the roles flipped
    assert_eq!(plan_hi(&m), !hi_before);
    harness_end(&mut m);
    assert!(!m.inside_harness);
    assert_eq!(m.gc_count(), 1);
}

#[test]
fn exhausted_nursery_drives_collection() {
    // a nursery of 4 pages overflows quickly; the slow path collects and
    // the allocation then succeeds
    let (mut m, mutator) = fresh_gencopy(8 * MIB, 4 * BYTES_IN_PAGE);
    enable_collection(&mut m, 1);
    let mut allocated = 0usize;
    for i in 0..40usize {
        let r = allocate(&mut m, mutator, 1024, 8, 0, AllocationSemantics::Default);
        let a = r.expect("collection frees the nursery");
        assert!(post_alloc(&mut m, ObjectReference(a.0), ObjectReference(0), 1024, AllocationSemantics::Default));
        allocated += 1;
    }
    assert_eq!(allocated, 40);
    // the nursery filled more than once, so collections ran
    assert!(m.gc_count() >= 1);
}

#[test]
fn large_objects_swept_per_mark_bits() {
    let (mut m, mutator) = fresh_gencopy(8 * MIB, 16 * BYTES_IN_PAGE);
    let kept = alloc_obj(&mut m, mutator, 2 * 4096, AllocationSemantics::LargeObject, 11);
    let doomed = alloc_obj(&mut m, mutator, 2 * 4096, AllocationSemantics::LargeObject, 12);
    m.add_root(kept);
    // the full-heap trace marks the rooted large object; the other keeps
    // its stale mark
    assert!(m.trigger_collection(1, true).is_ok());
    let before = m.object_count();
    m.sweep_large_objects();
    assert_eq!(m.object_count(), before - 1);
    // the survivor stayed put, with its payload; the dead one is gone
    assert_eq!(m.get_root(0), Some(kept));
    assert_eq!(m.read_payload_byte(ObjectReference(kept), 0), Some(11));
    assert!(is_live_object(&m, ObjectReference(kept)));
    assert!(m.read_payload_byte(ObjectReference(doomed), 0).is_none());
}

#[test]
fn stress_factor_forces_collections() {
    let mut options = Options::new();
    options.stress_factor = 4 * 1024;
    let mut m = MMTK::new(options, true);
    assert!(gc_init(&mut m, 8 * MIB, 64 * BYTES_IN_PAGE));
    let mutator = bind_mutator(&mut m, 1);
    enable_collection(&mut m, 1);
    // far below the nursery's capacity, yet the cadence forces collections
    for i in 0..40usize {
        let a = allocate(&mut m, mutator, 512, 8, 0, AllocationSemantics::Default).unwrap();
        assert!(post_alloc(&mut m, ObjectReference(a.0), ObjectReference(0), 512, AllocationSemantics::Default));
        let _ = i;
    }
    assert!(m.gc_count() >= 2);
}

#[test]
fn sanity_trace_runs_after_collection() {
    let mut options = Options::new();
    options.sanity = true;
    let mut m = MMTK::new(options, true);
    assert!(gc_init(&mut m, 8 * MIB, 16 * BYTES_IN_PAGE));
    let mutator = bind_mutator(&mut m, 1);
    let a = alloc_obj(&mut m, mutator, 64, AllocationSemantics::Default, 3);
    m.add_root(a);
    // the validation trace runs inside the pause and provably passes
    assert!(m.trigger_collection(1, false).is_ok());
    let moved = m.get_root(0).unwrap();
    assert!(!in_nursery(&m, moved));
    assert_eq!(m.read_payload_byte(ObjectReference(moved), 0), Some(3));
}

#[test]
fn heap_budget_is_exactly_the_request() {
    // the laid-out extents sum to the requested heap size, page rounding
    // included: a ten-page heap with a one-page nursery budgets ten pages
    let mut m = MMTK::new(Options::new(), true);
    assert!(gc_init(&mut m, 10 * BYTES_IN_PAGE, BYTES_IN_PAGE));
    assert_eq!(total_bytes(&m), 10 * BYTES_IN_PAGE);
    let mut m2 = MMTK::new(Options::new(), true);
    assert!(gc_init(&mut m2, 8 * MIB, 16 * BYTES_IN_PAGE));
    assert_eq!(total_bytes(&m2), 8 * MIB);
}

#[test]
fn gencopy_used_bytes_track_allocations_exactly() {
    // without an intervening collection, accounting is pinned by the
    // allocation contracts: page rounding only
    let (mut m, mutator) = fresh_gencopy(8 * MIB, 64 * BYTES_IN_PAGE);
    for _ in 0..100usize {
        let a = allocate(&mut m, mutator, 64, 8, 0, AllocationSemantics::Default).unwrap();
        assert!(post_alloc(&mut m, ObjectReference(a.0), ObjectReference(0), 64, AllocationSemantics::Default));
    }
    let used = used_bytes(&m);
    assert!(used >= 6_400);
    assert!(used < 6_400 + BYTES_IN_PAGE);
    assert_eq!(m.gc_count(), 0);
}
