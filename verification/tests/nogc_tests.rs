//! End-to-end behavior of the no-op plan: allocation, accounting and the
//! boundary cases of the allocation interface.

use mmtk::errors::AllocError;
use mmtk::layout::{Address, ObjectReference, BYTES_IN_PAGE, ZERO_SIZE_SENTINEL};
use mmtk::memory_manager::{
    allocate, bind_mutator, free_bytes, gc_init, is_live_object, is_mapped_address,
    is_mapped_object, post_alloc, process, total_bytes, used_bytes,
};
use mmtk::mmtk::MMTK;
use mmtk::options::Options;
use mmtk::plan::AllocationSemantics;

const MIB: usize = 1024 * 1024;

fn fresh_nogc(heap: usize) -> MMTK {
    let mut m = MMTK::new(Options::new(), false);
    assert!(gc_init(&mut m, heap, 4 * BYTES_IN_PAGE));
    m
}

#[test]
fn nogc_smoke() {
    // plan=NoGC, heap=16 MiB: allocate 1,000 objects of 64 B
    let mut m = fresh_nogc(16 * MIB);
    let mutator = bind_mutator(&mut m, 1);
    let mut refs: Vec<usize> = Vec::new();
    for _ in 0..1000 {
        let a = allocate(&mut m, mutator, 64, 8, 0, AllocationSemantics::Default)
            .expect("allocation fits");
        assert!(post_alloc(&mut m, ObjectReference(a.0), ObjectReference(0), 64, AllocationSemantics::Default));
        refs.push(a.0);
    }
    // used bytes equal the object bytes up to page rounding
    let used = used_bytes(&m);
    assert!(used >= 64_000);
    assert!(used < 64_000 + BYTES_IN_PAGE);
    // no collection was triggered
    assert_eq!(m.gc_count(), 0);
    // all references are live and mapped
    for &r in refs.iter() {
        assert!(is_live_object(&m, ObjectReference(r)));
        assert!(is_mapped_object(&m, ObjectReference(r)));
    }
}

#[test]
fn accounting_used_free_total() {
    let mut m = fresh_nogc(16 * MIB);
    let mutator = bind_mutator(&mut m, 1);
    // used + free == total when no reservation is pending, which is every
    // moment outside an allocation call
    assert_eq!(used_bytes(&m) + free_bytes(&m), total_bytes(&m));
    for _ in 0..10 {
        let a = allocate(&mut m, mutator, 4096, 8, 0, AllocationSemantics::Default).unwrap();
        assert!(post_alloc(&mut m, ObjectReference(a.0), ObjectReference(0), 4096, AllocationSemantics::Default));
    }
    assert_eq!(used_bytes(&m) + free_bytes(&m), total_bytes(&m));
    assert!(used_bytes(&m) <= total_bytes(&m));
}

#[test]
fn zero_size_allocation_sentinel() {
    let mut m = fresh_nogc(16 * MIB);
    let mutator = bind_mutator(&mut m, 1);
    let before = m.object_count();
    let a = allocate(&mut m, mutator, 0, 8, 0, AllocationSemantics::Default).unwrap();
    // a uniquely non-null sentinel comes back
    assert_eq!(a, Address(ZERO_SIZE_SENTINEL));
    assert!(a.0 != 0);
    let b = allocate(&mut m, mutator, 0, 16, 0, AllocationSemantics::Default).unwrap();
    assert_eq!(b, a);
    // post_alloc on the sentinel is a no-op
    assert!(post_alloc(&mut m, ObjectReference(a.0), ObjectReference(0), 0, AllocationSemantics::Default));
    assert_eq!(m.object_count(), before);
}

#[test]
fn oversized_alignment_fails_gracefully() {
    let mut m = fresh_nogc(16 * MIB);
    let mutator = bind_mutator(&mut m, 1);
    let r = allocate(&mut m, mutator, 64, 2 * BYTES_IN_PAGE, 0, AllocationSemantics::Default);
    assert_eq!(r, Err(AllocError::AlignmentTooLarge));
    let r2 = allocate(&mut m, mutator, 64, 24, 0, AllocationSemantics::Default);
    assert_eq!(r2, Err(AllocError::AlignmentTooLarge));
}

#[test]
fn nogc_out_of_memory() {
    // a tiny heap overruns without ever collecting
    let mut m = fresh_nogc(16 * BYTES_IN_PAGE);
    let mutator = bind_mutator(&mut m, 1);
    let mut last = Ok(Address(0));
    for _ in 0..64 {
        last = allocate(&mut m, mutator, 4096, 8, 0, AllocationSemantics::Default);
        if last.is_err() {
            break;
        }
    }
    assert_eq!(last, Err(AllocError::OutOfMemory));
    assert_eq!(m.gc_count(), 0);
}

#[test]
fn large_object_semantic_routes_to_los() {
    let mut m = fresh_nogc(16 * MIB);
    let mutator = bind_mutator(&mut m, 1);
    let a = allocate(&mut m, mutator, 5 * 4096, 8, 0, AllocationSemantics::LargeObject).unwrap();
    assert!(post_alloc(&mut m, ObjectReference(a.0), ObjectReference(0), 5 * 4096, AllocationSemantics::LargeObject));
    assert!(is_live_object(&m, ObjectReference(a.0)));
    // the default space did not move
    let b = allocate(&mut m, mutator, 64, 8, 0, AllocationSemantics::Default).unwrap();
    assert!(b.0 < a.0);
}

#[test]
fn mapped_address_tracks_committed_pages() {
    let mut m = fresh_nogc(16 * MIB);
    let mutator = bind_mutator(&mut m, 1);
    let a = allocate(&mut m, mutator, 64, 8, 0, AllocationSemantics::Default).unwrap();
    assert!(is_mapped_address(&m, a));
    // far beyond the cursor nothing is committed yet
    assert!(!is_mapped_address(&m, Address(a.0 + 4 * MIB)));
    assert!(!is_mapped_object(&m, ObjectReference(0)));
}

#[test]
fn process_sets_options_from_strings() {
    let mut m = fresh_nogc(16 * MIB);
    assert!(process(&mut m, "threads", "4"));
    assert_eq!(m.options.threads, 4);
    assert!(process(&mut m, "sanity", "true"));
    assert!(m.options.sanity);
    assert!(process(&mut m, "protect_on_release", "false"));
    assert!(!m.options.protect_on_release);
    assert!(process(&mut m, "stress_factor", "1048576"));
    assert_eq!(m.options.stress_factor, 1048576);
    // unknown names, malformed and out-of-range values are refused
    assert!(!process(&mut m, "no_such_option", "1"));
    assert!(!process(&mut m, "threads", "abc"));
    assert!(!process(&mut m, "threads", ""));
    assert!(!process(&mut m, "threads", "999"));
    assert!(!process(&mut m, "stress_factor", "99999999999999999999999999"));
    assert_eq!(m.options.threads, 4);
}
