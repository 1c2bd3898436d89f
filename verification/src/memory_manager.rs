//! The VM-to-core interface: the safe entry points a runtime binding
//! calls.  Each delegates to the instance, the plan or the scheduler; the
//! contracts repeat what the callee promises, in the embedder's terms.

use crate::errors::AllocError;
use crate::gc_works::Slot;
use crate::layout::{Address, ObjectReference, BYTES_IN_PAGE, HEAP_END, HEAP_START};
use crate::mmtk::{spec_is_live, MMTK, SelectedPlan};
use crate::plan::{AllocationSemantics, AllocatorSelector};
use crate::scheduler::{ControllerState, GCWorker};
use vstd::prelude::*;

verus! {

/// Run the controller's main loop: it parks in `Idle`, waiting for
/// collection requests, which this embedding serves synchronously.
pub fn start_control_collector(mmtk: &mut MMTK, tls: usize)
    requires
        old(mmtk).wf(),
    ensures
        final(mmtk).wf(),
        final(mmtk).scheduler.state == ControllerState::Idle,
        final(mmtk).heap.objs@ == old(mmtk).heap.objs@,
        final(mmtk).plan == old(mmtk).plan,
{
    mmtk.scheduler.state = ControllerState::Idle;
}

/// One-time initialization of an instance for a heap of `heap_size` bytes.
/// Returns false, changing nothing, when already initialized.
pub fn gc_init(mmtk: &mut MMTK, heap_size: usize, nursery_size: usize) -> (r: bool)
    requires
        old(mmtk).wf(),
        heap_size as int % (BYTES_IN_PAGE as int) == 0,
        nursery_size as int % (BYTES_IN_PAGE as int) == 0,
        BYTES_IN_PAGE <= nursery_size,
        2 * nursery_size <= heap_size,
        8 * BYTES_IN_PAGE <= heap_size,
        HEAP_START + crate::nogc::VM_SPACE_EXTENT + heap_size <= HEAP_END,
        old(mmtk).heap.objs@.len() == 0,
    ensures
        final(mmtk).wf(),
        r == !old(mmtk).spec_initialized(),
        r ==> final(mmtk).spec_initialized(),
        !r ==> *final(mmtk) == *old(mmtk),
        r ==> final(mmtk).spec_total_pages() == crate::layout::spec_bytes_to_pages(heap_size),
        r ==> final(mmtk).spec_total_pages() * BYTES_IN_PAGE == heap_size,
        r ==> final(mmtk).spec_pages_committed() == 0 && final(mmtk).spec_pages_reserved() == 0,
        r && final(mmtk).plan is GenCopy
            ==> final(mmtk).plan->GenCopy_0.nursery.common.extent == nursery_size,
{
    mmtk.gc_init(heap_size, nursery_size)
}

/// Attach a VM thread; the returned handle is passed to `allocate`.
pub fn bind_mutator(mmtk: &mut MMTK, tls: usize) -> (r: usize)
    requires
        old(mmtk).wf(),
    ensures
        final(mmtk).wf(),
        r == old(mmtk).mutators@.len(),
        final(mmtk).mutators@.len() == old(mmtk).mutators@.len() + 1,
        final(mmtk).mutators@[r as int].tls == tls,
        final(mmtk).mutators@[r as int].modified_nodes@.len() == 0,
        final(mmtk).mutators@[r as int].modified_edges@.len() == 0,
{
    mmtk.bind_mutator(tls)
}

/// Detach a mutator.
pub fn destroy_mutator(mmtk: &mut MMTK, mutator_id: usize)
    requires
        old(mmtk).wf(),
        mutator_id < old(mmtk).mutators@.len(),
    ensures
        final(mmtk).wf(),
{
    mmtk.destroy_mutator(mutator_id)
}

/// Retire a mutator's local state.
pub fn flush_mutator(mmtk: &mut MMTK, mutator_id: usize) -> (r: (Vec<usize>, Vec<Slot>))
    requires
        old(mmtk).wf(),
        mutator_id < old(mmtk).mutators@.len(),
    ensures
        final(mmtk).wf(),
        r.0@ == old(mmtk).mutators@[mutator_id as int].modified_nodes@,
        r.1@ == old(mmtk).mutators@[mutator_id as int].modified_edges@,
        final(mmtk).heap.objs@ == old(mmtk).heap.objs@,
        final(mmtk).plan == old(mmtk).plan,
        final(mmtk).mutators@[mutator_id as int].modified_nodes@.len() == 0,
        final(mmtk).mutators@[mutator_id as int].modified_edges@.len() == 0,
{
    mmtk.flush_mutator(mutator_id)
}

/// Allocate memory for an object; the allocation slow path.
pub fn allocate(
    mmtk: &mut MMTK,
    mutator_id: usize,
    size: usize,
    align: usize,
    offset: usize,
    semantics: AllocationSemantics,
) -> (r: Result<Address, AllocError>)
    requires
        old(mmtk).wf(),
    ensures
        final(mmtk).wf(),
        (r == Err::<Address, AllocError>(AllocError::AlignmentTooLarge))
            == !crate::mmtk::spec_alignment_ok(align, offset),
        crate::mmtk::spec_alignment_ok(align, offset) && size == 0 ==> r == Ok::<
            Address,
            AllocError,
        >(Address(crate::layout::ZERO_SIZE_SENTINEL)) && *final(mmtk) == *old(mmtk),
        !crate::mmtk::spec_alignment_ok(align, offset) ==> *final(mmtk) == *old(mmtk),
        size >= 1 && !old(mmtk).spec_gc_in_progress() && r is Ok
            ==> !final(mmtk).heap.spec_has(r->Ok_0.0),
        // when no collection intervened, the allocation's whole effect is
        // exact, so accounting after a run of allocations is pinned
        r is Ok && size >= 1 && final(mmtk).spec_gc_count() == old(mmtk).spec_gc_count() ==> {
            &&& final(mmtk).heap == old(mmtk).heap
            &&& (old(mmtk).plan is NoGC ==> crate::nogc::spec_alloc_effect(
                old(mmtk).plan->NoGC_0,
                final(mmtk).plan->NoGC_0,
                r->Ok_0.0,
                size,
                align,
                offset,
                semantics,
            ))
            &&& (old(mmtk).plan is GenCopy ==> crate::gencopy::spec_alloc_effect(
                old(mmtk).plan->GenCopy_0,
                final(mmtk).plan->GenCopy_0,
                r->Ok_0.0,
                size,
                align,
                offset,
                semantics,
            ))
        },
        old(mmtk).plan is NoGC ==> final(mmtk).spec_gc_count() == old(mmtk).spec_gc_count(),
        match r {
            Ok(a) => size >= 1 ==> {
                &&& a.0 >= HEAP_START
                &&& (a.0 + offset) % (align as int) == 0
                &&& crate::mmtk::alloc_landed(*final(mmtk), a.0, size, semantics)
            },
            Err(e) => e == AllocError::AlignmentTooLarge || e == AllocError::OutOfMemory,
        },
        r == Err::<Address, AllocError>(AllocError::OutOfMemory) ==> crate::mmtk::no_fit(
            *final(mmtk),
            size,
            align,
            offset,
            semantics,
        ) || final(mmtk).spec_gc_in_progress(),
        r == Err::<Address, AllocError>(AllocError::OutOfMemory) && old(mmtk).plan is NoGC
            ==> crate::mmtk::no_fit(*old(mmtk), size, align, offset, semantics),
{
    mmtk.allocate(mutator_id, size, align, offset, semantics)
}

/// Install object metadata after an allocation; a no-op for the zero-size
/// sentinel.
pub fn post_alloc(
    mmtk: &mut MMTK,
    refer: ObjectReference,
    type_refer: ObjectReference,
    bytes: usize,
    semantics: AllocationSemantics,
) -> (r: bool)
    requires
        old(mmtk).wf(),
    ensures
        final(mmtk).wf(),
        refer.0 == crate::layout::ZERO_SIZE_SENTINEL ==> r && *final(mmtk) == *old(mmtk),
        !r ==> *final(mmtk) == *old(mmtk),
        r && refer.0 != crate::layout::ZERO_SIZE_SENTINEL ==> final(mmtk).heap.spec_has(refer.0)
            && final(mmtk).heap.spec_at(refer.0).size == bytes,
        final(mmtk).plan == old(mmtk).plan,
        r == (refer.0 == crate::layout::ZERO_SIZE_SENTINEL || {
            &&& refer.0 != 0
            &&& 1 <= bytes
            &&& refer.0 + bytes <= usize::MAX
            &&& !old(mmtk).heap.spec_has(refer.0)
            &&& (match old(mmtk).spec_bound_line(refer.0) {
                Some(line) => refer.0 + bytes <= line,
                None => false,
            })
        }),
{
    mmtk.post_alloc(refer, type_refer, bytes, semantics)
}

/// The allocator a semantic routes to, for compilers generating the
/// allocation fast path.
pub fn get_allocator_mapping(mmtk: &MMTK, semantics: AllocationSemantics) -> (r: AllocatorSelector)
    ensures
        r == (match mmtk.plan {
            SelectedPlan::NoGC(p) => (match semantics {
                AllocationSemantics::LargeObject => AllocatorSelector::LargeObject(0u8),
                _ => AllocatorSelector::BumpPointer(0u8),
            }),
            SelectedPlan::GenCopy(g) => (match semantics {
                AllocationSemantics::LargeObject => AllocatorSelector::LargeObject(0u8),
                AllocationSemantics::Default => AllocatorSelector::BumpPointer(0u8),
                _ => AllocatorSelector::BumpPointer(1u8),
            }),
        }),
{
    match &mmtk.plan {
        SelectedPlan::NoGC(p) => p.get_allocator_mapping(semantics),
        SelectedPlan::GenCopy(g) => g.get_allocator_mapping(semantics),
    }
}

/// Initialize a worker with its thread; packets are handed to it by the
/// drain, round-robin.
pub fn start_worker(tls: usize, worker: &mut GCWorker, mmtk: &MMTK)
    ensures
        final(worker).tls == tls,
        final(worker).ordinal == old(worker).ordinal,
        final(worker).packets_done == old(worker).packets_done,
{
    worker.tls = tls;
}

/// Allow collections to run once the VM has booted.
pub fn enable_collection(mmtk: &mut MMTK, tls: usize)
    requires
        old(mmtk).wf(),
        1 <= old(mmtk).options.threads,
    ensures
        final(mmtk).wf(),
        final(mmtk).scheduler.num_workers == old(mmtk).options.threads,
        final(mmtk).spec_collection_enabled(),
        old(mmtk).collection.workers_spawned < usize::MAX
            ==> final(mmtk).collection.workers_spawned == old(mmtk).collection.workers_spawned
            + 1,
{
    mmtk.enable_collection(tls)
}

/// Set a run-time option by name, the value given in decimal or as
/// `true` / `false`.  Returns false, changing nothing, for an unknown
/// name, an unparsable value or a value out of range.
pub fn process(mmtk: &mut MMTK, name: &str, value: &str) -> (r: bool)
    requires
        old(mmtk).wf(),
    ensures
        final(mmtk).wf(),
        final(mmtk).heap.objs@ == old(mmtk).heap.objs@,
        final(mmtk).plan == old(mmtk).plan,
        match spec_parse_value(value@) {
            Some(v) => {
                &&& r == old(mmtk).options.spec_valid_option(name@, v)
                &&& (r ==> final(mmtk).options == old(mmtk).options.spec_with_option(name@, v))
                &&& (!r ==> final(mmtk).options == old(mmtk).options)
            },
            None => !r && final(mmtk).options == old(mmtk).options,
        },
{
    let parsed = parse_value(value);
    match parsed {
        Some(v) => mmtk.options.process(name, v),
        None => false,
    }
}

/// The value of a digit string, most significant first.
pub open spec fn spec_digits_val(s: Seq<char>) -> int
    decreases s.len(),
{
    if s.len() == 0 {
        0
    } else {
        spec_digits_val(s.drop_last()) * 10 + (s.last() as int - 48)
    }
}

/// Is every character a decimal digit?
pub open spec fn spec_all_digits(s: Seq<char>) -> bool {
    forall|k: int| 0 <= k < s.len() ==> '0' <= #[trigger] s[k] <= '9'
}

/// What a value string denotes: `true` and `false` map to one and zero;
/// otherwise a non-empty digit string whose value fits the machine word.
pub open spec fn spec_parse_value(s: Seq<char>) -> Option<usize> {
    if s == "true"@ {
        Some(1usize)
    } else if s == "false"@ {
        Some(0usize)
    } else if s.len() >= 1 && spec_all_digits(s) && spec_digits_val(s) <= usize::MAX {
        Some(spec_digits_val(s) as usize)
    } else {
        None
    }
}

/// The value of an all-digit string only grows as digits are appended.
proof fn lemma_digits_monotone(s: Seq<char>, j: int)
    requires
        spec_all_digits(s),
        0 <= j <= s.len(),
    ensures
        spec_digits_val(s) >= spec_digits_val(s.subrange(0, j)),
        spec_digits_val(s) >= 0,
    decreases s.len() - j,
{
    if j < s.len() {
        lemma_digits_nonneg(s.subrange(0, j));
        lemma_digits_monotone(s, j + 1);
        assert(s.subrange(0, j + 1).drop_last() =~= s.subrange(0, j));
        assert(s.subrange(0, j + 1).last() == s[j]);
        lemma_digits_nonneg(s.subrange(0, j + 1));
    } else {
        assert(s.subrange(0, j) =~= s);
        lemma_digits_nonneg(s);
    }
}

/// An all-digit string has a non-negative value.
proof fn lemma_digits_nonneg(s: Seq<char>)
    requires
        spec_all_digits(s),
    ensures
        spec_digits_val(s) >= 0,
    decreases s.len(),
{
    if s.len() > 0 {
        assert(spec_all_digits(s.drop_last())) by {
            assert(forall|k: int|
                0 <= k < s.len() - 1 ==> s.drop_last()[k] == #[trigger] s[k]);
        }
        lemma_digits_nonneg(s.drop_last());
        assert('0' <= s[s.len() - 1] <= '9');
    }
}

/// Parse a value string.
pub fn parse_value(s: &str) -> (r: Option<usize>)
    ensures
        r == spec_parse_value(s@),
{
    if crate::options::str_eq(s, "true") {
        return Some(1);
    }
    if crate::options::str_eq(s, "false") {
        return Some(0);
    }
    let n = s.unicode_len();
    if n == 0 {
        proof {
            reveal_strlit("true");
            reveal_strlit("false");
        }
        return None;
    }
    let mut acc: usize = 0;
    let mut i: usize = 0;
    while i < n
        invariant
            n == s@.len(),
            1 <= n,
            i <= n,
            s@ != "true"@,
            s@ != "false"@,
            spec_all_digits(s@.subrange(0, i as int)),
            acc == spec_digits_val(s@.subrange(0, i as int)),
        decreases n - i,
    {
        let c = s.get_char(i);
        if !('0' <= c && c <= '9') {
            proof {
                assert(!spec_all_digits(s@));
            }
            return None;
        }
        let d: usize = (c as u32 as usize) - 48;
        proof {
            assert(s@.subrange(0, i + 1).drop_last() =~= s@.subrange(0, i as int));
            assert(s@.subrange(0, i + 1).last() == s@[i as int]);
        }
        if acc > (usize::MAX - d) / 10 {
            // the digits already read overrun the machine word, and more
            // digits only grow the value
            proof {
                lemma_digits_nonneg(s@.subrange(0, i + 1));
                assert(spec_digits_val(s@.subrange(0, i + 1)) == acc * 10 + d);
                assert(acc * 10 + d > usize::MAX) by {
                    vstd::arithmetic::div_mod::lemma_fundamental_div_mod(
                        (usize::MAX - d) as int,
                        10,
                    );
                    vstd::arithmetic::div_mod::lemma_mod_bound((usize::MAX - d) as int, 10);
                };
                if spec_all_digits(s@) {
                    lemma_digits_monotone(s@, i + 1);
                }
            }
            return None;
        }
        proof {
            assert(acc * 10 + d <= usize::MAX) by {
                vstd::arithmetic::div_mod::lemma_fundamental_div_mod((usize::MAX - d) as int, 10);
                vstd::arithmetic::div_mod::lemma_mod_bound((usize::MAX - d) as int, 10);
                vstd::arithmetic::mul::lemma_mul_inequality(
                    acc as int,
                    ((usize::MAX - d) / 10) as int,
                    10,
                );
            };
        }
        acc = acc * 10 + d;
        i = i + 1;
    }
    proof {
        assert(s@.subrange(0, n as int) =~= s@);
    }
    Some(acc)
}

/// Used memory in bytes: the pages holding data.
pub fn used_bytes(mmtk: &MMTK) -> (r: usize)
    requires
        mmtk.wf(),
        mmtk.spec_initialized(),
    ensures
        r == mmtk.spec_pages_committed() * BYTES_IN_PAGE,
{
    proof {
        lemma_page_byte_bounds(*mmtk);
    }
    let pages = mmtk.get_pages_used();
    pages * BYTES_IN_PAGE
}

/// Free memory in bytes: the budget not reserved by any space.
pub fn free_bytes(mmtk: &MMTK) -> (r: usize)
    requires
        mmtk.wf(),
        mmtk.spec_initialized(),
    ensures
        r == (mmtk.spec_total_pages() - mmtk.spec_pages_reserved()) * BYTES_IN_PAGE,
{
    proof {
        lemma_page_byte_bounds(*mmtk);
    }
    let total = mmtk.get_total_pages();
    let reserved = mmtk.get_pages_reserved();
    (total - reserved) * BYTES_IN_PAGE
}

/// The total memory budget in bytes.
pub fn total_bytes(mmtk: &MMTK) -> (r: usize)
    requires
        mmtk.wf(),
        mmtk.spec_initialized(),
    ensures
        r == mmtk.spec_total_pages() * BYTES_IN_PAGE,
{
    proof {
        lemma_page_byte_bounds(*mmtk);
    }
    let total = mmtk.get_total_pages();
    total * BYTES_IN_PAGE
}

/// Page counts fit the heap range: every byte figure below stays inside a
/// machine word.
pub proof fn lemma_page_byte_bounds(m: MMTK)
    requires
        m.wf(),
        m.spec_initialized(),
    ensures
        0 <= m.spec_pages_committed() <= m.spec_total_pages(),
        0 <= m.spec_pages_reserved() <= m.spec_total_pages(),
        m.spec_pages_committed() <= m.spec_pages_reserved(),
        m.spec_total_pages() * BYTES_IN_PAGE <= 0x7000_0000,
{
    match m.plan {
        SelectedPlan::NoGC(p) => {
            let a = p.unsync.space.common;
            let b = p.unsync.los.common;
            assert(p.common.total_pages * BYTES_IN_PAGE <= 0x7000_0000) by (nonlinear_arith)
                requires
                    p.common.total_pages == a.pr.total + b.pr.total,
                    a.pr.total * BYTES_IN_PAGE == a.extent,
                    b.pr.total * BYTES_IN_PAGE == b.extent,
                    a.extent + b.extent <= 0x7000_0000,
            ;
        },
        SelectedPlan::GenCopy(g) => {
            let a = g.immortal.common;
            let b = g.los.common;
            let c = g.nursery.common;
            let d = g.copyspace0.common;
            let e = g.copyspace1.common;
            assert(g.common.total_pages * BYTES_IN_PAGE <= 0x7000_0000) by (nonlinear_arith)
                requires
                    g.common.total_pages == a.pr.total + b.pr.total + c.pr.total + d.pr.total
                        + e.pr.total,
                    a.pr.total * BYTES_IN_PAGE == a.extent,
                    b.pr.total * BYTES_IN_PAGE == b.extent,
                    c.pr.total * BYTES_IN_PAGE == c.extent,
                    d.pr.total * BYTES_IN_PAGE == d.extent,
                    e.pr.total * BYTES_IN_PAGE == e.extent,
                    a.extent + b.extent + c.extent + d.extent + e.extent <= 0x7000_0000,
            ;
        },
    }
}

/// The starting address of the fixed heap range.
pub fn starting_heap_address() -> (r: Address)
    ensures
        r.0 == HEAP_START,
{
    Address(HEAP_START)
}

/// One past the last address of the fixed heap range.
pub fn last_heap_address() -> (r: Address)
    ensures
        r.0 == HEAP_END,
{
    Address(HEAP_END)
}

/// How many objects of the table lie in `[start, end)`.
pub open spec fn spec_objects_in_region(
    s: Seq<crate::object_model::HeapObject>,
    start: usize,
    end: usize,
) -> int
    decreases s.len(),
{
    if s.len() == 0 {
        0
    } else {
        spec_objects_in_region(s.drop_last(), start, end) + (if start <= s.last().addr
            < end {
            1int
        } else {
            0int
        })
    }
}

/// A linear scan through a contiguous region: count the objects whose
/// headers it holds.
pub fn scan_region(mmtk: &MMTK, start: Address, end: Address) -> (r: usize)
    ensures
        r == spec_objects_in_region(mmtk.heap.objs@, start.0, end.0),
{
    let n = mmtk.heap.objs.len();
    let mut count: usize = 0;
    let mut i: usize = 0;
    while i < n
        invariant
            n == mmtk.heap.objs@.len(),
            i <= n,
            count <= i,
            count == spec_objects_in_region(mmtk.heap.objs@.subrange(0, i as int), start.0, end.0),
        decreases n - i,
    {
        let a = mmtk.heap.objs[i].addr;
        proof {
            assert(mmtk.heap.objs@.subrange(0, i + 1).drop_last() =~= mmtk.heap.objs@.subrange(
                0,
                i as int,
            ));
            assert(mmtk.heap.objs@.subrange(0, i + 1).last() == mmtk.heap.objs@[i as int]);
            lemma_region_count_bound(mmtk.heap.objs@.subrange(0, i as int), start.0, end.0);
        }
        if start.as_usize() <= a && a < end.as_usize() {
            count = count + 1;
        }
        i = i + 1;
    }
    proof {
        assert(mmtk.heap.objs@.subrange(0, n as int) =~= mmtk.heap.objs@);
    }
    count
}

/// The count of a region scan never exceeds the table's length.
proof fn lemma_region_count_bound(s: Seq<crate::object_model::HeapObject>, start: usize, end: usize)
    ensures
        0 <= spec_objects_in_region(s, start, end) <= s.len(),
    decreases s.len(),
{
    if s.len() > 0 {
        lemma_region_count_bound(s.drop_last(), start, end);
    }
}

/// Trigger a collection as the user requested; a request that arrives
/// while one is in flight coalesces with it.
pub fn handle_user_collection_request(mmtk: &mut MMTK, tls: usize)
    requires
        old(mmtk).wf(),
    ensures
        final(mmtk).wf(),
        old(mmtk).spec_gc_in_progress() ==> final(mmtk).spec_gc_count() == old(
            mmtk,
        ).spec_gc_count(),
        // a ready instance serves the request: a collection completes with
        // its full effect, or fails and wedges the instance
        old(mmtk).spec_request_ready() ==> crate::mmtk::spec_collection_completed(
            *old(mmtk),
            *final(mmtk),
            old(mmtk).spec_residency_trigger(),
        ) || crate::mmtk::spec_collection_failed(*old(mmtk), *final(mmtk)),
{
    mmtk.handle_user_collection_request(tls, false)
}

/// Is the object alive?
pub fn is_live_object(mmtk: &MMTK, object: ObjectReference) -> (r: bool)
    requires
        mmtk.wf(),
    ensures
        r == spec_is_live(*mmtk, object.0),
{
    mmtk.is_live_object(object)
}

/// A space's committed pages cover the address.
pub open spec fn spec_is_mapped(m: MMTK, addr: usize) -> bool {
    match m.plan {
        SelectedPlan::NoGC(p) => crate::nogc::space_maps(p.unsync.space.common, addr)
            || crate::nogc::space_maps(p.unsync.vm_space.common, addr) || crate::nogc::space_maps(
            p.unsync.los.common,
            addr,
        ),
        SelectedPlan::GenCopy(g) => crate::nogc::space_maps(g.vm_space.common, addr)
            || crate::nogc::space_maps(g.immortal.common, addr) || crate::nogc::space_maps(
            g.los.common,
            addr,
        ) || crate::nogc::space_maps(g.nursery.common, addr) || crate::nogc::space_maps(
            g.copyspace0.common,
            addr,
        ) || crate::nogc::space_maps(g.copyspace1.common, addr),
    }
}

/// Is the address in mapped memory?
pub fn is_mapped_address(mmtk: &MMTK, address: Address) -> (r: bool)
    requires
        mmtk.wf(),
    ensures
        r == spec_is_mapped(*mmtk, address.0),
{
    match &mmtk.plan {
        SelectedPlan::NoGC(p) => p.is_mapped_address(address),
        SelectedPlan::GenCopy(g) => {
            crate::nogc::common_maps_address(&g.vm_space.common, address.0)
                || crate::nogc::common_maps_address(&g.immortal.common, address.0)
                || crate::nogc::common_maps_address(&g.los.common, address.0)
                || crate::nogc::common_maps_address(&g.nursery.common, address.0)
                || crate::nogc::common_maps_address(&g.copyspace0.common, address.0)
                || crate::nogc::common_maps_address(&g.copyspace1.common, address.0)
        },
    }
}

/// Is the object in mapped memory?
pub fn is_mapped_object(mmtk: &MMTK, object: ObjectReference) -> (r: bool)
    requires
        mmtk.wf(),
    ensures
        r == (object.0 != 0 && spec_is_mapped(*mmtk, object.0)),
{
    !object.is_null() && is_mapped_address(mmtk, object.to_address())
}

/// May the object move?  During a collection a movable object must not be
/// modified in place; the check fails then.
pub fn modify_check(mmtk: &MMTK, object: ObjectReference) -> (r: bool)
    requires
        mmtk.wf(),
    ensures
        r == !(mmtk.spec_gc_in_progress() && (match mmtk.plan {
            SelectedPlan::NoGC(p) => false,
            SelectedPlan::GenCopy(g) => g.nursery.spec_in_space(object.0)
                || g.copyspace0.spec_in_space(object.0) || g.copyspace1.spec_in_space(object.0),
        })),
{
    match &mmtk.plan {
        SelectedPlan::NoGC(p) => true,
        SelectedPlan::GenCopy(g) => {
            let movable = g.nursery.in_space(object) || g.copyspace0.in_space(object)
                || g.copyspace1.in_space(object);
            !(g.common.gc_in_progress && movable)
        },
    }
}

/// Queue a weak reference with its referent.
pub fn add_weak_candidate(mmtk: &mut MMTK, reff: ObjectReference, referent: ObjectReference)
    requires
        old(mmtk).wf(),
    ensures
        final(mmtk).wf(),
        final(mmtk).reference_processors.weak@ == old(mmtk).reference_processors.weak@.push(
            (crate::reference_processor::RefPair { reff: reff.0, referent: referent.0 }),
        ),
        final(mmtk).reference_processors.soft@ == old(mmtk).reference_processors.soft@,
        final(mmtk).reference_processors.phantom@ == old(mmtk).reference_processors.phantom@,
        final(mmtk).reference_processors.enqueued@ == old(mmtk).reference_processors.enqueued@,
        final(mmtk).heap == old(mmtk).heap,
        final(mmtk).plan == old(mmtk).plan,
{
    mmtk.reference_processors.add_weak_candidate(reff.value(), referent.value())
}

/// Queue a soft reference with its referent.
pub fn add_soft_candidate(mmtk: &mut MMTK, reff: ObjectReference, referent: ObjectReference)
    requires
        old(mmtk).wf(),
    ensures
        final(mmtk).wf(),
        final(mmtk).reference_processors.soft@ == old(mmtk).reference_processors.soft@.push(
            (crate::reference_processor::RefPair { reff: reff.0, referent: referent.0 }),
        ),
        final(mmtk).reference_processors.weak@ == old(mmtk).reference_processors.weak@,
        final(mmtk).reference_processors.phantom@ == old(mmtk).reference_processors.phantom@,
        final(mmtk).reference_processors.enqueued@ == old(mmtk).reference_processors.enqueued@,
        final(mmtk).heap == old(mmtk).heap,
        final(mmtk).plan == old(mmtk).plan,
{
    mmtk.reference_processors.add_soft_candidate(reff.value(), referent.value())
}

/// Queue a phantom reference with its referent.
pub fn add_phantom_candidate(mmtk: &mut MMTK, reff: ObjectReference, referent: ObjectReference)
    requires
        old(mmtk).wf(),
    ensures
        final(mmtk).wf(),
        final(mmtk).reference_processors.phantom@ == old(mmtk).reference_processors.phantom@.push(
            (crate::reference_processor::RefPair { reff: reff.0, referent: referent.0 }),
        ),
        final(mmtk).reference_processors.soft@ == old(mmtk).reference_processors.soft@,
        final(mmtk).reference_processors.weak@ == old(mmtk).reference_processors.weak@,
        final(mmtk).reference_processors.enqueued@ == old(mmtk).reference_processors.enqueued@,
        final(mmtk).heap == old(mmtk).heap,
        final(mmtk).plan == old(mmtk).plan,
{
    mmtk.reference_processors.add_phantom_candidate(reff.value(), referent.value())
}

/// Begin a harnessed benchmark run: force a full collection and record.
pub fn harness_begin(mmtk: &mut MMTK, tls: usize)
    requires
        old(mmtk).wf(),
    ensures
        final(mmtk).wf(),
        final(mmtk).inside_harness,
        // the forced full-heap collection happened, with its full effect,
        // unless it failed and wedged the instance
        old(mmtk).spec_request_ready() ==> crate::mmtk::spec_collection_completed(
            *old(mmtk),
            *final(mmtk),
            true,
        ) || crate::mmtk::spec_collection_failed(*old(mmtk), *final(mmtk)),
{
    mmtk.harness_begin(tls)
}

/// End a harnessed benchmark run.
pub fn harness_end(mmtk: &mut MMTK)
    requires
        old(mmtk).wf(),
    ensures
        final(mmtk).wf(),
        !final(mmtk).inside_harness,
{
    mmtk.harness_end()
}

} // verus!
