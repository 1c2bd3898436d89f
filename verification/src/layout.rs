//! Virtual-memory layout constants and the two address types: `Address`, an
//! untyped word-sized machine address, and `ObjectReference`, an address known
//! to point at a well-formed object header.

use vstd::prelude::*;

verus! {

/// Log2 of the page size in bytes.
pub const LOG_BYTES_IN_PAGE: usize = 12;

/// The page size in bytes; a power of two.
pub const BYTES_IN_PAGE: usize = 4096;

/// First address of the fixed heap range.
pub const HEAP_START: usize = 0x1000_0000;

/// One past the last address of the fixed heap range.
pub const HEAP_END: usize = 0x7000_0000;

/// The distinguished non-null address returned for zero-sized allocation
/// requests.  It lies below `HEAP_START`, so no space ever contains it.
pub const ZERO_SIZE_SENTINEL: usize = 0x1000;

/// The smallest alignment any object is given; copies are placed at this
/// alignment.
pub const MIN_OBJECT_ALIGN: usize = 8;

/// A word-sized untyped machine address.
#[derive(Clone, Copy, PartialEq, Eq, Structural, Debug)]
pub struct Address(pub usize);

/// An address known to point at a well-formed object header; `null`
/// (the zero address) is a distinguished sentinel.
#[derive(Clone, Copy, PartialEq, Eq, Structural, Debug)]
pub struct ObjectReference(pub usize);

impl Address {
    pub fn as_usize(self) -> (r: usize)
        ensures
            r == self.0,
    {
        self.0
    }

    pub fn is_zero(self) -> (r: bool)
        ensures
            r == (self.0 == 0),
    {
        self.0 == 0
    }

    /// Reinterpret this address as an object reference, without any check.
    pub fn to_object_reference(self) -> (r: ObjectReference)
        ensures
            r.0 == self.0,
    {
        ObjectReference(self.0)
    }
}

impl ObjectReference {
    pub fn is_null(self) -> (r: bool)
        ensures
            r == (self.0 == 0),
    {
        self.0 == 0
    }

    pub fn value(self) -> (r: usize)
        ensures
            r == self.0,
    {
        self.0
    }

    pub fn to_address(self) -> (r: Address)
        ensures
            r.0 == self.0,
    {
        Address(self.0)
    }
}

/// The null object reference.
pub fn null_ref() -> (r: ObjectReference)
    ensures
        r.0 == 0,
{
    ObjectReference(0)
}

/// Is `align` a legal object alignment: a power of two no larger than a page?
pub open spec fn spec_align_legal(align: usize) -> bool {
    is_power_of_two(align as nat) && align <= BYTES_IN_PAGE
}

/// Is `n` a power of two?
pub open spec fn is_power_of_two(n: nat) -> bool
    decreases n,
{
    if n == 0 {
        false
    } else if n == 1 {
        true
    } else {
        n % 2 == 0 && is_power_of_two(n / 2)
    }
}

/// Runtime check matching `spec_align_legal`.
pub fn align_legal(align: usize) -> (r: bool)
    ensures
        r == spec_align_legal(align),
{
    align_is_power_of_two(align) && align <= BYTES_IN_PAGE
}

/// Runtime power-of-two check.
pub fn align_is_power_of_two(n: usize) -> (r: bool)
    ensures
        r == is_power_of_two(n as nat),
{
    let mut m: usize = n;
    if m == 0 {
        return false;
    }
    while m > 1
        invariant
            m >= 1,
            is_power_of_two(n as nat) == is_power_of_two(m as nat),
        decreases m,
    {
        if m % 2 != 0 {
            return false;
        }
        m = m / 2;
    }
    true
}

/// The smallest `r >= base` with `(r + offset) % align == 0`.
pub open spec fn spec_align_up(base: usize, align: usize, offset: usize) -> int
    recommends
        align >= 1,
{
    base + (sub_mod(align as int, (base + offset) % (align as int)) % (align as int))
}

/// Helper: `align - rem`, as an `int` expression.
pub open spec fn sub_mod(align: int, rem: int) -> int {
    align - rem
}

/// Align `base` upward so that the result plus `offset` is a multiple of
/// `align`.  Returns `None` when the aligned value would not fit in `usize`.
pub fn align_allocation(base: usize, align: usize, offset: usize) -> (r: Option<usize>)
    requires
        spec_align_legal(align),
        offset < BYTES_IN_PAGE,
    ensures
        match r {
            Some(a) => {
                &&& a == spec_align_up(base, align, offset)
                &&& a >= base
                &&& a < base + align
                &&& (a + offset) % (align as int) == 0
            },
            None => base + align > usize::MAX,
        },
{
    proof {
        lemma_power_of_two_pos(align as nat);
    }
    let rem: usize = (base % align + offset % align) % align;
    let pad: usize = (align - rem) % align;
    if base <= usize::MAX - pad {
        proof {
            lemma_align_up_math(base as int, align as int, offset as int);
        }
        Some(base + pad)
    } else {
        proof {
            lemma_align_up_math(base as int, align as int, offset as int);
        }
        None
    }
}

/// The minimum object alignment is itself legal.
pub proof fn lemma_min_align_legal()
    ensures
        spec_align_legal(MIN_OBJECT_ALIGN),
{
    reveal_with_fuel(is_power_of_two, 5);
}

proof fn lemma_power_of_two_pos(n: nat)
    requires
        is_power_of_two(n),
    ensures
        n >= 1,
    decreases n,
{
}

/// Arithmetic facts behind `align_allocation`: the padding computed from the
/// remainders is exactly the distance to the next aligned point.
proof fn lemma_align_up_math(base: int, align: int, offset: int)
    requires
        align >= 1,
        base >= 0,
        offset >= 0,
    ensures
        ((base % align + offset % align) % align) == (base + offset) % align,
        (align - ((base + offset) % align)) % align == (align - (base + offset) % align) % align,
        base + ((align - (base + offset) % align) % align) == base + (sub_mod(
            align,
            (base + offset) % align,
        ) % align),
        (base + ((align - (base + offset) % align) % align) + offset) % align == 0,
        ((align - (base + offset) % align) % align) < align,
{
    let s = base + offset;
    vstd::arithmetic::div_mod::lemma_add_mod_noop(base, offset, align);
    vstd::arithmetic::div_mod::lemma_mod_bound(s, align);
    let r = s % align;
    let pad = (align - r) % align;
    vstd::arithmetic::div_mod::lemma_mod_bound(align - r, align);
    assert(0 <= r < align);
    if r == 0 {
        vstd::arithmetic::div_mod::lemma_mod_self_0(align);
        assert(pad == 0);
        vstd::arithmetic::div_mod::lemma_add_mod_noop(base + pad, offset, align);
        vstd::arithmetic::div_mod::lemma_mod_twice(s, align);
    } else {
        vstd::arithmetic::div_mod::lemma_small_mod((align - r) as nat, align as nat);
        assert(pad == align - r);
        assert((s + pad) % align == 0) by {
            vstd::arithmetic::div_mod::lemma_fundamental_div_mod(s, align);
            vstd::arithmetic::mul::lemma_mul_is_distributive_add(align, s / align, 1);
            assert(s + pad == align * (s / align + 1));
            vstd::arithmetic::div_mod::lemma_mod_multiples_vanish(s / align + 1, 0, align);
            vstd::arithmetic::div_mod::lemma_small_mod(0, align as nat);
        };
    }
}

/// A page-aligned byte count converts to exactly its quotient in pages.
pub proof fn lemma_aligned_extent_pages(extent: usize)
    requires
        extent as int % (BYTES_IN_PAGE as int) == 0,
    ensures
        spec_bytes_to_pages(extent) == extent as int / (BYTES_IN_PAGE as int),
{
    let p = BYTES_IN_PAGE as int;
    vstd::arithmetic::div_mod::lemma_fundamental_div_mod(extent as int, p);
    let q = extent as int / p;
    assert(extent == p * q);
    assert(extent + p - 1 == p * q + (p - 1));
    vstd::arithmetic::div_mod::lemma_hoist_over_denominator(p - 1, q, p as nat);
    assert((p - 1) / p == 0) by {
        vstd::arithmetic::div_mod::lemma_basic_div(p - 1, p);
    };
    assert((p - 1 + q * p) / p == q);
    assert(extent + p - 1 == p - 1 + q * p) by {
        vstd::arithmetic::mul::lemma_mul_is_commutative(p, q);
    };
}

/// Number of pages needed to hold `bytes` bytes (rounded up).
pub open spec fn spec_bytes_to_pages(bytes: usize) -> int {
    (bytes + BYTES_IN_PAGE - 1) as int / (BYTES_IN_PAGE as int)
}

/// Convert a byte count to a page count, rounding up.
pub fn bytes_to_pages(bytes: usize) -> (r: usize)
    requires
        bytes <= usize::MAX - BYTES_IN_PAGE,
    ensures
        r == spec_bytes_to_pages(bytes),
        bytes <= r * BYTES_IN_PAGE,
        bytes > 0 ==> r >= 1,
{
    let r = (bytes + (BYTES_IN_PAGE - 1)) / BYTES_IN_PAGE;
    proof {
        vstd::arithmetic::div_mod::lemma_fundamental_div_mod(
            bytes + BYTES_IN_PAGE - 1,
            BYTES_IN_PAGE as int,
        );
        vstd::arithmetic::div_mod::lemma_mod_bound(
            bytes + BYTES_IN_PAGE - 1,
            BYTES_IN_PAGE as int,
        );
    }
    r
}

} // verus!
