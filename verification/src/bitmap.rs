//! The 4096-bit free-block bitmap of the `bitmap_allocator` crate, seen
//! through the set of bits that it currently marks free.

use bitmap_allocator::{BitAlloc, BitAlloc4K};
use vstd::prelude::*;
use vstd::arithmetic::power2::pow2;

verus! {

/// Number of bits in a `BitAlloc4K`.
pub const BITMAP_CAPACITY: usize = 4096;

/// A `BitAlloc4K` of the `bitmap_allocator` crate. Its generic cascade type
/// is bounded by the crate's own trait, which Verus cannot take as a bound,
/// so the bitmap is held here, out of Verus's sight, and known only through
/// `free_bits` and the functions below.
#[verifier::external_body]
pub struct FreeBitmap {
    bits: BitAlloc4K,
}

/// The bits that the bitmap marks free (available for allocation).
pub uninterp spec fn free_bits(bitmap: FreeBitmap) -> Set<usize>;

/// Every bit of a 4096-bit map lies below its capacity.
pub open spec fn within_capacity(bits: Set<usize>) -> bool {
    forall|i: usize| #[trigger] bits.contains(i) ==> i < BITMAP_CAPACITY
}

/// The indices `start .. start + count` as a set.
pub open spec fn index_range(start: int, count: int) -> Set<usize> {
    Set::new(|i: usize| start <= i < start + count)
}

/// A run of `size` bits that starts at `base`, is aligned to
/// `2^align_log2`, lies inside the bitmap and is entirely free.
pub open spec fn fits(free: Set<usize>, base: int, size: int, align_log2: nat) -> bool {
    &&& 0 <= base
    &&& base % (pow2(align_log2) as int) == 0
    &&& base + size <= BITMAP_CAPACITY
    &&& forall|j: int| base <= j < base + size ==> #[trigger] free.contains(j as usize)
}

/// A fitting run with no fitting run below it.
pub open spec fn is_first_fit(free: Set<usize>, base: int, size: int, align_log2: nat) -> bool {
    &&& fits(free, base, size, align_log2)
    &&& forall|b: int| 0 <= b < base ==> !#[trigger] fits(free, b, size, align_log2)
}

/// Whether a contiguous request can be served at all: a non-empty run,
/// an alignment no larger than the bitmap, and some fitting run.
pub open spec fn can_fit(free: Set<usize>, size: usize, align_log2: usize) -> bool {
    &&& size >= 1
    &&& align_log2 <= 12
    &&& exists|b: int| fits(free, b, size as int, align_log2 as nat)
}

/// The lowest aligned start of a free run of `size` bits, if there is one.
pub open spec fn first_fit(free: Set<usize>, size: usize, align_log2: usize) -> Option<usize> {
    if can_fit(free, size, align_log2) {
        Some((choose|b: int| is_first_fit(free, b, size as int, align_log2 as nat)) as usize)
    } else {
        None
    }
}

/// The free set after a contiguous request: the chosen run is taken out,
/// or nothing changes when no run fits.
pub open spec fn after_alloc(free: Set<usize>, size: usize, align_log2: usize) -> Set<usize> {
    match first_fit(free, size, align_log2) {
        Some(base) => free.difference(index_range(base as int, size as int)),
        None => free,
    }
}

/// Among the starts of fitting runs there is a least one.
pub proof fn lemma_first_fit_exists(free: Set<usize>, b: int, size: int, align_log2: nat)
    requires
        fits(free, b, size, align_log2),
    ensures
        exists|m: int| is_first_fit(free, m, size, align_log2),
    decreases b,
{
    if forall|c: int| 0 <= c < b ==> !#[trigger] fits(free, c, size, align_log2) {
        assert(is_first_fit(free, b, size, align_log2));
    } else {
        let c = choose|c: int| 0 <= c < b && #[trigger] fits(free, c, size, align_log2);
        lemma_first_fit_exists(free, c, size, align_log2);
    }
}

/// What `first_fit` returns: the least fitting start when a run can be
/// served, and nothing otherwise.
pub proof fn lemma_first_fit(free: Set<usize>, size: usize, align_log2: usize)
    ensures
        first_fit(free, size, align_log2) is None <==> !can_fit(free, size, align_log2),
        first_fit(free, size, align_log2) matches Some(base) ==> is_first_fit(
            free,
            base as int,
            size as int,
            align_log2 as nat,
        ),
{
    if can_fit(free, size, align_log2) {
        let b = choose|b: int| fits(free, b, size as int, align_log2 as nat);
        lemma_first_fit_exists(free, b, size as int, align_log2 as nat);
        let m = choose|m: int| is_first_fit(free, m, size as int, align_log2 as nat);
        assert(0 <= m && m <= BITMAP_CAPACITY);
        assert(m as usize as int == m);
    }
}

/// `BitAlloc4K::DEFAULT`: a bitmap in which no bit is free.
#[verifier::external_body]
pub fn bitmap_empty() -> (bitmap: FreeBitmap)
    ensures
        free_bits(bitmap) == Set::<usize>::empty(),
{
    FreeBitmap { bits: BitAlloc4K::DEFAULT }
}

/// `BitAlloc::insert` on `start..end`: marks those bits free and leaves the
/// others as they were. The crate asserts `start <= end <= CAP` and computes
/// `end - 1`, so an `end` of zero is left out.
#[verifier::external_body]
pub fn bitmap_insert(bitmap: &mut FreeBitmap, start: usize, end: usize)
    requires
        start <= end <= BITMAP_CAPACITY,
        0 < end,
    ensures
        free_bits(*final(bitmap)) == free_bits(*old(bitmap)).union(
            index_range(start as int, end - start),
        ),
    no_unwind
{
    bitmap.bits.insert(start..end)
}

/// `BitAlloc::alloc`: takes the lowest free bit, or returns `None` and
/// changes nothing when no bit is free.
#[verifier::external_body]
pub fn bitmap_alloc(bitmap: &mut FreeBitmap) -> (index: Option<usize>)
    ensures
        index == first_fit(free_bits(*old(bitmap)), 1, 0),
        free_bits(*final(bitmap)) == after_alloc(free_bits(*old(bitmap)), 1, 0),
    no_unwind
{
    bitmap.bits.alloc()
}

/// `BitAlloc::alloc_contiguous` with no requested base: takes the lowest
/// start aligned to `2^align_log2` of a free run of `size` bits (none for a
/// `size` of zero or an alignment above the capacity) and marks that run
/// used; changes nothing when it returns `None`.
#[verifier::external_body]
pub fn bitmap_alloc_contiguous(bitmap: &mut FreeBitmap, size: usize, align_log2: usize) -> (base:
    Option<usize>)
    ensures
        base == first_fit(free_bits(*old(bitmap)), size, align_log2),
        free_bits(*final(bitmap)) == after_alloc(free_bits(*old(bitmap)), size, align_log2),
    no_unwind
{
    bitmap.bits.alloc_contiguous(None, size, align_log2)
}

/// `BitAlloc::dealloc`: marks bit `key` free and tells whether it was in
/// use. A `key` at or above the capacity panics in the crate.
#[verifier::external_body]
pub fn bitmap_dealloc(bitmap: &mut FreeBitmap, key: usize) -> (was_used: bool)
    requires
        key < BITMAP_CAPACITY,
    ensures
        free_bits(*final(bitmap)) == free_bits(*old(bitmap)).insert(key),
        was_used == !free_bits(*old(bitmap)).contains(key),
    no_unwind
{
    bitmap.bits.dealloc(key)
}

} // verus!
