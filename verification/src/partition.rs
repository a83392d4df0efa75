//! Partitioning the 64-bit index space among workers.
//!
//! A run splits an interval of the index space into one contiguous,
//! non-empty range per worker, with no gap and no overlap, so that no
//! two workers ever test the same index.  Worker `j` of `k` over an
//! interval of `width` indices beginning at `lo` starts at
//! `lo + (j * width) / k`.  A hybrid run reserves the first half of the
//! space for the batch accelerator and splits the second half among the
//! CPU workers.

use vstd::prelude::*;
use vstd::arithmetic::div_mod::{
    lemma_div_is_ordered, lemma_div_multiples_vanish, lemma_div_plus_one, lemma_div_pos_is_pos,
};

verus! {

/// A contiguous range of search indices, both bounds inclusive.
#[derive(Clone, Copy, PartialEq, Eq, Structural, Debug)]
pub struct IndexRange {
    pub start: u64,
    pub last: u64,
}

/// Whether an index lies in a range.
pub open spec fn range_contains(r: IndexRange, i: int) -> bool {
    r.start <= i <= r.last
}

/// Where worker `j` of `workers` begins, over the interval of `width`
/// indices starting at `lo`.
pub open spec fn slice_start(lo: int, width: int, workers: int, j: int) -> int {
    lo + (j * width) / workers
}

/// A sequence of ranges that tiles the interval `[lo, lo + width)`:
/// the first range begins at `lo`, the last ends at `lo + width - 1`,
/// every range is non-empty, and each range begins right after its
/// predecessor ends.
pub open spec fn is_partition(ranges: Seq<IndexRange>, lo: int, width: int) -> bool {
    &&& ranges.len() >= 1
    &&& ranges[0].start == lo
    &&& ranges[ranges.len() - 1].last == lo + width - 1
    &&& forall|j: int| 0 <= j < ranges.len() ==> (#[trigger] ranges[j]).start <= ranges[j].last
    &&& forall|j: int|
        0 <= j < ranges.len() - 1 ==> (#[trigger] ranges[j]).last + 1 == ranges[j + 1].start
}

/// Consecutive slice starts are at least one index apart when the
/// interval has at least one index per worker.
proof fn lemma_slice_step(width: int, workers: int, j: int)
    requires
        0 < workers <= width,
        0 <= j,
    ensures
        (j * width) / workers + 1 <= ((j + 1) * width) / workers,
{
    let a = j * width;
    assert((j + 1) * width == j * width + width) by (nonlinear_arith);
    lemma_div_plus_one(a, workers);
    lemma_div_is_ordered(workers + a, a + width, workers);
}

/// Every slice start lies in the interval.
proof fn lemma_slice_in_space(width: int, workers: int, j: int)
    requires
        0 < workers <= width,
        0 <= j <= workers,
    ensures
        0 <= (j * width) / workers <= width,
{
    assert(0 <= j * width) by (nonlinear_arith)
        requires
            0 <= j && 0 < width,
    ;
    lemma_div_pos_is_pos(j * width, workers);
    assert(j * width <= workers * width) by (nonlinear_arith)
        requires
            j <= workers && 0 < width,
    ;
    lemma_div_is_ordered(j * width, workers * width, workers);
    lemma_div_multiples_vanish(width, workers);
}

/// Splits the interval of `width` indices beginning at `lo` into one
/// contiguous non-empty range per worker, with no gap and no overlap.
pub fn partition_interval(lo: u64, width: u128, workers: u64) -> (ranges: Vec<IndexRange>)
    requires
        1 <= workers,
        workers as int <= width as int,
        lo as int + width as int <= u64::MAX as int + 1,
    ensures
        ranges@.len() == workers,
        forall|j: int|
            0 <= j < workers ==> (#[trigger] ranges@[j]).start == slice_start(
                lo as int,
                width as int,
                workers as int,
                j,
            ),
        forall|j: int|
            0 <= j < workers ==> (#[trigger] ranges@[j]).last == slice_start(
                lo as int,
                width as int,
                workers as int,
                j + 1,
            ) - 1,
        is_partition(ranges@, lo as int, width as int),
{
    let ghost l: int = lo as int;
    let ghost w: int = width as int;
    let ghost k: int = workers as int;
    let mut ranges: Vec<IndexRange> = Vec::new();
    let mut j: u64 = 0;
    while j < workers
        invariant
            j <= workers,
            1 <= workers,
            l == lo as int,
            w == width as int,
            k == workers as int,
            k <= w,
            l + w <= u64::MAX as int + 1,
            ranges@.len() == j,
            forall|m: int|
                0 <= m < j ==> (#[trigger] ranges@[m]).start == slice_start(l, w, k, m),
            forall|m: int|
                0 <= m < j ==> (#[trigger] ranges@[m]).last == slice_start(l, w, k, m + 1) - 1,
        decreases workers - j,
    {
        proof {
            assert((j as int) * w <= (k - 1) * w && (k - 1) * w <= (w - 1) * w && (w - 1) * w
                < 0x1_0000_0000_0000_0000_0000_0000_0000_0000) by (nonlinear_arith)
                requires
                    0 <= j as int <= k - 1 && 0 < k <= w
                        <= 0x1_0000_0000_0000_0000,
            ;
            assert((j as int + 1) * w <= k * w && k * w <= 0xffff_ffff_ffff_ffff * w && 0xffff_ffff_ffff_ffff * w
                < 0x1_0000_0000_0000_0000_0000_0000_0000_0000) by (nonlinear_arith)
                requires
                    0 <= j as int && j as int + 1 <= k && 0 < k <= 0xffff_ffff_ffff_ffff && k <= w
                        <= 0x1_0000_0000_0000_0000,
            ;
            lemma_slice_step(w, k, j as int);
            lemma_slice_in_space(w, k, j as int);
            lemma_slice_in_space(w, k, j as int + 1);
        }
        let start128: u128 = (j as u128) * width / (workers as u128);
        let end128: u128 = (j as u128 + 1) * width / (workers as u128);
        let start: u64 = lo + (start128 as u64);
        let last: u64 = lo + ((end128 - 1) as u64);
        ranges.push(IndexRange { start, last });
        j += 1;
    }
    proof {
        assert(ranges@[0].start == slice_start(l, w, k, 0));
        assert(slice_start(l, w, k, 0) == l);
        lemma_div_multiples_vanish(w, k);
        assert(ranges@[k - 1].last == slice_start(l, w, k, k) - 1);
        assert((k * w) / k == w);
        assert(k * w == w * k) by (nonlinear_arith);
        assert forall|m: int| 0 <= m < ranges@.len() implies (#[trigger] ranges@[m]).start
            <= ranges@[m].last by {
            lemma_slice_step(w, k, m);
        }
        assert forall|m: int| 0 <= m < ranges@.len() - 1 implies (#[trigger] ranges@[m]).last + 1
            == ranges@[m + 1].start by {}
    }
    ranges
}

/// Splits the whole index space among the given number of workers.
pub fn partition_space(workers: u64) -> (ranges: Vec<IndexRange>)
    requires
        1 <= workers,
    ensures
        ranges@.len() == workers,
        forall|j: int|
            0 <= j < workers ==> (#[trigger] ranges@[j]).start == slice_start(
                0,
                0x1_0000_0000_0000_0000,
                workers as int,
                j,
            ),
        forall|j: int|
            0 <= j < workers ==> (#[trigger] ranges@[j]).last == slice_start(
                0,
                0x1_0000_0000_0000_0000,
                workers as int,
                j + 1,
            ) - 1,
        is_partition(ranges@, 0, 0x1_0000_0000_0000_0000),
{
    partition_interval(0, 0x1_0000_0000_0000_0000u128, workers)
}

/// The ranges of a hybrid run: the accelerator owns the first half of
/// the index space, and the CPU workers split the second half.  Together
/// the ranges tile the whole space.
pub fn hybrid_plan(cpu_workers: u64) -> (plan: (IndexRange, Vec<IndexRange>))
    requires
        1 <= cpu_workers <= 0x8000_0000_0000_0000,
    ensures
        plan.0.start == 0,
        plan.0.last == 0x7fff_ffff_ffff_ffff,
        plan.1@.len() == cpu_workers,
        forall|j: int|
            0 <= j < cpu_workers ==> (#[trigger] plan.1@[j]).start == slice_start(
                0x8000_0000_0000_0000,
                0x8000_0000_0000_0000,
                cpu_workers as int,
                j,
            ),
        forall|j: int|
            0 <= j < cpu_workers ==> (#[trigger] plan.1@[j]).last == slice_start(
                0x8000_0000_0000_0000,
                0x8000_0000_0000_0000,
                cpu_workers as int,
                j + 1,
            ) - 1,
        is_partition(seq![plan.0] + plan.1@, 0, 0x1_0000_0000_0000_0000),
{
    let accelerator = IndexRange { start: 0, last: 0x7fff_ffff_ffff_ffff };
    let cpu = partition_interval(0x8000_0000_0000_0000, 0x8000_0000_0000_0000u128, cpu_workers);
    proof {
        let all = seq![accelerator] + cpu@;
        assert(all.len() == cpu@.len() + 1);
        assert(all[0] == accelerator);
        assert forall|j: int| 1 <= j < all.len() implies all[j] == cpu@[j - 1] by {}
        assert(all[all.len() - 1].last == 0x1_0000_0000_0000_0000 - 1);
        assert forall|j: int| 0 <= j < all.len() implies (#[trigger] all[j]).start
            <= all[j].last by {
            if j >= 1 {
                assert(cpu@[j - 1].start <= cpu@[j - 1].last);
            }
        }
        assert forall|j: int| 0 <= j < all.len() - 1 implies (#[trigger] all[j]).last + 1 == all[j
            + 1].start by {
            if j == 0 {
                assert(cpu@[0].start == slice_start(
                    0x8000_0000_0000_0000,
                    0x8000_0000_0000_0000,
                    cpu_workers as int,
                    0,
                ));
            } else {
                assert(cpu@[j - 1].last + 1 == cpu@[j].start);
            }
        }
    }
    (accelerator, cpu)
}

/// Ranges with strictly increasing positions never overlap.
proof fn lemma_ranges_ordered(ranges: Seq<IndexRange>, lo: int, width: int, j1: int, j2: int)
    requires
        is_partition(ranges, lo, width),
        0 <= j1 <= j2 < ranges.len(),
    ensures
        ranges[j1].last <= ranges[j2].last,
        j1 < j2 ==> ranges[j1].last < ranges[j2].start,
    decreases j2 - j1,
{
    if j1 < j2 {
        lemma_ranges_ordered(ranges, lo, width, j1, j2 - 1);
        assert(ranges[j2 - 1].last + 1 == ranges[j2].start);
        assert(ranges[j2].start <= ranges[j2].last);
    }
}

/// Every index at or below the end of range `m` and at or above `lo`
/// lies in one of the ranges up to `m`.
proof fn lemma_prefix_covers(ranges: Seq<IndexRange>, lo: int, width: int, i: int, m: int)
    requires
        is_partition(ranges, lo, width),
        0 <= m < ranges.len(),
        lo <= i <= ranges[m].last,
    ensures
        exists|j: int| 0 <= j <= m && #[trigger] range_contains(ranges[j], i),
    decreases m,
{
    if ranges[m].start <= i {
        assert(range_contains(ranges[m], i));
    } else {
        assert(m != 0);
        assert(ranges[m - 1].last + 1 == ranges[m].start);
        lemma_prefix_covers(ranges, lo, width, i, m - 1);
    }
}

/// A partition of an interval covers every index of the interval
/// exactly once: each index lies in some range, and distinct ranges are
/// disjoint.
pub proof fn lemma_partition_disjoint_cover(ranges: Seq<IndexRange>, lo: int, width: int, i: int)
    requires
        is_partition(ranges, lo, width),
        lo <= i < lo + width,
    ensures
        exists|j: int| 0 <= j < ranges.len() && #[trigger] range_contains(ranges[j], i),
        forall|j1: int, j2: int|
            0 <= j1 < j2 < ranges.len() ==> (#[trigger] ranges[j1]).last < (
            #[trigger] ranges[j2]).start,
{
    lemma_prefix_covers(ranges, lo, width, i, ranges.len() - 1);
    assert forall|j1: int, j2: int| 0 <= j1 < j2 < ranges.len() implies (
    #[trigger] ranges[j1]).last < (#[trigger] ranges[j2]).start by {
        lemma_ranges_ordered(ranges, lo, width, j1, j2);
    }
}

} // verus!
