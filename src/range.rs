use vstd::prelude::*;

use crate::point::{lemma_lower_bound_at, lemma_lower_bound_bounds, lower_bound, sorted_by_x, Point};

verus! {

/// The index range `[start, end)` of the points with `lo <= x < hi` in an
/// x-sorted sequence. When `lo > hi` no point qualifies and the range is empty.
pub open spec fn index_range_spec(s: Seq<Point>, lo: i64, hi: i64) -> (nat, nat) {
    let start = lower_bound(s, lo);
    let end = lower_bound(s, hi);
    if end < start {
        (start, start)
    } else {
        (start, end)
    }
}

/// Number of points of an x-sorted sequence with `lo <= x < hi`.
pub open spec fn range_count(s: Seq<Point>, lo: i64, hi: i64) -> nat {
    (index_range_spec(s, lo, hi).1 - index_range_spec(s, lo, hi).0) as nat
}

/// Binary search for the first point whose `x` is not below `v`.
pub fn partition_point_x(points: &[Point], v: i64) -> (r: usize)
    ensures
        r <= points@.len(),
        sorted_by_x(points@) ==> r == lower_bound(points@, v),
{
    let mut lo: usize = 0;
    let mut hi: usize = points.len();
    while lo < hi
        invariant
            lo <= hi <= points@.len(),
            sorted_by_x(points@) ==> forall|i: int| 0 <= i < lo ==> #[trigger] points@[i].x < v,
            sorted_by_x(points@) ==> forall|i: int|
                hi <= i < points@.len() ==> #[trigger] points@[i].x >= v,
        decreases hi - lo,
    {
        let mid = lo + (hi - lo) / 2;
        if points[mid].x < v {
            lo = mid + 1;
        } else {
            hi = mid;
        }
    }
    proof {
        if sorted_by_x(points@) {
            lemma_lower_bound_at(points@, v, lo as int);
        }
    }
    lo
}

/// Maps an x-interval `[x_lo, x_hi)` to the index range of the points that
/// lie in it, by two binary searches.
pub fn index_range(points: &[Point], x_lo: i64, x_hi: i64) -> (r: (usize, usize))
    ensures
        r.0 <= r.1 <= points@.len(),
        sorted_by_x(points@) ==> r.0 == index_range_spec(points@, x_lo, x_hi).0 && r.1
            == index_range_spec(points@, x_lo, x_hi).1,
        sorted_by_x(points@) ==> forall|i: int|
            0 <= i < points@.len() ==> (r.0 <= i < r.1 <==> x_lo <= #[trigger] points@[i].x
                < x_hi),
{
    let start = partition_point_x(points, x_lo);
    let end = partition_point_x(points, x_hi);
    proof {
        lemma_lower_bound_bounds(points@, x_lo);
        lemma_lower_bound_bounds(points@, x_hi);
    }
    if end < start {
        (start, start)
    } else {
        (start, end)
    }
}

/// When every point lies in `[x_lo, x_hi)` the range is the whole sequence;
/// when none does, it is empty.
pub proof fn lemma_index_range_whole_or_empty(s: Seq<Point>, x_lo: i64, x_hi: i64)
    requires
        sorted_by_x(s),
    ensures
        (forall|i: int| 0 <= i < s.len() ==> x_lo <= #[trigger] s[i].x < x_hi) ==> index_range_spec(
            s,
            x_lo,
            x_hi,
        ) == (0nat, s.len()),
        (forall|i: int| 0 <= i < s.len() ==> !(x_lo <= #[trigger] s[i].x < x_hi)) ==> index_range_spec(
            s,
            x_lo,
            x_hi,
        ).0 == index_range_spec(s, x_lo, x_hi).1,
{
    lemma_lower_bound_bounds(s, x_lo);
    lemma_lower_bound_bounds(s, x_hi);
    let start = lower_bound(s, x_lo);
    let end = lower_bound(s, x_hi);
    if forall|i: int| 0 <= i < s.len() ==> x_lo <= #[trigger] s[i].x < x_hi {
        if s.len() > 0 {
            assert(x_lo <= s[0].x);
            lemma_lower_bound_at(s, x_lo, 0);
        } else {
            lemma_lower_bound_at(s, x_lo, 0);
        }
        lemma_lower_bound_at(s, x_hi, s.len() as int);
    }
    if forall|i: int| 0 <= i < s.len() ==> !(x_lo <= #[trigger] s[i].x < x_hi) {
        if start < end {
            assert(x_lo <= s[start as int].x);
            assert(s[start as int].x < x_hi);
        }
    }
}

} // verus!
