use vstd::prelude::*;

use crate::point::{lemma_lower_bound_at, lemma_lower_bound_bounds, sorted_by_x, Point};
use crate::range::{index_range, index_range_spec};

verus! {

/// Below this many points a series is returned unfiltered.
pub const FILTER_THRESHOLD: usize = 1024;

/// The points of `s[start..end]`, preceded by the first point of `s` unless the
/// range starts at it, and followed by the last point of `s` unless the range
/// ends at it.
pub open spec fn trimmed(s: Seq<Point>, start: int, end: int) -> Seq<Point> {
    let head = if start != 0 {
        seq![s[0]]
    } else {
        Seq::<Point>::empty()
    };
    let tail = if end != s.len() {
        seq![s.last()]
    } else {
        Seq::<Point>::empty()
    };
    head + s.subrange(start, end) + tail
}

/// What filtering a series to the x-interval `[lo, hi)` yields, given the
/// index range of the points inside it.
pub open spec fn filter_with_range(s: Seq<Point>, start: int, end: int) -> Seq<Point> {
    if s.len() < FILTER_THRESHOLD {
        s
    } else if start == 0 && end == s.len() {
        s
    } else if start == end {
        seq![s[0], s.last()]
    } else {
        trimmed(s, start, end)
    }
}

/// What filtering an x-sorted series to the x-interval `[lo, hi)` yields.
pub open spec fn filter_spec(s: Seq<Point>, lo: i64, hi: i64) -> Seq<Point> {
    filter_with_range(
        s,
        index_range_spec(s, lo, hi).0 as int,
        index_range_spec(s, lo, hi).1 as int,
    )
}

proof fn lemma_filter_keeps_ends(s: Seq<Point>, start: int, end: int)
    requires
        0 <= start <= end <= s.len(),
        s.len() > 0,
    ensures
        filter_with_range(s, start, end).len() > 0,
        filter_with_range(s, start, end)[0] == s[0],
        filter_with_range(s, start, end).last() == s.last(),
{
    if s.len() >= FILTER_THRESHOLD && !(start == 0 && end == s.len()) && start != end {
        let r = trimmed(s, start, end);
        let head = if start != 0 {
            seq![s[0]]
        } else {
            Seq::<Point>::empty()
        };
        let tail = if end != s.len() {
            seq![s.last()]
        } else {
            Seq::<Point>::empty()
        };
        assert(r == head + s.subrange(start, end) + tail);
        if start == 0 {
            assert(r[0] == s.subrange(start, end)[0]);
        }
        if end == s.len() {
            assert(r.last() == s.subrange(start, end).last());
        }
    }
}

/// Appends `points[start..end]` to `out`.
fn push_range(out: &mut Vec<Point>, points: &[Point], start: usize, end: usize)
    requires
        start <= end <= points@.len(),
    ensures
        final(out)@ == old(out)@ + points@.subrange(start as int, end as int),
{
    let mut i = start;
    while i < end
        invariant
            start <= i <= end <= points@.len(),
            out@ == old(out)@ + points@.subrange(start as int, i as int),
        decreases end - i,
    {
        out.push(points[i]);
        i = i + 1;
        assert(out@ =~= old(out)@ + points@.subrange(start as int, i as int));
    }
}

/// Trims an x-sorted series to the points inside `[x_range.0, x_range.1)`,
/// always keeping its first and last point so that fitting the view to the
/// data stays meaningful when the view has left the data. Series shorter
/// than `FILTER_THRESHOLD` are returned whole.
pub fn filter_plot_points(points: &[Point], x_range: (i64, i64)) -> (r: Vec<Point>)
    ensures
        points@.len() < FILTER_THRESHOLD ==> r@ == points@,
        sorted_by_x(points@) ==> r@ == filter_spec(points@, x_range.0, x_range.1),
        points@.len() > 0 ==> r@.len() > 0 && r@[0] == points@[0] && r@.last()
            == points@.last(),
        points@.len() == 0 ==> r@.len() == 0,
{
    let points_len = points.len();
    let mut filtered: Vec<Point> = Vec::new();
    if points_len < FILTER_THRESHOLD {
        push_range(&mut filtered, points, 0, points_len);
        assert(filtered@ =~= points@);
        return filtered;
    }
    let (start_idx, end_idx) = index_range(points, x_range.0, x_range.1);
    proof {
        lemma_filter_keeps_ends(points@, start_idx as int, end_idx as int);
    }
    if start_idx == 0 && end_idx == points_len {
        push_range(&mut filtered, points, 0, points_len);
        assert(filtered@ =~= points@);
        return filtered;
    }
    if start_idx == end_idx {
        filtered.push(points[0]);
        filtered.push(points[points_len - 1]);
        assert(filtered@ =~= seq![points@[0], points@.last()]);
        return filtered;
    }
    if start_idx != 0 {
        filtered.push(points[0]);
    }
    push_range(&mut filtered, points, start_idx, end_idx);
    if end_idx != points_len {
        filtered.push(points[points_len - 1]);
    }
    assert(filtered@ =~= trimmed(points@, start_idx as int, end_idx as int));
    filtered
}

/// The points of `s[start..end]` with the first and last point of `s` added
/// where they differ from the slice's current boundary, so that no point is
/// emitted twice in a row at either end.
pub open spec fn extract_spec(s: Seq<Point>, start: int, end: int) -> Seq<Point> {
    if s.len() == 0 {
        Seq::<Point>::empty()
    } else {
        let mid = s.subrange(start, end);
        let with_first = if mid.len() > 0 && mid[0] == s[0] {
            mid
        } else {
            seq![s[0]] + mid
        };
        if with_first.last() == s.last() {
            with_first
        } else {
            with_first.push(s.last())
        }
    }
}

fn extract_range(points: &[Point], start: usize, end: usize) -> (r: Vec<Point>)
    requires
        start <= end <= points@.len(),
    ensures
        r@ == extract_spec(points@, start as int, end as int),
{
    let mut out: Vec<Point> = Vec::new();
    if points.len() == 0 {
        return out;
    }
    if start == end || points[start] != points[0] {
        out.push(points[0]);
    }
    push_range(&mut out, points, start, end);
    let last = points[points.len() - 1];
    if out[out.len() - 1] != last {
        out.push(last);
    }
    out
}

/// Cuts the index range `[start, end)` out of a level's min and max arrays,
/// which share their window boundaries, anchoring each result at its array's
/// first and last point.
pub fn extract_range_points(
    points_min: &[Point],
    points_max: &[Point],
    start: usize,
    end: usize,
) -> (r: (Vec<Point>, Vec<Point>))
    requires
        start <= end <= points_min@.len(),
        end <= points_max@.len(),
    ensures
        r.0@ == extract_spec(points_min@, start as int, end as int),
        r.1@ == extract_spec(points_max@, start as int, end as int),
{
    (extract_range(points_min, start, end), extract_range(points_max, start, end))
}

/// Filtering is idempotent: re-filtering a filtered series with the same
/// interval gives it back unchanged.
pub proof fn lemma_filter_idempotent(s: Seq<Point>, lo: i64, hi: i64)
    requires
        sorted_by_x(s),
    ensures
        filter_spec(filter_spec(s, lo, hi), lo, hi) == filter_spec(s, lo, hi),
{
    let start = index_range_spec(s, lo, hi).0 as int;
    let end = index_range_spec(s, lo, hi).1 as int;
    let r = filter_spec(s, lo, hi);
    lemma_lower_bound_bounds(s, lo);
    lemma_lower_bound_bounds(s, hi);
    if s.len() >= FILTER_THRESHOLD && !(start == 0 && end == s.len()) && start != end {
        let a: int = if start != 0 {
            1
        } else {
            0
        };
        let m = end - start;
        assert(r == trimmed(s, start, end));
        assert(r.len() == a + m + if end != s.len() {
            1int
        } else {
            0
        });
        assert forall|i: int| 0 <= i < a implies #[trigger] r[i].x < lo by {
            assert(r[i] == s[0]);
        }
        assert forall|i: int| 0 <= i < a + m implies #[trigger] r[i].x < hi by {
            if i < a {
                assert(r[i] == s[0]);
                assert(s[0].x < hi);
            } else {
                assert(r[i] == s[start + i - a]);
            }
        }
        assert(r[a] == s[start]);
        lemma_lower_bound_at(r, lo, a);
        if end != s.len() {
            assert(r[a + m] == s[s.len() - 1]);
        }
        lemma_lower_bound_at(r, hi, a + m);
        assert(index_range_spec(r, lo, hi) == (a as nat, (a + m) as nat));
        if r.len() >= FILTER_THRESHOLD {
            assert(trimmed(r, a, a + m) =~= r);
        }
    }
}

} // verus!
