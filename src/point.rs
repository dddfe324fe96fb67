use vstd::prelude::*;

verus! {

/// A plot point. `x` is the (non-decreasing) sample position, `y` its value.
#[derive(Clone, Copy, Debug, PartialEq, Eq, Structural)]
pub struct Point {
    pub x: i64,
    pub y: i64,
}

impl Point {
    pub fn new(x: i64, y: i64) -> (r: Point)
        ensures
            r == (Point { x, y }),
    {
        Point { x, y }
    }
}

/// An RGBA color that is carried through to the renderer untouched.
#[derive(Clone, Copy, Debug, PartialEq, Eq, Structural)]
pub struct Color {
    pub r: u8,
    pub g: u8,
    pub b: u8,
    pub a: u8,
}

/// The points are ordered by non-decreasing `x`.
pub open spec fn sorted_by_x(s: Seq<Point>) -> bool {
    forall|i: int, j: int| 0 <= i <= j < s.len() ==> s[i].x <= s[j].x
}

/// Number of leading points whose `x` lies below `v`. On an x-sorted sequence
/// this is the first index whose `x` is at least `v` (or the length).
pub open spec fn lower_bound(s: Seq<Point>, v: i64) -> nat
    decreases s.len(),
{
    if s.len() == 0 || s[0].x >= v {
        0
    } else {
        1 + lower_bound(s.drop_first(), v)
    }
}

pub proof fn lemma_lower_bound_bounds(s: Seq<Point>, v: i64)
    ensures
        lower_bound(s, v) <= s.len(),
        forall|i: int| 0 <= i < lower_bound(s, v) ==> #[trigger] s[i].x < v,
        lower_bound(s, v) < s.len() ==> s[lower_bound(s, v) as int].x >= v,
        sorted_by_x(s) ==> forall|i: int|
            lower_bound(s, v) <= i < s.len() ==> #[trigger] s[i].x >= v,
    decreases s.len(),
{
    if s.len() > 0 && s[0].x < v {
        lemma_lower_bound_bounds(s.drop_first(), v);
        assert forall|i: int| 0 <= i < lower_bound(s, v) implies #[trigger] s[i].x < v by {
            if i > 0 {
                assert(s[i] == s.drop_first()[i - 1]);
            }
        }
        if sorted_by_x(s) {
            assert(sorted_by_x(s.drop_first()));
            assert forall|i: int| lower_bound(s, v) <= i < s.len() implies #[trigger] s[i].x
                >= v by {
                assert(s[i] == s.drop_first()[i - 1]);
            }
        }
    }
}

/// A split index of a sequence (all before it below `v`, the one at it not)
/// is the lower bound.
pub proof fn lemma_lower_bound_at(s: Seq<Point>, v: i64, r: int)
    requires
        0 <= r <= s.len(),
        forall|i: int| 0 <= i < r ==> #[trigger] s[i].x < v,
        r == s.len() || s[r].x >= v,
    ensures
        lower_bound(s, v) == r,
    decreases r,
{
    if r > 0 {
        assert forall|i: int| 0 <= i < r - 1 implies #[trigger] s.drop_first()[i].x < v by {
            assert(s.drop_first()[i] == s[i + 1]);
        }
        lemma_lower_bound_at(s.drop_first(), v, r - 1);
    }
}

} // verus!
