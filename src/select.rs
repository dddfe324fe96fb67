use vstd::prelude::*;

use crate::mipmap::{depth_from, level_spec};
use crate::point::Point;
use crate::range::range_count;

verus! {

/// How the level to draw is chosen for a frame.
#[derive(Clone, Copy, Debug, PartialEq, Eq, Structural)]
pub enum MipMapConfiguration {
    /// Force this level, clamped to the deepest one built.
    Manual(usize),
    /// Pick the coarsest detail that still gives about
    /// `TARGET_POINTS_PER_PIXEL` points per pixel.
    Auto,
    /// Always draw the raw series.
    Disabled,
}

/// The point budget of automatic selection, per pixel of plot width.
pub const TARGET_POINTS_PER_PIXEL: usize = 2;

/// Number of points of level `k` of `raw` whose `x` lies in `[lo, hi)`.
pub open spec fn level_count(raw: Seq<Point>, k: nat, lo: i64, hi: i64) -> nat {
    range_count(level_spec(raw, k).0, lo, hi)
}

/// The first level from `k` up to `depth` whose visible point count fits the
/// budget, or `depth` when none does.
pub open spec fn first_fit(raw: Seq<Point>, k: nat, depth: nat, lo: i64, hi: i64, budget: nat) -> nat
    decreases depth - k,
{
    if k >= depth || level_count(raw, k, lo, hi) <= budget {
        k
    } else {
        first_fit(raw, k + 1, depth, lo, hi, budget)
    }
}

/// The level that automatic selection draws: the smallest one (raw counts as
/// level 0) whose visible point count is within `budget`, or the deepest
/// level built when none is.
pub open spec fn auto_level(raw: Seq<Point>, lo: i64, hi: i64, budget: nat) -> nat {
    first_fit(raw, 0, depth_from(raw.len()), lo, hi, budget)
}

/// The point budget for a plot that is `pixel_width` pixels wide.
pub open spec fn budget_for(pixel_width: nat) -> nat {
    (TARGET_POINTS_PER_PIXEL * pixel_width) as nat
}

/// `first_fit` from any earlier level reaches `k` when every level before
/// `k` overflows the budget and `k` fits or is the deepest.
pub proof fn lemma_first_fit_is(
    raw: Seq<Point>,
    m: nat,
    k: nat,
    depth: nat,
    lo: i64,
    hi: i64,
    budget: nat,
)
    requires
        m <= k <= depth,
        forall|i: nat| m <= i < k ==> #[trigger] level_count(raw, i, lo, hi) > budget,
        k == depth || level_count(raw, k, lo, hi) <= budget,
    ensures
        first_fit(raw, m, depth, lo, hi, budget) == k,
    decreases k - m,
{
    if m < k {
        assert(level_count(raw, m, lo, hi) > budget);
        lemma_first_fit_is(raw, m + 1, k, depth, lo, hi, budget);
    }
}

proof fn lemma_first_fit_props(raw: Seq<Point>, m: nat, depth: nat, lo: i64, hi: i64, budget: nat)
    requires
        m <= depth,
    ensures
        m <= first_fit(raw, m, depth, lo, hi, budget) <= depth,
        forall|i: nat|
            m <= i < first_fit(raw, m, depth, lo, hi, budget) ==> #[trigger] level_count(
                raw,
                i,
                lo,
                hi,
            ) > budget,
        first_fit(raw, m, depth, lo, hi, budget) == depth || level_count(
            raw,
            first_fit(raw, m, depth, lo, hi, budget),
            lo,
            hi,
        ) <= budget,
    decreases depth - m,
{
    if !(m >= depth || level_count(raw, m, lo, hi) <= budget) {
        lemma_first_fit_props(raw, m + 1, depth, lo, hi, budget);
    }
}

/// Automatic selection keeps the raw series when its visible points fit the
/// budget. When they do not and some level of the pyramid fits, it picks a
/// level above the raw series that fits, and the finest such level.
pub proof fn lemma_auto_level_fits(raw: Seq<Point>, lo: i64, hi: i64, budget: nat)
    ensures
        level_count(raw, 0, lo, hi) <= budget ==> auto_level(raw, lo, hi, budget) == 0,
        auto_level(raw, lo, hi, budget) <= depth_from(raw.len()),
        (level_count(raw, 0, lo, hi) > budget && exists|k: nat|
            1 <= k <= depth_from(raw.len()) && #[trigger] level_count(raw, k, lo, hi)
                <= budget) ==> {
            &&& auto_level(raw, lo, hi, budget) > 0
            &&& level_count(raw, auto_level(raw, lo, hi, budget), lo, hi) <= budget
            &&& forall|i: nat|
                i < auto_level(raw, lo, hi, budget) ==> #[trigger] level_count(raw, i, lo, hi)
                    > budget
        },
{
    let depth = depth_from(raw.len());
    lemma_first_fit_props(raw, 0, depth, lo, hi, budget);
    let a = auto_level(raw, lo, hi, budget);
    if level_count(raw, 0, lo, hi) > budget && exists|k: nat|
        1 <= k <= depth && #[trigger] level_count(raw, k, lo, hi) <= budget {
        let k = choose|k: nat| 1 <= k <= depth && #[trigger] level_count(raw, k, lo, hi) <= budget;
        if a == depth && level_count(raw, a, lo, hi) > budget {
            assert(k < a);
            assert(level_count(raw, k, lo, hi) > budget);
        }
    }
}

} // verus!
