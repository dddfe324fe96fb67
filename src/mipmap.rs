use vstd::prelude::*;

use crate::point::{sorted_by_x, Point};

verus! {

/// A level is only kept while it has at least this many entries; below that
/// drawing the finer level is always cheap enough.
pub const MIPMAP_MIN_LEVEL_LEN: usize = 256;

/// Of two points, the one with the smaller `y`; on a tie the earlier one.
pub open spec fn min_by_y(a: Point, b: Point) -> Point {
    if b.y < a.y {
        b
    } else {
        a
    }
}

/// Of two points, the one with the larger `y`; on a tie the earlier one.
pub open spec fn max_by_y(a: Point, b: Point) -> Point {
    if b.y > a.y {
        b
    } else {
        a
    }
}

/// One decimation step: consecutive pairs of entries collapse into one,
/// min-of-mins and max-of-maxes. A trailing single entry is kept as it is.
pub open spec fn coarsen(l: (Seq<Point>, Seq<Point>)) -> (Seq<Point>, Seq<Point>) {
    let n = l.0.len();
    (
        Seq::new(
            ((n + 1) / 2) as nat,
            |j: int|
                if 2 * j + 1 < n {
                    min_by_y(l.0[2 * j], l.0[2 * j + 1])
                } else {
                    l.0[2 * j]
                },
        ),
        Seq::new(
            ((n + 1) / 2) as nat,
            |j: int|
                if 2 * j + 1 < n {
                    max_by_y(l.1[2 * j], l.1[2 * j + 1])
                } else {
                    l.1[2 * j]
                },
        ),
    )
}

/// Level `k` of the pyramid of a raw series as its (min, max) arrays. Level 0
/// is the raw series itself, in both roles.
pub open spec fn level_spec(raw: Seq<Point>, k: nat) -> (Seq<Point>, Seq<Point>)
    decreases k,
{
    if k == 0 {
        (raw, raw)
    } else {
        coarsen(level_spec(raw, (k - 1) as nat))
    }
}

/// How many levels are built on top of a level of `len` entries: one more as
/// long as the next level keeps at least `MIPMAP_MIN_LEVEL_LEN` entries.
pub open spec fn depth_from(len: nat) -> nat
    decreases len,
{
    if len >= 2 && (len + 1) / 2 >= MIPMAP_MIN_LEVEL_LEN {
        1 + depth_from(((len + 1) / 2) as nat)
    } else {
        0
    }
}

/// Number of raw points that one entry of level `k` summarizes.
pub open spec fn window_len(k: nat) -> nat
    decreases k,
{
    if k == 0 {
        1
    } else {
        2 * window_len((k - 1) as nat)
    }
}

/// End (exclusive) of the raw window behind entry `j` of level `k`.
pub open spec fn window_end(n: nat, k: nat, j: int) -> int {
    if (j + 1) * window_len(k) < n {
        (j + 1) * window_len(k)
    } else {
        n as int
    }
}

struct MipMapLevel {
    mins: Vec<Point>,
    maxs: Vec<Point>,
}

impl View for MipMapLevel {
    type V = (Seq<Point>, Seq<Point>);

    closed spec fn view(&self) -> (Seq<Point>, Seq<Point>) {
        (self.mins@, self.maxs@)
    }
}

/// The min/max pyramid over a raw series. Level `k + 1` is stored at index
/// `k`; level 0 is the raw series, which the pyramid does not hold.
pub struct MipMap {
    levels: Vec<MipMapLevel>,
}

proof fn lemma_depth_bound(len: nat)
    ensures
        depth_from(len) <= len,
    decreases len,
{
    if len >= 2 && (len + 1) / 2 >= MIPMAP_MIN_LEVEL_LEN {
        lemma_depth_bound(((len + 1) / 2) as nat);
    }
}

pub proof fn lemma_level_lens(raw: Seq<Point>, k: nat)
    ensures
        level_spec(raw, k).0.len() == level_spec(raw, k).1.len(),
    decreases k,
{
    if k > 0 {
        lemma_level_lens(raw, (k - 1) as nat);
    }
}

/// Coarsening two levels that agree on their first `s` entries gives levels
/// that agree on their first `s / 2` entries.
proof fn lemma_coarsen_agree(a: (Seq<Point>, Seq<Point>), b: (Seq<Point>, Seq<Point>), s: int)
    requires
        0 <= s <= a.0.len(),
        s <= b.0.len(),
        a.0.len() == a.1.len(),
        b.0.len() == b.1.len(),
        forall|j: int| 0 <= j < s ==> a.0[j] == b.0[j] && a.1[j] == b.1[j],
    ensures
        s / 2 <= coarsen(a).0.len(),
        s / 2 <= coarsen(b).0.len(),
        forall|j: int|
            0 <= j < s / 2 ==> coarsen(a).0[j] == coarsen(b).0[j] && coarsen(a).1[j] == coarsen(
                b,
            ).1[j],
{
    assert forall|j: int| 0 <= j < s / 2 implies coarsen(a).0[j] == coarsen(b).0[j] && coarsen(
        a,
    ).1[j] == coarsen(b).1[j] by {
        assert(a.0[2 * j] == b.0[2 * j] && a.0[2 * j + 1] == b.0[2 * j + 1]);
        assert(a.1[2 * j] == b.1[2 * j] && a.1[2 * j + 1] == b.1[2 * j + 1]);
    }
}

proof fn lemma_level_len(raw: Seq<Point>, k: nat, j: int)
    requires
        j >= 0,
    ensures
        j < level_spec(raw, k).0.len() <==> j * window_len(k) < raw.len(),
    decreases k,
{
    if k == 0 {
        assert(window_len(k) == 1);
        assert(j * window_len(k) == j);
    } else {
        let w = window_len((k - 1) as nat);
        lemma_level_len(raw, (k - 1) as nat, 2 * j);
        assert(level_spec(raw, k).0.len() == (level_spec(raw, (k - 1) as nat).0.len() + 1) / 2);
        assert(j * window_len(k) == (2 * j) * w) by (nonlinear_arith)
            requires
                window_len(k) == 2 * w,
        ;
    }
}

/// Entry `j` of level `k` is exactly the lowest and the highest point of the
/// `window_len(k)` raw points starting at `j * window_len(k)` (fewer at the
/// end of the series): each is one of those points, and no point of the
/// window lies below the min or above the max. Of several points with the
/// extreme value, the earliest is taken.
pub proof fn lemma_level_window_extremes(raw: Seq<Point>, k: nat, j: int)
    requires
        0 <= j < level_spec(raw, k).0.len(),
    ensures
        j * window_len(k) < window_end(raw.len(), k, j),
        exists|i: int|
            j * window_len(k) <= i < window_end(raw.len(), k, j) && raw[i] == level_spec(
                raw,
                k,
            ).0[j] && forall|h: int|
                j * window_len(k) <= h < i ==> #[trigger] raw[h].y > level_spec(raw, k).0[j].y,
        exists|i: int|
            j * window_len(k) <= i < window_end(raw.len(), k, j) && raw[i] == level_spec(
                raw,
                k,
            ).1[j] && forall|h: int|
                j * window_len(k) <= h < i ==> #[trigger] raw[h].y < level_spec(raw, k).1[j].y,
        forall|i: int|
            j * window_len(k) <= i < window_end(raw.len(), k, j) ==> level_spec(raw, k).0[j].y
                <= #[trigger] raw[i].y,
        forall|i: int|
            j * window_len(k) <= i < window_end(raw.len(), k, j) ==> level_spec(raw, k).1[j].y
                >= #[trigger] raw[i].y,
    decreases k,
{
    let n = raw.len();
    lemma_level_len(raw, k, j);
    lemma_level_lens(raw, k);
    if k == 0 {
        assert(window_len(k) == 1);
        assert(j * window_len(k) == j && (j + 1) * window_len(k) == j + 1) by (nonlinear_arith)
            requires
                window_len(k) == 1,
        ;
        assert(window_end(n, k, j) == j + 1);
        assert(raw[j] == level_spec(raw, k).0[j]);
        assert(raw[j] == level_spec(raw, k).1[j]);
    } else {
        let km = (k - 1) as nat;
        let w = window_len(km);
        let l = level_spec(raw, km);
        let cur = level_spec(raw, k);
        lemma_level_lens(raw, km);
        assert(j * window_len(k) == (2 * j) * w && (j + 1) * window_len(k) == (2 * j + 2) * w
            && (2 * j + 1) * w == (2 * j) * w + w && (2 * j + 2) * w == (2 * j + 1) * w + w)
            by (nonlinear_arith)
            requires
                window_len(k) == 2 * w,
        ;
        lemma_level_window_extremes(raw, km, 2 * j);
        lemma_level_len(raw, km, 2 * j + 1);
        let s0 = (2 * j) * w;
        let e0 = window_end(n, km, 2 * j);
        let e = window_end(n, k, j);
        let i0 = choose|i: int|
            s0 <= i < e0 && raw[i] == l.0[2 * j] && forall|h: int|
                s0 <= h < i ==> #[trigger] raw[h].y > l.0[2 * j].y;
        let h0 = choose|i: int|
            s0 <= i < e0 && raw[i] == l.1[2 * j] && forall|h: int|
                s0 <= h < i ==> #[trigger] raw[h].y < l.1[2 * j].y;
        if 2 * j + 1 < l.0.len() {
            lemma_level_window_extremes(raw, km, 2 * j + 1);
            let e1 = window_end(n, km, 2 * j + 1);
            assert(e0 == (2 * j + 1) * w);
            assert(e1 == e);
            let i1 = choose|i: int|
                e0 <= i < e1 && raw[i] == l.0[2 * j + 1] && forall|h: int|
                    e0 <= h < i ==> #[trigger] raw[h].y > l.0[2 * j + 1].y;
            let h1 = choose|i: int|
                e0 <= i < e1 && raw[i] == l.1[2 * j + 1] && forall|h: int|
                    e0 <= h < i ==> #[trigger] raw[h].y < l.1[2 * j + 1].y;
            assert(cur.0[j] == min_by_y(l.0[2 * j], l.0[2 * j + 1]));
            assert(cur.1[j] == max_by_y(l.1[2 * j], l.1[2 * j + 1]));
            if l.0[2 * j + 1].y < l.0[2 * j].y {
                assert(raw[i1] == cur.0[j]);
                assert forall|h: int| s0 <= h < i1 implies #[trigger] raw[h].y > cur.0[j].y by {
                    if h < e0 {
                        assert(l.0[2 * j].y <= raw[h].y);
                    }
                }
            } else {
                assert(raw[i0] == cur.0[j]);
            }
            if l.1[2 * j + 1].y > l.1[2 * j].y {
                assert(raw[h1] == cur.1[j]);
                assert forall|h: int| s0 <= h < h1 implies #[trigger] raw[h].y < cur.1[j].y by {
                    if h < e0 {
                        assert(l.1[2 * j].y >= raw[h].y);
                    }
                }
            } else {
                assert(raw[h0] == cur.1[j]);
            }
            assert forall|i: int| s0 <= i < e implies cur.0[j].y <= #[trigger] raw[i].y
                && cur.1[j].y >= raw[i].y by {
                if i < e0 {
                    assert(l.0[2 * j].y <= raw[i].y);
                    assert(l.1[2 * j].y >= raw[i].y);
                } else {
                    assert(l.0[2 * j + 1].y <= raw[i].y);
                    assert(l.1[2 * j + 1].y >= raw[i].y);
                }
            }
        } else {
            assert(e0 == n);
            assert(e == n);
            assert(cur.0[j] == l.0[2 * j]);
            assert(cur.1[j] == l.1[2 * j]);
            assert(raw[i0] == cur.0[j]);
            assert(raw[h0] == cur.1[j]);
        }
    }
}

/// Every level of an x-sorted series is x-sorted, in its min and its max
/// array; so the range finder applies to levels as it does to the raw series.
pub proof fn lemma_level_sorted(raw: Seq<Point>, k: nat)
    requires
        sorted_by_x(raw),
    ensures
        sorted_by_x(level_spec(raw, k).0),
        sorted_by_x(level_spec(raw, k).1),
    decreases k,
{
    lemma_level_lens(raw, k);
    if k > 0 {
        let km = (k - 1) as nat;
        let l = level_spec(raw, km);
        let cur = level_spec(raw, k);
        lemma_level_sorted(raw, km);
        lemma_level_lens(raw, km);
        assert forall|a: int, b: int| 0 <= a <= b < cur.0.len() implies cur.0[a].x <= cur.0[b].x
            && cur.1[a].x <= cur.1[b].x by {
            let ia: int = if 2 * a + 1 < l.0.len() && l.0[2 * a + 1].y < l.0[2 * a].y {
                2 * a + 1
            } else {
                2 * a
            };
            let ib: int = if 2 * b + 1 < l.0.len() && l.0[2 * b + 1].y < l.0[2 * b].y {
                2 * b + 1
            } else {
                2 * b
            };
            let ja: int = if 2 * a + 1 < l.1.len() && l.1[2 * a + 1].y > l.1[2 * a].y {
                2 * a + 1
            } else {
                2 * a
            };
            let jb: int = if 2 * b + 1 < l.1.len() && l.1[2 * b + 1].y > l.1[2 * b].y {
                2 * b + 1
            } else {
                2 * b
            };
            assert(cur.0[a] == l.0[ia] && cur.0[b] == l.0[ib]);
            assert(cur.1[a] == l.1[ja] && cur.1[b] == l.1[jb]);
            if a == b {
                assert(ia == ib && ja == jb);
            }
        }
    }
}

impl MipMapLevel {
    fn empty() -> (r: MipMapLevel)
        ensures
            r@.0.len() == 0,
            r@.1.len() == 0,
    {
        MipMapLevel { mins: Vec::new(), maxs: Vec::new() }
    }
}

/// Recomputes the tail of one level from its (already updated) source level:
/// the first `keep` entries of `old` are still valid and are kept, the rest is
/// rebuilt.
fn coarsen_tail(src_mins: &[Point], src_maxs: &[Point], old: MipMapLevel, keep: usize) -> (r:
    MipMapLevel)
    requires
        src_mins@.len() == src_maxs@.len(),
        keep <= old@.0.len(),
        keep <= old@.1.len(),
        keep <= (src_mins@.len() + 1) / 2,
        forall|j: int|
            0 <= j < keep ==> old@.0[j] == coarsen((src_mins@, src_maxs@)).0[j] && old@.1[j]
                == coarsen((src_mins@, src_maxs@)).1[j],
    ensures
        r@ == coarsen((src_mins@, src_maxs@)),
{
    let ghost target = coarsen((src_mins@, src_maxs@));
    let mut mins = old.mins;
    let mut maxs = old.maxs;
    mins.truncate(keep);
    maxs.truncate(keep);
    let n = src_mins.len();
    let target_len = n / 2 + n % 2;
    let mut j = keep;
    assert(mins@ =~= target.0.subrange(0, j as int));
    assert(maxs@ =~= target.1.subrange(0, j as int));
    while j < target_len
        invariant
            n == src_mins@.len() == src_maxs@.len(),
            target == coarsen((src_mins@, src_maxs@)),
            target_len == target.0.len(),
            target_len == target.1.len(),
            keep <= j <= target_len,
            mins@ == target.0.subrange(0, j as int),
            maxs@ == target.1.subrange(0, j as int),
        decreases target_len - j,
    {
        let i = 2 * j;
        if i + 1 < n {
            let a = src_mins[i];
            let b = src_mins[i + 1];
            mins.push(if b.y < a.y { b } else { a });
            let c = src_maxs[i];
            let d = src_maxs[i + 1];
            maxs.push(if d.y > c.y { d } else { c });
        } else {
            mins.push(src_mins[i]);
            maxs.push(src_maxs[i]);
        }
        j = j + 1;
        assert(mins@ =~= target.0.subrange(0, j as int));
        assert(maxs@ =~= target.1.subrange(0, j as int));
    }
    assert(mins@ =~= target.0);
    assert(maxs@ =~= target.1);
    MipMapLevel { mins, maxs }
}

impl MipMap {
    /// Number of levels above the raw series.
    pub closed spec fn depth_spec(&self) -> nat {
        self.levels@.len()
    }

    /// The (min, max) arrays of level `k + 1`.
    pub closed spec fn level_view(&self, k: int) -> (Seq<Point>, Seq<Point>) {
        self.levels@[k]@
    }

    /// The pyramid holds exactly the levels of `raw` that are worth keeping.
    pub open spec fn wf_for(&self, raw: Seq<Point>) -> bool {
        &&& self.depth_spec() == depth_from(raw.len())
        &&& forall|k: int|
            0 <= k < self.depth_spec() ==> #[trigger] self.level_view(k) == level_spec(
                raw,
                (k + 1) as nat,
            )
    }

    /// The pyramid of an empty series.
    pub fn new() -> (r: MipMap)
        ensures
            r.wf_for(Seq::empty()),
    {
        MipMap { levels: Vec::new() }
    }

    pub fn depth(&self) -> (r: usize)
        ensures
            r == self.depth_spec(),
    {
        self.levels.len()
    }

    /// The min and max arrays of level `k + 1`.
    pub fn level(&self, k: usize) -> (r: (&[Point], &[Point]))
        requires
            k < self.depth_spec(),
        ensures
            (r.0@, r.1@) == self.level_view(k as int),
    {
        (self.levels[k].mins.as_slice(), self.levels[k].maxs.as_slice())
    }

    /// Brings the pyramid up to date after points were appended to the raw
    /// series: `raw[..old_len]` is what the pyramid was built for. Only the
    /// tail of each level that the new points reach is recomputed, and levels
    /// that have become large enough are added.
    pub fn extend(&mut self, raw: &[Point], old_len: usize)
        requires
            old_len <= raw@.len(),
            old(self).wf_for(raw@.subrange(0, old_len as int)),
        ensures
            final(self).wf_for(raw@),
    {
        let ghost raw_old = raw@.subrange(0, old_len as int);
        let mut old_levels: Vec<MipMapLevel> = Vec::new();
        std::mem::swap(&mut self.levels, &mut old_levels);
        proof {
            assert forall|i: int| 0 <= i < old_levels@.len() implies #[trigger] old_levels@[i]@
                == level_spec(raw_old, (0 + 1 + i) as nat) by {
                assert(old(self).level_view(i) == level_spec(raw_old, (i + 1) as nat));
            }
            lemma_depth_bound(raw@.len());
        }
        let mut new_levels: Vec<MipMapLevel> = Vec::new();
        // The first `stable` entries of level `k` are the same before and
        // after the append; the entries of level `k + 1` built from them are
        // the first `stable / 2`.
        let mut stable: usize = old_len;
        let mut k: usize = 0;
        proof {
            assert forall|j: int| 0 <= j < stable implies level_spec(raw_old, 0).0[j] == level_spec(
                raw@,
                0,
            ).0[j] && level_spec(raw_old, 0).1[j] == level_spec(raw@, 0).1[j] by {}
        }
        loop
            invariant
                k == new_levels@.len(),
                forall|i: int|
                    0 <= i < k ==> #[trigger] new_levels@[i]@ == level_spec(raw@, (i + 1) as nat),
                forall|i: int|
                    0 <= i < old_levels@.len() ==> #[trigger] old_levels@[i]@ == level_spec(
                        raw_old,
                        (k + 1 + i) as nat,
                    ),
                stable <= level_spec(raw_old, k as nat).0.len(),
                stable <= level_spec(raw@, k as nat).0.len(),
                forall|j: int|
                    0 <= j < stable ==> level_spec(raw_old, k as nat).0[j] == level_spec(
                        raw@,
                        k as nat,
                    ).0[j] && level_spec(raw_old, k as nat).1[j] == level_spec(raw@, k as nat).1[j],
                k + depth_from(level_spec(raw@, k as nat).0.len()) == depth_from(raw@.len()),
                depth_from(raw@.len()) <= raw@.len(),
            ensures
                k == new_levels@.len(),
                k == depth_from(raw@.len()),
                forall|i: int|
                    0 <= i < k ==> #[trigger] new_levels@[i]@ == level_spec(raw@, (i + 1) as nat),
            decreases level_spec(raw@, k as nat).0.len(),
        {
            proof {
                lemma_level_lens(raw@, k as nat);
                lemma_level_lens(raw_old, k as nat);
                lemma_level_lens(raw@, (k + 1) as nat);
                lemma_level_lens(raw_old, (k + 1) as nat);
            }
            let src_len = if k == 0 {
                raw.len()
            } else {
                assert(new_levels@[k - 1]@ == level_spec(raw@, k as nat));
                new_levels[k - 1].mins.len()
            };
            assert(src_len == level_spec(raw@, k as nat).0.len());
            let next_len = src_len / 2 + src_len % 2;
            assert(next_len == (src_len + 1) / 2);
            if !(src_len >= 2 && next_len >= MIPMAP_MIN_LEVEL_LEN) {
                break;
            }
            assert(depth_from(src_len as nat) >= 1);
            assert(k + 1 <= depth_from(raw@.len()));
            assert(k + 1 <= raw.len());
            let old = if old_levels.len() > 0 {
                old_levels.remove(0)
            } else {
                MipMapLevel::empty()
            };
            let keep_stable = stable / 2;
            let keep = if keep_stable < old.mins.len() {
                keep_stable
            } else {
                old.mins.len()
            };
            proof {
                lemma_coarsen_agree(
                    level_spec(raw_old, k as nat),
                    level_spec(raw@, k as nat),
                    stable as int,
                );
            }
            let level = if k == 0 {
                coarsen_tail(raw, raw, old, keep)
            } else {
                coarsen_tail(
                    new_levels[k - 1].mins.as_slice(),
                    new_levels[k - 1].maxs.as_slice(),
                    old,
                    keep,
                )
            };
            new_levels.push(level);
            stable = keep_stable;
            k = k + 1;
        }
        self.levels = new_levels;
        assert forall|i: int| 0 <= i < self.depth_spec() implies #[trigger] self.level_view(i)
            == level_spec(raw@, (i + 1) as nat) by {
            assert(self.levels@[i]@ == level_spec(raw@, (i + 1) as nat));
        }
    }
}

} // verus!
