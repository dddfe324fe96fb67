use vstd::prelude::*;

use crate::mipmap::{depth_from, lemma_level_sorted, level_spec, MipMap};
use crate::point::{sorted_by_x, Color, Point};
use crate::range::{index_range, index_range_spec};
use crate::select::{
    auto_level, budget_for, lemma_first_fit_is, level_count, MipMapConfiguration,
    TARGET_POINTS_PER_PIXEL,
};

verus! {

/// The (min, max) arrays that a request for `level` is served with: the raw
/// series for level 0, nothing when no level was built, and otherwise the
/// requested level or the deepest one built, whichever is finer.
pub open spec fn level_or_max(raw: Seq<Point>, level: nat) -> (Seq<Point>, Seq<Point>) {
    let depth = depth_from(raw.len());
    if level > 0 && depth == 0 {
        (Seq::<Point>::empty(), Seq::<Point>::empty())
    } else if level <= depth {
        level_spec(raw, level)
    } else {
        level_spec(raw, depth)
    }
}

/// The level that a configuration selects for a frame.
pub open spec fn selected_level(
    raw: Seq<Point>,
    cfg: MipMapConfiguration,
    pixel_width: nat,
    lo: i64,
    hi: i64,
) -> nat {
    match cfg {
        MipMapConfiguration::Disabled => 0,
        MipMapConfiguration::Manual(l) => if l <= depth_from(raw.len()) {
            l as nat
        } else {
            depth_from(raw.len())
        },
        MipMapConfiguration::Auto => auto_level(raw, lo, hi, budget_for(pixel_width)),
    }
}

/// One plotted series: its raw points in x order, the pyramid over them, and
/// the identity that is handed through to the renderer.
pub struct PlotValues {
    raw_plot: Vec<Point>,
    mipmap: MipMap,
    label: String,
    color: Color,
    log_id: usize,
}

impl PlotValues {
    pub closed spec fn raw_spec(&self) -> Seq<Point> {
        self.raw_plot@
    }

    pub closed spec fn label_spec(&self) -> Seq<char> {
        self.label@
    }

    pub closed spec fn color_spec(&self) -> Color {
        self.color
    }

    pub closed spec fn log_id_spec(&self) -> usize {
        self.log_id
    }

    /// The pyramid matches the raw series.
    pub closed spec fn wf(&self) -> bool {
        self.mipmap.wf_for(self.raw_plot@)
    }

    /// A series over `raw_plot`, with its pyramid built.
    pub fn new(raw_plot: Vec<Point>, label: String, color: Color, log_id: usize) -> (r: Self)
        ensures
            r.wf(),
            r.raw_spec() == raw_plot@,
            r.label_spec() == label@,
            r.color_spec() == color,
            r.log_id_spec() == log_id,
    {
        let mut mipmap = MipMap::new();
        assert(raw_plot@.subrange(0, 0) =~= Seq::<Point>::empty());
        mipmap.extend(raw_plot.as_slice(), 0);
        PlotValues { raw_plot, mipmap, label, color, log_id }
    }

    /// Appends newly decoded points (streaming ingestion) and brings the
    /// pyramid up to date without rebuilding it.
    pub fn push_points(&mut self, points: &[Point])
        requires
            old(self).wf(),
        ensures
            final(self).wf(),
            final(self).raw_spec() == old(self).raw_spec() + points@,
            final(self).label_spec() == old(self).label_spec(),
            final(self).color_spec() == old(self).color_spec(),
            final(self).log_id_spec() == old(self).log_id_spec(),
    {
        let old_len = self.raw_plot.len();
        let ghost old_raw = self.raw_plot@;
        let mut i: usize = 0;
        while i < points.len()
            invariant
                i <= points@.len(),
                old_len == old_raw.len(),
                self.raw_plot@ == old_raw + points@.subrange(0, i as int),
                self.mipmap == old(self).mipmap,
                self.label == old(self).label,
                self.color == old(self).color,
                self.log_id == old(self).log_id,
                old_raw == old(self).raw_plot@,
            decreases points@.len() - i,
        {
            self.raw_plot.push(points[i]);
            i = i + 1;
            assert(self.raw_plot@ =~= old_raw + points@.subrange(0, i as int));
        }
        assert(points@.subrange(0, i as int) =~= points@);
        assert(self.raw_plot@.subrange(0, old_len as int) =~= old_raw);
        self.mipmap.extend(self.raw_plot.as_slice(), old_len);
    }

    pub fn get_raw(&self) -> (r: &[Point])
        ensures
            r@ == self.raw_spec(),
    {
        self.raw_plot.as_slice()
    }

    pub fn label(&self) -> (r: &str)
        ensures
            r@ == self.label_spec(),
    {
        self.label.as_str()
    }

    pub fn get_color(&self) -> (r: Color)
        ensures
            r == self.color_spec(),
    {
        self.color
    }

    pub fn log_id(&self) -> (r: usize)
        ensures
            r == self.log_id_spec(),
    {
        self.log_id
    }

    /// Number of pyramid levels above the raw series.
    pub fn mipmap_depth(&self) -> (r: usize)
        requires
            self.wf(),
        ensures
            r == depth_from(self.raw_spec().len()),
    {
        self.mipmap.depth()
    }

    /// The min and max arrays of `level`; see `level_or_max`.
    pub fn get_level_or_max(&self, level: usize) -> (r: (&[Point], &[Point]))
        requires
            self.wf(),
        ensures
            (r.0@, r.1@) == level_or_max(self.raw_spec(), level as nat),
    {
        let depth = self.mipmap.depth();
        if level == 0 {
            (self.raw_plot.as_slice(), self.raw_plot.as_slice())
        } else if depth == 0 {
            let empty: &[Point] = &[];
            assert(empty@ =~= Seq::<Point>::empty());
            (empty, empty)
        } else {
            let k = if level <= depth {
                level
            } else {
                depth
            };
            assert(self.mipmap.level_view(k - 1) == level_spec(self.raw_plot@, k as nat));
            self.mipmap.level(k - 1)
        }
    }

    /// Automatic level selection for a plot `pixel_width` pixels wide showing
    /// `[x_range.0, x_range.1)`: the level to draw and, above the raw series,
    /// the index range of that level's visible entries.
    pub fn get_scaled_mipmap_levels(&self, pixel_width: usize, x_range: (i64, i64)) -> (r: (
        usize,
        Option<(usize, usize)>,
    ))
        requires
            self.wf(),
        ensures
            r.0 <= depth_from(self.raw_spec().len()),
            r.1 is None <==> r.0 == 0,
            r.1 matches Some(ir) ==> ir.0 <= ir.1 <= level_spec(self.raw_spec(), r.0 as nat).0.len(),
            sorted_by_x(self.raw_spec()) ==> r.0 == auto_level(
                self.raw_spec(),
                x_range.0,
                x_range.1,
                budget_for(pixel_width as nat),
            ),
            sorted_by_x(self.raw_spec()) ==> (r.1 matches Some(ir) ==> ir.0 == index_range_spec(
                level_spec(self.raw_spec(), r.0 as nat).0,
                x_range.0,
                x_range.1,
            ).0 && ir.1 == index_range_spec(
                level_spec(self.raw_spec(), r.0 as nat).0,
                x_range.0,
                x_range.1,
            ).1),
    {
        let ghost raw = self.raw_plot@;
        let ghost budget = budget_for(pixel_width as nat);
        let (lo, hi) = x_range;
        let limit: u128 = (pixel_width as u128) * (TARGET_POINTS_PER_PIXEL as u128);
        let depth = self.mipmap.depth();
        let (s0, e0) = index_range(self.raw_plot.as_slice(), lo, hi);
        if ((e0 - s0) as u128) <= limit || depth == 0 {
            proof {
                if sorted_by_x(raw) {
                    lemma_first_fit_is(raw, 0, 0, depth as nat, lo, hi, budget);
                }
            }
            return (0, None);
        }
        let mut k: usize = 1;
        loop
            invariant
                1 <= k <= depth,
                depth == depth_from(raw.len()),
                raw == self.raw_spec(),
                self.wf(),
                self.mipmap.depth_spec() == depth,
                limit == budget,
                budget == budget_for(pixel_width as nat),
                (lo, hi) == x_range,
                sorted_by_x(raw) ==> forall|i: nat| i < k ==> #[trigger] level_count(raw, i, lo, hi) > budget,
            decreases depth - k,
        {
            assert(self.mipmap.level_view(k - 1) == level_spec(raw, k as nat));
            let (mins, _maxs) = self.mipmap.level(k - 1);
            let (s, e) = index_range(mins, lo, hi);
            proof {
                if sorted_by_x(raw) {
                    lemma_level_sorted(raw, k as nat);
                }
            }
            if ((e - s) as u128) <= limit || k == depth {
                proof {
                    if sorted_by_x(raw) {
                        lemma_first_fit_is(raw, 0, k as nat, depth as nat, lo, hi, budget);
                    }
                }
                return (k, Some((s, e)));
            }
            k = k + 1;
        }
    }

    /// The level that `cfg` selects for this frame, with the visible index
    /// range of that level where automatic selection computed it.
    pub fn select_level(&self, cfg: MipMapConfiguration, pixel_width: usize, x_range: (i64, i64)) -> (r: (
        usize,
        Option<(usize, usize)>,
    ))
        requires
            self.wf(),
        ensures
            r.0 <= depth_from(self.raw_spec().len()),
            !(cfg is Auto) ==> r.1 is None,
            !(cfg is Auto) ==> r.0 == selected_level(
                self.raw_spec(),
                cfg,
                pixel_width as nat,
                x_range.0,
                x_range.1,
            ),
            cfg is Auto ==> (r.1 is None <==> r.0 == 0),
            r.1 matches Some(ir) ==> ir.0 <= ir.1 <= level_spec(self.raw_spec(), r.0 as nat).0.len(),
            sorted_by_x(self.raw_spec()) ==> r.0 == selected_level(
                self.raw_spec(),
                cfg,
                pixel_width as nat,
                x_range.0,
                x_range.1,
            ),
            sorted_by_x(self.raw_spec()) ==> (r.1 matches Some(ir) ==> ir.0 == index_range_spec(
                level_spec(self.raw_spec(), r.0 as nat).0,
                x_range.0,
                x_range.1,
            ).0 && ir.1 == index_range_spec(
                level_spec(self.raw_spec(), r.0 as nat).0,
                x_range.0,
                x_range.1,
            ).1),
    {
        match cfg {
            MipMapConfiguration::Disabled => (0, None),
            MipMapConfiguration::Manual(level) => {
                let depth = self.mipmap.depth();
                if level <= depth {
                    (level, None)
                } else {
                    (depth, None)
                }
            },
            MipMapConfiguration::Auto => self.get_scaled_mipmap_levels(pixel_width, x_range),
        }
    }
}

} // verus!
