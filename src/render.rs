use vstd::prelude::*;

use crate::filter::{extract_range_points, extract_spec, filter_plot_points, filter_spec};
use crate::mipmap::{depth_from, lemma_level_lens, lemma_level_sorted, level_spec};
use crate::point::{sorted_by_x, Color, Point};
use crate::range::index_range_spec;
use crate::select::{auto_level, budget_for, MipMapConfiguration};
use crate::series::{level_or_max, PlotValues};

verus! {

/// A drawable line: named, colored, through the given points in order.
pub struct Polyline {
    pub name: String,
    pub color: Color,
    pub points: Vec<Point>,
}

impl View for Polyline {
    type V = (Seq<char>, Color, Seq<Point>);

    open spec fn view(&self) -> (Seq<char>, Color, Seq<Point>) {
        (self.name@, self.color, self.points@)
    }
}

/// Appended to a series' label to name its min chain.
pub open spec fn min_suffix() -> Seq<char> {
    seq![' ', '(', 'm', 'i', 'n', ')']
}

/// Appended to a series' label to name its max chain.
pub open spec fn max_suffix() -> Seq<char> {
    seq![' ', '(', 'm', 'a', 'x', ')']
}

/// The single line of a series drawn from its raw points.
pub open spec fn raw_lines(v: PlotValues, lo: i64, hi: i64) -> Seq<(Seq<char>, Color, Seq<Point>)> {
    seq![(v.label_spec(), v.color_spec(), filter_spec(v.raw_spec(), lo, hi))]
}

/// The lines of a series drawn at `level`: the raw line at level 0 or when no
/// level was built, otherwise the min and the max chain of the level, cut to
/// `known` when that range was computed beforehand and filtered otherwise.
pub open spec fn mipmap_lines(
    v: PlotValues,
    level: nat,
    lo: i64,
    hi: i64,
    known: Option<(nat, nat)>,
) -> Seq<(Seq<char>, Color, Seq<Point>)> {
    let l = level_or_max(v.raw_spec(), level);
    if level == 0 || l.0.len() == 0 {
        raw_lines(v, lo, hi)
    } else {
        let mins = match known {
            Some(r) => extract_spec(l.0, r.0 as int, r.1 as int),
            None => filter_spec(l.0, lo, hi),
        };
        let maxs = match known {
            Some(r) => extract_spec(l.1, r.0 as int, r.1 as int),
            None => filter_spec(l.1, lo, hi),
        };
        seq![
            (v.label_spec() + min_suffix(), v.color_spec(), mins),
            (v.label_spec() + max_suffix(), v.color_spec(), maxs),
        ]
    }
}

/// The lines of one series for a frame under `cfg`.
pub open spec fn series_lines(
    v: PlotValues,
    cfg: MipMapConfiguration,
    pixel_width: nat,
    lo: i64,
    hi: i64,
) -> Seq<(Seq<char>, Color, Seq<Point>)> {
    match cfg {
        MipMapConfiguration::Disabled => raw_lines(v, lo, hi),
        MipMapConfiguration::Manual(l) => mipmap_lines(v, l as nat, lo, hi, None),
        MipMapConfiguration::Auto => {
            let level = auto_level(v.raw_spec(), lo, hi, budget_for(pixel_width));
            let known = if level == 0 {
                None
            } else {
                Some(
                    (
                        index_range_spec(level_spec(v.raw_spec(), level).0, lo, hi).0,
                        index_range_spec(level_spec(v.raw_spec(), level).0, lo, hi).1,
                    ),
                )
            };
            mipmap_lines(v, level, lo, hi, known)
        },
    }
}

/// The lines of all series for a frame, series by series.
pub open spec fn all_lines(
    plots: Seq<PlotValues>,
    cfg: MipMapConfiguration,
    pixel_width: nat,
    lo: i64,
    hi: i64,
) -> Seq<(Seq<char>, Color, Seq<Point>)>
    decreases plots.len(),
{
    if plots.len() == 0 {
        Seq::empty()
    } else {
        all_lines(plots.drop_last(), cfg, pixel_width, lo, hi) + series_lines(
            plots.last(),
            cfg,
            pixel_width,
            lo,
            hi,
        )
    }
}

fn plot_raw(plot_vals: &PlotValues, x_range: (i64, i64)) -> (r: Polyline)
    ensures
        r@.0 == plot_vals.label_spec(),
        r@.1 == plot_vals.color_spec(),
        sorted_by_x(plot_vals.raw_spec()) ==> seq![r@] == raw_lines(*plot_vals, x_range.0, x_range.1),
{
    let points = filter_plot_points(plot_vals.get_raw(), x_range);
    let name = plot_vals.label().to_owned();
    Polyline { name, color: plot_vals.get_color(), points }
}

fn plot_min_max_lines(
    base_label: &str,
    points_min: Vec<Point>,
    points_max: Vec<Point>,
    color: Color,
) -> (r: Vec<Polyline>)
    ensures
        r@.len() == 2,
        r@[0]@ == (base_label@ + min_suffix(), color, points_min@),
        r@[1]@ == (base_label@ + max_suffix(), color, points_max@),
{
    let mut label_min = base_label.to_owned();
    label_min.append(" (min)");
    let mut label_max = base_label.to_owned();
    label_max.append(" (max)");
    proof {
        reveal_strlit(" (min)");
        reveal_strlit(" (max)");
        assert(" (min)"@ =~= min_suffix());
        assert(" (max)"@ =~= max_suffix());
    }
    let mut lines: Vec<Polyline> = Vec::new();
    lines.push(Polyline { name: label_min, color, points: points_min });
    lines.push(Polyline { name: label_max, color, points: points_max });
    lines
}

/// An index range as mathematical integers.
pub open spec fn known_range(o: Option<(usize, usize)>) -> Option<(nat, nat)> {
    match o {
        Some(ir) => Some((ir.0 as nat, ir.1 as nat)),
        None => None,
    }
}

proof fn lemma_level_or_max_facts(raw: Seq<Point>, level: nat)
    ensures
        level_or_max(raw, level).0.len() == level_or_max(raw, level).1.len(),
        sorted_by_x(raw) ==> sorted_by_x(level_or_max(raw, level).0) && sorted_by_x(
            level_or_max(raw, level).1,
        ),
{
    let depth = depth_from(raw.len());
    let k = if level <= depth {
        level
    } else {
        depth
    };
    lemma_level_lens(raw, k);
    if sorted_by_x(raw) {
        lemma_level_sorted(raw, k);
    }
}

fn plot_with_mipmapping(
    plot_vals: &PlotValues,
    mipmap_lvl: usize,
    x_range: (i64, i64),
    known_idx_range: Option<(usize, usize)>,
) -> (r: Vec<Polyline>)
    requires
        plot_vals.wf(),
        known_idx_range matches Some(ir) ==> ir.0 <= ir.1 <= level_or_max(
            plot_vals.raw_spec(),
            mipmap_lvl as nat,
        ).0.len(),
    ensures
        sorted_by_x(plot_vals.raw_spec()) ==> r@.map_values(|l: Polyline| l@) == mipmap_lines(
            *plot_vals,
            mipmap_lvl as nat,
            x_range.0,
            x_range.1,
            known_range(known_idx_range),
        ),
{
    let ghost raw = plot_vals.raw_spec();
    let mut lines: Vec<Polyline> = Vec::new();
    if mipmap_lvl == 0 {
        lines.push(plot_raw(plot_vals, x_range));
        proof {
            if sorted_by_x(raw) {
                assert(lines@.map_values(|l: Polyline| l@) =~= raw_lines(
                    *plot_vals,
                    x_range.0,
                    x_range.1,
                ));
            }
        }
        return lines;
    }
    let (plot_points_min, plot_points_max) = plot_vals.get_level_or_max(mipmap_lvl);
    proof {
        lemma_level_or_max_facts(raw, mipmap_lvl as nat);
    }
    if plot_points_min.len() == 0 {
        lines.push(plot_raw(plot_vals, x_range));
        proof {
            if sorted_by_x(raw) {
                assert(lines@.map_values(|l: Polyline| l@) =~= raw_lines(
                    *plot_vals,
                    x_range.0,
                    x_range.1,
                ));
            }
        }
        return lines;
    }
    let (points_min, points_max) = match known_idx_range {
        Some((start, end)) => extract_range_points(plot_points_min, plot_points_max, start, end),
        None => (
            filter_plot_points(plot_points_min, x_range),
            filter_plot_points(plot_points_max, x_range),
        ),
    };
    let lines = plot_min_max_lines(plot_vals.label(), points_min, points_max, plot_vals.get_color());
    assert(lines@.map_values(|l: Polyline| l@) =~= seq![lines@[0]@, lines@[1]@]);
    lines
}

/// Assembles the lines of all series for one frame: each series is drawn at
/// the level that `mipmap_cfg` selects for a plot `plots_width_pixels` wide,
/// trimmed to `[x_range.0, x_range.1)`.
pub fn plot_lines(
    plots: &[PlotValues],
    mipmap_cfg: MipMapConfiguration,
    plots_width_pixels: usize,
    x_range: (i64, i64),
) -> (r: Vec<Polyline>)
    requires
        forall|i: int| 0 <= i < plots@.len() ==> #[trigger] plots@[i].wf(),
    ensures
        (forall|i: int| 0 <= i < plots@.len() ==> sorted_by_x(#[trigger] plots@[i].raw_spec()))
            ==> r@.map_values(|l: Polyline| l@) == all_lines(
            plots@,
            mipmap_cfg,
            plots_width_pixels as nat,
            x_range.0,
            x_range.1,
        ),
{
    let ghost all_sorted = forall|i: int|
        0 <= i < plots@.len() ==> sorted_by_x(#[trigger] plots@[i].raw_spec());
    let mut out: Vec<Polyline> = Vec::new();
    let mut i: usize = 0;
    assert(plots@.subrange(0, 0) =~= Seq::<PlotValues>::empty());
    while i < plots.len()
        invariant
            i <= plots@.len(),
            forall|j: int| 0 <= j < plots@.len() ==> #[trigger] plots@[j].wf(),
            all_sorted == forall|j: int|
                0 <= j < plots@.len() ==> sorted_by_x(#[trigger] plots@[j].raw_spec()),
            all_sorted ==> out@.map_values(|l: Polyline| l@) == all_lines(
                plots@.subrange(0, i as int),
                mipmap_cfg,
                plots_width_pixels as nat,
                x_range.0,
                x_range.1,
            ),
        decreases plots@.len() - i,
    {
        let plot_vals = &plots[i];
        let mut lines = match mipmap_cfg {
            MipMapConfiguration::Disabled => {
                let mut v: Vec<Polyline> = Vec::new();
                v.push(plot_raw(plot_vals, x_range));
                assert(v@.map_values(|l: Polyline| l@) =~= seq![v@[0]@]);
                v
            },
            MipMapConfiguration::Auto => {
                let (level, idx_range) = plot_vals.get_scaled_mipmap_levels(
                    plots_width_pixels,
                    x_range,
                );
                plot_with_mipmapping(plot_vals, level, x_range, idx_range)
            },
            MipMapConfiguration::Manual(level) => {
                plot_with_mipmapping(plot_vals, level, x_range, None)
            },
        };
        let ghost before = out@;
        out.append(&mut lines);
        proof {
            let sub = plots@.subrange(0, i + 1);
            assert(sub.drop_last() =~= plots@.subrange(0, i as int));
            assert(sub.last() == plots@[i as int]);
        }
        i = i + 1;
    }
    assert(plots@.subrange(0, i as int) =~= plots@);
    out
}

/// Number of envelope quadrilaterals between chains of `n_min` and `n_max`
/// entries: one per pair of consecutive entries that both chains have.
pub open spec fn envelope_len(n_min: nat, n_max: nat) -> nat {
    let n = if n_min <= n_max {
        n_min
    } else {
        n_max
    };
    if n == 0 {
        0
    } else {
        (n - 1) as nat
    }
}

/// The shaded envelope between a level's min and max chains: the
/// quadrilateral `(min[i], min[i + 1], max[i + 1], max[i])` for each pair of
/// consecutive entries.
pub fn envelope_quads(points_min: &[Point], points_max: &[Point]) -> (r: Vec<
    (Point, Point, Point, Point),
>)
    ensures
        r@.len() == envelope_len(points_min@.len(), points_max@.len()),
        forall|i: int|
            0 <= i < r@.len() ==> #[trigger] r@[i] == (
                points_min@[i],
                points_min@[i + 1],
                points_max@[i + 1],
                points_max@[i],
            ),
{
    let n = if points_min.len() <= points_max.len() {
        points_min.len()
    } else {
        points_max.len()
    };
    let mut quads: Vec<(Point, Point, Point, Point)> = Vec::new();
    if n == 0 {
        return quads;
    }
    let mut i: usize = 0;
    while i < n - 1
        invariant
            0 < n <= points_min@.len(),
            n <= points_max@.len(),
            i <= n - 1,
            quads@.len() == i,
            forall|j: int|
                0 <= j < i ==> #[trigger] quads@[j] == (
                    points_min@[j],
                    points_min@[j + 1],
                    points_max@[j + 1],
                    points_max@[j],
                ),
        decreases n - i,
    {
        quads.push((points_min[i], points_min[i + 1], points_max[i + 1], points_max[i]));
        i = i + 1;
    }
    quads
}

/// A text annotation at a data coordinate, such as a state-change marker.
pub struct PlotLabel {
    pub point: Point,
    pub text: String,
}

impl View for PlotLabel {
    type V = (Point, Seq<char>);

    open spec fn view(&self) -> (Point, Seq<char>) {
        (self.point, self.text@)
    }
}

/// The annotations that belong to one log.
pub struct StoredPlotLabels {
    pub log_id: usize,
    pub labels: Vec<PlotLabel>,
}

/// The annotations of all groups whose log is not filtered out, group by
/// group and in stored order. Annotations are never trimmed to a range.
pub open spec fn visible_labels(groups: Seq<StoredPlotLabels>, id_filter: Seq<usize>) -> Seq<
    (Point, Seq<char>),
>
    decreases groups.len(),
{
    if groups.len() == 0 {
        Seq::empty()
    } else {
        visible_labels(groups.drop_last(), id_filter) + if id_filter.contains(
            groups.last().log_id,
        ) {
            Seq::empty()
        } else {
            groups.last().labels@.map_values(|l: PlotLabel| l@)
        }
    }
}

fn contains_id(ids: &[usize], id: usize) -> (r: bool)
    ensures
        r == ids@.contains(id),
{
    let mut i: usize = 0;
    while i < ids.len()
        invariant
            i <= ids@.len(),
            forall|j: int| 0 <= j < i ==> ids@[j] != id,
        decreases ids@.len() - i,
    {
        if ids[i] == id {
            return true;
        }
        i = i + 1;
    }
    false
}

/// The annotations to draw: those of every log whose id is not in
/// `id_filter`.
pub fn plot_labels(label_groups: &[StoredPlotLabels], id_filter: &[usize]) -> (r: Vec<PlotLabel>)
    ensures
        r@.map_values(|l: PlotLabel| l@) == visible_labels(label_groups@, id_filter@),
{
    let mut out: Vec<PlotLabel> = Vec::new();
    let mut g: usize = 0;
    assert(label_groups@.subrange(0, 0) =~= Seq::<StoredPlotLabels>::empty());
    while g < label_groups.len()
        invariant
            g <= label_groups@.len(),
            out@.map_values(|l: PlotLabel| l@) == visible_labels(
                label_groups@.subrange(0, g as int),
                id_filter@,
            ),
        decreases label_groups@.len() - g,
    {
        let group = &label_groups[g];
        let ghost before = out@.map_values(|l: PlotLabel| l@);
        if !contains_id(id_filter, group.log_id) {
            let mut i: usize = 0;
            while i < group.labels.len()
                invariant
                    i <= group.labels@.len(),
                    out@.map_values(|l: PlotLabel| l@) == before + group.labels@.subrange(
                        0,
                        i as int,
                    ).map_values(|l: PlotLabel| l@),
                decreases group.labels@.len() - i,
            {
                let label = &group.labels[i];
                let ghost prev = out@;
                let copy = PlotLabel { point: label.point, text: label.text.clone() };
                assert(copy@ == group.labels@[i as int]@);
                out.push(copy);
                assert(out@.map_values(|l: PlotLabel| l@) =~= prev.map_values(|l: PlotLabel| l@).push(
                    copy@,
                ));
                assert(group.labels@.subrange(0, i + 1).map_values(|l: PlotLabel| l@)
                    =~= group.labels@.subrange(0, i as int).map_values(|l: PlotLabel| l@).push(
                    copy@,
                ));
                i = i + 1;
                assert(out@.map_values(|l: PlotLabel| l@) =~= before + group.labels@.subrange(
                    0,
                    i as int,
                ).map_values(|l: PlotLabel| l@));
            }
            assert(group.labels@.subrange(0, i as int) =~= group.labels@);
        } else {
            assert(before + Seq::<(Point, Seq<char>)>::empty() =~= before);
        }
        proof {
            let sub = label_groups@.subrange(0, g + 1);
            assert(sub.drop_last() =~= label_groups@.subrange(0, g as int));
            assert(sub.last() == label_groups@[g as int]);
        }
        g = g + 1;
    }
    assert(label_groups@.subrange(0, g as int) =~= label_groups@);
    out
}

} // verus!
