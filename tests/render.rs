use plotinator::{
    envelope_quads, filter_plot_points, plot_labels, plot_lines, Color, MipMapConfiguration, PlotLabel, PlotValues,
    Point, StoredPlotLabels,
};

const BLUE: Color = Color { r: 0, g: 0, b: 255, a: 255 };

fn dense(n: i64) -> Vec<Point> {
    (0..n).map(|i| Point::new(i, (i * 37) % 1000)).collect()
}

#[test]
fn disabled_draws_one_filtered_raw_line() {
    let raw = dense(5000);
    let values = PlotValues::new(raw.clone(), "rpm".to_string(), BLUE, 1);
    let lines = plot_lines(&[values], MipMapConfiguration::Disabled, 800, (100, 200));
    assert_eq!(lines.len(), 1);
    assert_eq!(lines[0].name, "rpm");
    assert_eq!(lines[0].color, BLUE);
    assert_eq!(lines[0].points, filter_plot_points(&raw, (100, 200)));
}

#[test]
fn manual_level_draws_min_and_max_lines() {
    let raw = dense(5000);
    let values = PlotValues::new(raw, "rpm".to_string(), BLUE, 1);
    let (mins, maxs) = values.get_level_or_max(1);
    let expected_min = filter_plot_points(mins, (0, 10_000));
    let expected_max = filter_plot_points(maxs, (0, 10_000));
    let lines = plot_lines(&[values], MipMapConfiguration::Manual(1), 800, (0, 10_000));
    assert_eq!(lines.len(), 2);
    assert_eq!(lines[0].name, "rpm (min)");
    assert_eq!(lines[1].name, "rpm (max)");
    assert_eq!(lines[0].points, expected_min);
    assert_eq!(lines[1].points, expected_max);
    assert_eq!(lines[0].points.len(), 2500);
}

#[test]
fn auto_uses_precomputed_range_with_anchors() {
    let raw = dense(100_000);
    let values = PlotValues::new(raw, "temp".to_string(), BLUE, 2);
    let (level, range) = values.get_scaled_mipmap_levels(100, (40_000, 60_000));
    assert!(level > 0);
    let (s, e) = range.unwrap();
    let (mins, _) = values.get_level_or_max(level);
    let first = mins[0];
    let last = mins[mins.len() - 1];
    let lines = plot_lines(&[values], MipMapConfiguration::Auto, 100, (40_000, 60_000));
    assert_eq!(lines.len(), 2);
    assert_eq!(lines[0].points.len(), e - s + 2);
    assert_eq!(lines[0].points[0], first);
    assert_eq!(lines[0].points[lines[0].points.len() - 1], last);
}

#[test]
fn short_series_is_drawn_raw_at_any_level() {
    let raw = dense(200);
    let values = PlotValues::new(raw.clone(), "v".to_string(), BLUE, 3);
    let lines = plot_lines(&[values], MipMapConfiguration::Manual(4), 800, (0, 10));
    assert_eq!(lines.len(), 1);
    assert_eq!(lines[0].name, "v");
    assert_eq!(lines[0].points, raw);
}

#[test]
fn lines_follow_series_order() {
    let a = PlotValues::new(dense(10), "a".to_string(), BLUE, 1);
    let b = PlotValues::new(dense(20), "b".to_string(), BLUE, 2);
    let lines = plot_lines(&[a, b], MipMapConfiguration::Auto, 800, (0, 5));
    let names: Vec<&str> = lines.iter().map(|l| l.name.as_str()).collect();
    assert_eq!(names, vec!["a", "b"]);
    assert_eq!(lines[1].points.len(), 20);
}

#[test]
fn labels_are_filtered_by_log_id_only() {
    let label = |x: i64, t: &str| PlotLabel { point: Point::new(x, 1), text: t.to_string() };
    let groups = vec![
        StoredPlotLabels { log_id: 1, labels: vec![label(5, "start"), label(9, "run")] },
        StoredPlotLabels { log_id: 2, labels: vec![label(1_000_000, "far away")] },
        StoredPlotLabels { log_id: 3, labels: vec![label(-4, "stop")] },
    ];
    let shown = plot_labels(&groups, &[3]);
    let texts: Vec<&str> = shown.iter().map(|l| l.text.as_str()).collect();
    assert_eq!(texts, vec!["start", "run", "far away"]);
    assert_eq!(shown[2].point, Point::new(1_000_000, 1));
    assert!(plot_labels(&groups, &[1, 2, 3]).is_empty());
    assert_eq!(plot_labels(&groups, &[]).len(), 4);
}

#[test]
fn envelope_connects_consecutive_min_max_pairs() {
    let mins = vec![Point::new(0, 0), Point::new(2, -1), Point::new(4, 3)];
    let maxs = vec![Point::new(1, 5), Point::new(3, 6), Point::new(5, 4)];
    let quads = envelope_quads(&mins, &maxs);
    assert_eq!(
        quads,
        vec![(mins[0], mins[1], maxs[1], maxs[0]), (mins[1], mins[2], maxs[2], maxs[1])]
    );
    assert!(envelope_quads(&mins[..1], &maxs[..1]).is_empty());
    assert!(envelope_quads(&[], &maxs).is_empty());
}
