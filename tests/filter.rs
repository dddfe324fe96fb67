use plotinator::{extract_range_points, filter_plot_points, index_range, Point};

fn ramp(n: i64) -> Vec<Point> {
    (0..n).map(|i| Point::new(i, i + 1)).collect()
}

#[test]
fn test_less_than_1024_points_no_filtering() {
    let points = ramp(500);
    let x_range = (100, 300);

    // Below the threshold nothing is filtered
    let result = filter_plot_points(&points, x_range);

    assert_eq!(result, points);
}

#[test]
fn test_more_than_1024_points_with_filtering() {
    let points = ramp(1500);
    let x_range = (100, 500);

    let result = filter_plot_points(&points, x_range);

    // First point, the points within the range, last point
    let mut expected: Vec<Point> = vec![Point::new(0, 1)];
    expected.extend_from_slice(&points[100..500]);
    expected.push(Point::new(1499, 1500));

    assert_eq!(result, expected);
}

#[test]
fn test_range_outside_bounds_with_large_data() {
    let points = ramp(1500);
    let x_range = (2000, 3000);

    // Outside the data only the first and last points remain
    let result = filter_plot_points(&points, x_range);

    let expected = vec![Point::new(0, 1), Point::new(1499, 1500)];

    assert_eq!(result, expected);
}

#[test]
fn filter_empty_input_is_empty() {
    let points: Vec<Point> = Vec::new();
    assert!(filter_plot_points(&points, (0, 10)).is_empty());
}

#[test]
fn filter_below_threshold_even_outside_range() {
    let points = ramp(1023);
    assert_eq!(filter_plot_points(&points, (5000, 6000)), points);
}

#[test]
fn filter_at_threshold_filters() {
    let points = ramp(1024);
    let result = filter_plot_points(&points, (10, 20));
    assert_eq!(result.len(), 12);
    assert_eq!(result[0], Point::new(0, 1));
    assert_eq!(result[1], Point::new(10, 11));
    assert_eq!(result[10], Point::new(19, 20));
    assert_eq!(result[11], Point::new(1023, 1024));
}

#[test]
fn filter_whole_range_returns_all() {
    let points = ramp(2000);
    assert_eq!(filter_plot_points(&points, (-5, 5000)), points);
}

#[test]
fn filter_range_at_start_has_no_extra_first_point() {
    let points = ramp(2000);
    let result = filter_plot_points(&points, (-100, 3));
    assert_eq!(
        result,
        vec![Point::new(0, 1), Point::new(1, 2), Point::new(2, 3), Point::new(1999, 2000)]
    );
}

#[test]
fn filter_range_at_end_has_no_extra_last_point() {
    let points = ramp(2000);
    let result = filter_plot_points(&points, (1998, 9000));
    assert_eq!(
        result,
        vec![Point::new(0, 1), Point::new(1998, 1999), Point::new(1999, 2000)]
    );
}

#[test]
fn filter_inverted_range_keeps_only_anchors() {
    let points = ramp(2000);
    let result = filter_plot_points(&points, (500, 100));
    assert_eq!(result, vec![Point::new(0, 1), Point::new(1999, 2000)]);
}

#[test]
fn filter_is_idempotent() {
    let points = ramp(5000);
    for range in [(100, 1300), (0, 10), (4990, 6000), (-10, 2), (7000, 8000), (1200, 3000)] {
        let once = filter_plot_points(&points, range);
        let twice = filter_plot_points(&once, range);
        assert_eq!(once, twice);
    }
}

#[test]
fn filter_keeps_first_and_last_point() {
    let points: Vec<Point> = (0..3000).map(|i| Point::new(i * 3, (i * 7919) % 101)).collect();
    for range in [(0, 1), (300, 600), (9000, 9500), (-50, -10), (4000, 2000)] {
        let result = filter_plot_points(&points, range);
        assert_eq!(result.first(), points.first());
        assert_eq!(result.last(), points.last());
    }
}

#[test]
fn index_range_whole_and_empty() {
    let points = ramp(50);
    assert_eq!(index_range(&points, 0, 50), (0, 50));
    assert_eq!(index_range(&points, -10, 1000), (0, 50));
    let (s, e) = index_range(&points, 100, 200);
    assert_eq!(s, e);
    let (s, e) = index_range(&points, -20, -10);
    assert_eq!(s, e);
    assert_eq!(index_range(&points, 10, 20), (10, 20));
    let empty: Vec<Point> = Vec::new();
    assert_eq!(index_range(&empty, 0, 1), (0, 0));
}

#[test]
fn index_range_with_repeated_x() {
    let points = vec![
        Point::new(1, 0),
        Point::new(2, 0),
        Point::new(2, 1),
        Point::new(2, 2),
        Point::new(3, 0),
    ];
    assert_eq!(index_range(&points, 2, 3), (1, 4));
    assert_eq!(index_range(&points, 2, 2), (1, 1));
}

#[test]
fn extract_range_adds_anchors() {
    let mins = ramp(10);
    let maxs: Vec<Point> = (0..10).map(|i| Point::new(i, 100 + i)).collect();
    let (a, b) = extract_range_points(&mins, &maxs, 3, 6);
    assert_eq!(a, vec![mins[0], mins[3], mins[4], mins[5], mins[9]]);
    assert_eq!(b, vec![maxs[0], maxs[3], maxs[4], maxs[5], maxs[9]]);
}

#[test]
fn extract_range_does_not_repeat_anchors() {
    let mins = ramp(10);
    let (a, _) = extract_range_points(&mins, &mins, 0, 10);
    assert_eq!(a, mins);
    let (a, _) = extract_range_points(&mins, &mins, 4, 4);
    assert_eq!(a, vec![mins[0], mins[9]]);
    let one = vec![Point::new(5, 5)];
    let (a, _) = extract_range_points(&one, &one, 0, 0);
    assert_eq!(a, one);
    let empty: Vec<Point> = Vec::new();
    let (a, b) = extract_range_points(&empty, &empty, 0, 0);
    assert!(a.is_empty() && b.is_empty());
}
