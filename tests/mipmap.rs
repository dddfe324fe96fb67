use plotinator::{MipMapConfiguration, PlotValues, Point, Color, MIPMAP_MIN_LEVEL_LEN};

const RED: Color = Color { r: 255, g: 0, b: 0, a: 255 };

fn noisy(n: i64) -> Vec<Point> {
    let mut state: u64 = 12345;
    (0..n)
        .map(|i| {
            state = state.wrapping_mul(6364136223846793005).wrapping_add(1442695040888963407);
            Point::new(i * 10, ((state >> 33) % 2001) as i64 - 1000)
        })
        .collect()
}

fn series(points: Vec<Point>) -> PlotValues {
    PlotValues::new(points, "speed".to_string(), RED, 7)
}

#[test]
fn short_series_has_no_levels() {
    let values = series(noisy(300));
    assert_eq!(values.mipmap_depth(), 0);
    let (mins, maxs) = values.get_level_or_max(1);
    assert!(mins.is_empty() && maxs.is_empty());
}

#[test]
fn level_lengths_halve_and_stop_at_minimum() {
    let values = series(noisy(3000));
    // 1500, 750, 375 are kept; 188 is below the minimum
    assert_eq!(values.mipmap_depth(), 3);
    assert_eq!(values.get_level_or_max(1).0.len(), 1500);
    assert_eq!(values.get_level_or_max(2).0.len(), 750);
    assert_eq!(values.get_level_or_max(3).1.len(), 375);
    // beyond the deepest level, the deepest is served
    assert_eq!(values.get_level_or_max(9).0.len(), 375);
    assert!(values.get_level_or_max(3).0.len() >= MIPMAP_MIN_LEVEL_LEN);
}

#[test]
fn levels_hold_exact_window_extremes() {
    let raw = noisy(5001);
    let values = series(raw.clone());
    let depth = values.mipmap_depth();
    assert!(depth >= 3);
    for k in 1..=depth {
        let w = 1usize << k;
        let (mins, maxs) = values.get_level_or_max(k);
        assert_eq!(mins.len(), (raw.len() + w - 1) / w);
        for j in 0..mins.len() {
            let window = &raw[j * w..((j + 1) * w).min(raw.len())];
            let lowest = window.iter().map(|p| p.y).min().unwrap();
            let highest = window.iter().map(|p| p.y).max().unwrap();
            assert_eq!(mins[j].y, lowest);
            assert_eq!(maxs[j].y, highest);
            assert!(window.contains(&mins[j]));
            assert!(window.contains(&maxs[j]));
            // ties go to the earliest point of the window
            let first_min = window.iter().find(|p| p.y == lowest).unwrap();
            assert_eq!(&mins[j], first_min);
        }
    }
}

#[test]
fn incremental_growth_matches_full_build() {
    let raw = noisy(4321);
    let full = series(raw.clone());
    let mut grown = series(Vec::new());
    for chunk in raw.chunks(97) {
        grown.push_points(chunk);
    }
    assert_eq!(grown.get_raw(), full.get_raw());
    assert_eq!(grown.mipmap_depth(), full.mipmap_depth());
    for k in 1..=full.mipmap_depth() {
        assert_eq!(grown.get_level_or_max(k), full.get_level_or_max(k));
    }
}

#[test]
fn single_point_appends_match_full_build() {
    let raw = noisy(1100);
    let full = series(raw.clone());
    let mut grown = series(raw[..1].to_vec());
    for p in &raw[1..] {
        grown.push_points(std::slice::from_ref(p));
    }
    assert_eq!(grown.mipmap_depth(), 2);
    for k in 1..=2 {
        assert_eq!(grown.get_level_or_max(k), full.get_level_or_max(k));
    }
}

#[test]
fn level_zero_is_the_raw_series() {
    let raw = noisy(600);
    let values = series(raw.clone());
    let (a, b) = values.get_level_or_max(0);
    assert_eq!(a, &raw[..]);
    assert_eq!(b, &raw[..]);
    assert_eq!(values.label(), "speed");
    assert_eq!(values.get_color(), RED);
    assert_eq!(values.log_id(), 7);
}

#[test]
fn auto_selects_coarser_level_for_dense_view() {
    let raw: Vec<Point> = (0..100_000).map(|i| Point::new(i, i % 17)).collect();
    let values = series(raw);
    assert_eq!(values.mipmap_depth(), 8);
    // budget 2000 points: 100000, 50000, 25000, 12500, 6250, 3125 are too many, 1563 fit
    let (level, range) = values.get_scaled_mipmap_levels(1000, (-1, 200_000));
    assert_eq!(level, 6);
    assert_eq!(range, Some((0, 1563)));
    let (mins, _) = values.get_level_or_max(level);
    let (s, e) = range.unwrap();
    assert!(e - s <= 2 * 1000);
    assert!(mins.len() > 0);
}

#[test]
fn auto_keeps_raw_when_it_fits() {
    let raw: Vec<Point> = (0..100_000).map(|i| Point::new(i, i % 17)).collect();
    let values = series(raw);
    // 1500 visible raw points fit 2 x 1000 pixels
    assert_eq!(values.get_scaled_mipmap_levels(1000, (5000, 6500)), (0, None));
}

#[test]
fn auto_falls_back_to_deepest_level() {
    let raw: Vec<Point> = (0..100_000).map(|i| Point::new(i, i % 17)).collect();
    let values = series(raw);
    let (level, range) = values.get_scaled_mipmap_levels(10, (0, 100_000));
    assert_eq!(level, 8);
    assert_eq!(range, Some((0, 391)));
}

#[test]
fn configuration_modes_select_levels() {
    let raw: Vec<Point> = (0..100_000).map(|i| Point::new(i, i % 17)).collect();
    let values = series(raw);
    let x = (0, 100_000);
    assert_eq!(values.select_level(MipMapConfiguration::Disabled, 1000, x), (0, None));
    assert_eq!(values.select_level(MipMapConfiguration::Manual(3), 1000, x), (3, None));
    assert_eq!(values.select_level(MipMapConfiguration::Manual(40), 1000, x), (8, None));
    assert_eq!(values.select_level(MipMapConfiguration::Auto, 1000, x), (6, Some((0, 1563))));
    let short = series(noisy(100));
    assert_eq!(short.select_level(MipMapConfiguration::Manual(2), 10, x), (0, None));
    assert_eq!(short.select_level(MipMapConfiguration::Auto, 1, (0, 1_000_000)), (0, None));
}
