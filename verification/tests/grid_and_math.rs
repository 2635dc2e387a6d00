use wallpaper::fixed::SCALE;
use wallpaper::grid::GridInfo;
use wallpaper::math::{cos_fx, exp2_neg, pow12, root5, sin_fx, HALF_PI, PI_FX};

#[test]
fn grid_layout_example() {
    let g: GridInfo = GridInfo::new(1600, 900, 16);
    assert_eq!(g.tile_size, 100 * SCALE);
    assert_eq!(g.num_tiles, (16, 9));
    assert_eq!(g.wh, (1600 * SCALE, 900 * SCALE));
}

#[test]
fn grid_origin_cell_screen_position() {
    let g: GridInfo = GridInfo::new(1600, 900, 16);
    let p: (i64, i64) = g.pos_of((0, 0));
    assert_eq!(p, (-750 * SCALE, -400 * SCALE));
}

#[test]
fn grid_positions_are_distinct_across_cells() {
    let g: GridInfo = GridInfo::new(1600, 900, 16);
    let mut seen: Vec<(i64, i64)> = Vec::new();
    for x in 0..16 {
        for y in 0..9 {
            let p: (i64, i64) = g.pos_of((x, y));
            assert!(!seen.contains(&p), "duplicate screen point for ({x},{y})");
            seen.push(p);
        }
    }
}

#[test]
fn contains_rejects_outside_coordinates() {
    let g: GridInfo = GridInfo::new(1600, 900, 16);
    assert!(g.contains((0, 0)));
    assert!(g.contains((15, 8)));
    assert!(!g.contains((-1, 0)));
    assert!(!g.contains((0, -1)));
    assert!(!g.contains((16, 0)));
    assert!(!g.contains((0, 9)));
    assert!(!g.contains((-3, 11)));
}

#[test]
fn short_viewport_clamps_to_one_row() {
    let g: GridInfo = GridInfo::new(1600, 50, 16);
    assert_eq!(g.tile_size, 100 * SCALE);
    assert_eq!(g.num_tiles.1, 1);
    assert_eq!(g.wh.1, 100 * SCALE);
}

#[test]
fn sine_and_cosine_reference_points() {
    assert_eq!(sin_fx(0), 0);
    let s1: i64 = sin_fx(HALF_PI);
    assert!((s1 - SCALE).abs() <= 5, "sin(pi/2) = {s1}");
    let s2: i64 = sin_fx(PI_FX);
    assert!(s2.abs() <= 5, "sin(pi) = {s2}");
    let s3: i64 = sin_fx(-HALF_PI);
    assert!((s3 + SCALE).abs() <= 5, "sin(-pi/2) = {s3}");
    let c0: i64 = cos_fx(0);
    assert!((c0 - SCALE).abs() <= 5, "cos(0) = {c0}");
    let s6: i64 = sin_fx(523_599);
    assert!((s6 - 500_000).abs() <= 5, "sin(pi/6) = {s6}");
}

#[test]
fn exponential_reference_points() {
    assert_eq!(exp2_neg(0), 1_000_000);
    let h: i64 = exp2_neg(1_000_000);
    assert!((h - 500_000).abs() <= 5, "2^-1 = {h}");
    let q: i64 = exp2_neg(5_000_000);
    assert!((q - 31_250).abs() <= 5, "2^-5 = {q}");
}

#[test]
fn fifth_root_exact_points() {
    assert_eq!(root5(0), 0);
    assert_eq!(root5(1_000_000), 1_000_000);
    // (1/32)^(1/5) == 1/2
    assert_eq!(root5(31_250), 500_000);
}

#[test]
fn pow_one_point_two_reference_points() {
    assert_eq!(pow12(0), 0);
    assert_eq!(pow12(1_000_000), 1_000_000);
    // 0.5^1.2 = 0.435275...
    let v: i64 = pow12(500_000);
    assert!((v - 435_275).abs() <= 5, "0.5^1.2 = {v}");
}

#[test]
fn narrow_viewport_clamps_to_one_column_per_pixel() {
    // five pixels cannot carry sixteen columns: the layout clamps to five
    let g: GridInfo = GridInfo::new(5, 900, 16);
    assert_eq!(g.num_tiles.0, 5);
    assert_eq!(g.tile_size, SCALE);
    assert_eq!(g.num_tiles.1, 900);
}
