use wallpaper::fixed::{fx_mul, SCALE};
use wallpaper::grid::GridInfo;
use wallpaper::math::cos_fx;
use wallpaper::model::{current_colour, Model, PRE_SWAP_WINDOW, SWAP_PERIOD};
use wallpaper::palette::{palette, Colour, PALETTE_LEN};
use wallpaper::render::{draw_palette_bg, view, Primitive};
use wallpaper::rng::Rng;
use wallpaper::semicircle::{SemiCircle, SemiCircleType};

fn test_model(objects: Vec<SemiCircle>) -> Model {
    let mut rng: Rng = Rng::new(7);
    let grid: GridInfo = GridInfo::new(1600, 900, 16);
    let live: Vec<Colour> = palette(&mut rng);
    let pending: Vec<Colour> = palette(&mut rng);
    Model {
        palette: live,
        grid,
        objects,
        last_anim_time: 0,
        last_p_swap_time: 0,
        new_palette: pending,
    }
}

fn idle_object(kind: SemiCircleType) -> SemiCircle {
    SemiCircle {
        transition: None,
        pos: (0, 0),
        orientation: 0,
        semi_circle_type: kind,
        colour: 2,
    }
}

#[test]
fn palette_always_has_exactly_eight_entries() {
    for seed in 0..20u64 {
        let mut rng: Rng = Rng::new(seed);
        let p: Vec<Colour> = palette(&mut rng);
        assert_eq!(p.len(), PALETTE_LEN);
    }
}

#[test]
fn palette_hues_sweep_monotonically_with_one_wrap() {
    for seed in 0..20u64 {
        let mut rng: Rng = Rng::new(seed);
        let p: Vec<Colour> = palette(&mut rng);
        let mut wraps: usize = 0;
        for i in 0..PALETTE_LEN - 1 {
            let a: i64 = p[i].hue;
            let b: i64 = p[i + 1].hue;
            if b == a + 125_000 {
                // strictly increasing step
            } else if b == a + 125_000 - SCALE {
                wraps += 1;
            } else {
                panic!("hue step from {a} to {b} is not one eighth of a turn");
            }
            assert!(p[i].hue >= 0 && p[i].hue < SCALE);
        }
        assert!(wraps <= 1, "hue sweep wrapped more than once");
    }
}

#[test]
fn palette_is_deterministic_for_a_seed() {
    let p1: Vec<Colour> = palette(&mut Rng::new(123));
    let p2: Vec<Colour> = palette(&mut Rng::new(123));
    assert_eq!(p1, p2);
    let p3: Vec<Colour> = palette(&mut Rng::new(124));
    assert_ne!(p1, p3);
}

#[test]
fn palette_saturation_and_lightness_stay_in_range() {
    let p: Vec<Colour> = palette(&mut Rng::new(9));
    for c in p.iter() {
        assert!(c.saturation >= 0 && c.saturation <= 1_200_000);
        assert!(c.lightness >= 0 && c.lightness <= 800_000);
    }
}

#[test]
fn filled_object_draws_one_polygon_with_201_points() {
    let model: Model = test_model(vec![idle_object(SemiCircleType::Filled)]);
    let prims: Vec<Primitive> = model.objects[0].draw(&model.palette, &model.grid, 0);
    assert_eq!(prims.len(), 1);
    match &prims[0] {
        Primitive::Polygon { points, colour } => {
            assert_eq!(points.len(), 201);
            assert_eq!(*colour, model.palette[2]);
            // first sample: centre + radius * (cos 0, sin 0)
            let centre: (i64, i64) = model.grid.pos_of((0, 0));
            let radius: i64 = model.grid.tile_size / 2;
            let expect_x: i64 = centre.0 + fx_mul(cos_fx(0), radius);
            assert_eq!(points[0], (expect_x, centre.1));
        }
        _ => panic!("expected a polygon"),
    }
}

#[test]
fn striped_object_draws_three_rings_with_rising_radii() {
    let model: Model = test_model(vec![idle_object(SemiCircleType::Striped)]);
    let prims: Vec<Primitive> = model.objects[0].draw(&model.palette, &model.grid, 0);
    assert_eq!(prims.len(), 3);
    let radius: i64 = model.grid.tile_size / 2;
    let mut first_xs: Vec<i64> = Vec::new();
    for p in prims.iter() {
        match p {
            Primitive::Polyline { points, weight, colour } => {
                assert_eq!(points.len(), 201);
                assert_eq!(*weight, fx_mul(radius, 166_667));
                assert_eq!(*colour, model.palette[2]);
                first_xs.push(points[0].0);
            }
            _ => panic!("expected a polyline"),
        }
    }
    assert!(first_xs[0] < first_xs[1] && first_xs[1] < first_xs[2]);
}

#[test]
fn background_draws_one_band_per_palette_entry() {
    let model: Model = test_model(vec![idle_object(SemiCircleType::Filled)]);
    let prims: Vec<Primitive> = draw_palette_bg(&model, 900 * SCALE, 0);
    assert_eq!(prims.len(), PALETTE_LEN);
    match &prims[0] {
        Primitive::Polygon { points, colour } => {
            assert_eq!(
                points.as_slice(),
                &[
                    (-800 * SCALE, -450 * SCALE),
                    (-600 * SCALE, -450 * SCALE),
                    (-600 * SCALE, 450 * SCALE),
                    (-800 * SCALE, 450 * SCALE),
                ]
            );
            assert_eq!(*colour, model.palette[0]);
        }
        _ => panic!("expected a polygon band"),
    }
}

#[test]
fn frame_holds_bands_then_object_primitives() {
    let model: Model = test_model(vec![
        idle_object(SemiCircleType::Filled),
        idle_object(SemiCircleType::Striped),
    ]);
    let prims: Vec<Primitive> = view(&model, 900 * SCALE, 0);
    assert_eq!(prims.len(), PALETTE_LEN + 1 + 3);
    assert!(matches!(prims[7], Primitive::Polygon { .. }));
    assert!(matches!(prims[8], Primitive::Polygon { .. }));
    assert!(matches!(prims[9], Primitive::Polyline { .. }));
}

#[test]
fn pending_palette_ticks_in_before_the_swap() {
    let model: Model = test_model(vec![idle_object(SemiCircleType::Filled)]);
    let window_start: i64 = SWAP_PERIOD - PRE_SWAP_WINDOW;
    // before the window every index serves the live palette
    for i in 0..PALETTE_LEN {
        assert_eq!(current_colour(&model, i, window_start - 1), model.palette[i]);
    }
    // halfway through the window the first half has ticked over
    let now: i64 = window_start + PRE_SWAP_WINDOW / 2;
    for i in 0..4 {
        assert_eq!(current_colour(&model, i, now), model.new_palette[i]);
    }
    for i in 4..PALETTE_LEN {
        assert_eq!(current_colour(&model, i, now), model.palette[i]);
    }
}
