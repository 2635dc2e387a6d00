use wallpaper::fixed::SCALE;
use wallpaper::grid::GridInfo;
use wallpaper::model::{event, new_objects, update, Event, Model, SWAP_PERIOD};
use wallpaper::palette::{palette, Colour, PALETTE_LEN};
use wallpaper::rng::Rng;
use wallpaper::semicircle::{SemiCircle, SemiCircleType, Transition};

fn test_grid() -> GridInfo {
    GridInfo::new(1600, 900, 16)
}

fn idle_object(pos: (i64, i64)) -> SemiCircle {
    SemiCircle {
        transition: None,
        pos,
        orientation: 1,
        semi_circle_type: SemiCircleType::Filled,
        colour: 3,
    }
}

fn small_model(objects: Vec<SemiCircle>, rng: &mut Rng) -> Model {
    let grid: GridInfo = test_grid();
    let live: Vec<Colour> = palette(rng);
    let pending: Vec<Colour> = palette(rng);
    Model {
        palette: live,
        grid,
        objects,
        last_anim_time: 0,
        last_p_swap_time: 0,
        new_palette: pending,
    }
}

#[test]
fn idle_object_renders_at_stored_pose_at_any_time() {
    let grid: GridInfo = test_grid();
    let obj: SemiCircle = idle_object((3, 4));
    let expected: (i64, i64) = grid.pos_of((3, 4));
    for &t in [0i64, 1, 1_000_000, 123_456_789, 9_999_999_999].iter() {
        assert_eq!(obj.get_pos(&grid, t), expected);
        assert_eq!(obj.get_orientation(&grid, t), 1_570_796);
    }
}

#[test]
fn finalise_snaps_translation_to_target_and_clears() {
    let grid: GridInfo = test_grid();
    let mut obj: SemiCircle = idle_object((3, 4));
    obj.transition = Some((Transition::Translation((3, 5)), 1_000_000));
    Transition::Translation((3, 5)).finalise(&mut obj);
    assert_eq!(obj.pos, (3, 5));
    assert!(obj.transition.is_none());
    // every later pose query returns exactly the snapped target
    let expected: (i64, i64) = grid.pos_of((3, 5));
    for &t in [0i64, 2_000_000, 50_000_000].iter() {
        assert_eq!(obj.get_pos(&grid, t), expected);
    }
}

#[test]
fn finalise_snaps_rotation_to_target_and_clears() {
    let grid: GridInfo = test_grid();
    let mut obj: SemiCircle = idle_object((3, 4));
    obj.transition = Some((Transition::Rotation(2), 1_000_000));
    Transition::Rotation(2).finalise(&mut obj);
    assert_eq!(obj.orientation, 2);
    assert!(obj.transition.is_none());
    for &t in [0i64, 2_000_000, 50_000_000].iter() {
        assert_eq!(obj.get_orientation(&grid, t), 2 * 1_570_796);
    }
}

#[test]
fn mid_translation_pose_interpolates_between_cells() {
    let grid: GridInfo = test_grid();
    let mut obj: SemiCircle = idle_object((3, 4));
    let t0: i64 = 10_000_000;
    obj.transition = Some((Transition::Translation((4, 4)), t0));
    let from: (i64, i64) = grid.pos_of((3, 4));
    let to: (i64, i64) = grid.pos_of((4, 4));
    // before the start the progress clamps to zero
    assert_eq!(obj.get_pos(&grid, t0), from);
    // far past the duration the eased progress has settled at one
    assert_eq!(obj.get_pos(&grid, t0 + 3_000_000), to);
    // mid-flight the pose lies off the start cell
    let mid: (i64, i64) = obj.get_pos(&grid, t0 + 1_500_000);
    assert_ne!(mid, from);
    assert_eq!(mid.1, from.1, "a horizontal slide keeps the row");
}

#[test]
fn trigger_on_busy_object_is_a_noop() {
    let mut seed_rng: Rng = Rng::new(7);
    let mut busy: SemiCircle = idle_object((3, 4));
    busy.transition = Some((Transition::Rotation(2), 5_000_000));
    let mut model: Model = small_model(vec![busy], &mut seed_rng);
    let before_objects: Vec<SemiCircle> = model.objects.clone();
    let mut rng: Rng = Rng::new(99);
    wallpaper::model::trigger(&mut model, 6_000_000, &mut rng);
    assert_eq!(model.objects, before_objects);
    assert_eq!(model.last_anim_time, 0);
}

#[test]
fn trigger_on_idle_object_starts_a_transition_with_current_time() {
    let mut seed_rng: Rng = Rng::new(7);
    let mut model: Model = small_model(vec![idle_object((3, 4))], &mut seed_rng);
    // find a seed whose second draw picks the rotation branch
    let mut seed: u64 = 0;
    loop {
        let mut probe: Rng = Rng::new(seed);
        let _d1: u64 = probe.next();
        let d2: u64 = probe.next();
        if d2 % 2 == 0 {
            break;
        }
        seed += 1;
    }
    let mut rng: Rng = Rng::new(seed);
    let mut probe: Rng = Rng::new(seed);
    let _d1: u64 = probe.next();
    let _d2: u64 = probe.next();
    let d3: u64 = probe.next();
    let expected_target: i64 = if d3 % 2 == 0 { 2 } else { 0 };
    wallpaper::model::trigger(&mut model, 6_000_000, &mut rng);
    assert_eq!(
        model.objects[0].transition,
        Some((Transition::Rotation(expected_target), 6_000_000))
    );
}

#[test]
fn trigger_drops_translation_that_leaves_the_grid() {
    // the single object sits in the corner; find a seed that picks the
    // translation branch with the (-1, 0) direction
    let mut seed: u64 = 0;
    loop {
        let mut probe: Rng = Rng::new(seed);
        let _d1: u64 = probe.next();
        let d2: u64 = probe.next();
        let d3: u64 = probe.next();
        if d2 % 2 != 0 && d3 % 4 == 0 {
            break;
        }
        seed += 1;
    }
    let mut seed_rng: Rng = Rng::new(7);
    let mut model: Model = small_model(vec![idle_object((0, 0))], &mut seed_rng);
    let mut rng: Rng = Rng::new(seed);
    wallpaper::model::trigger(&mut model, 6_000_000, &mut rng);
    assert!(model.objects[0].transition.is_none());
}

#[test]
fn update_finalises_overdue_transition() {
    let mut seed_rng: Rng = Rng::new(7);
    let mut moving: SemiCircle = idle_object((3, 4));
    moving.transition = Some((Transition::Translation((3, 5)), 0));
    let mut model: Model = small_model(vec![moving], &mut seed_rng);
    // grace period is 3.0 s * 1.2 = 3.6 s; stay under the trigger delay
    model.last_anim_time = 3_400_000;
    let mut rng: Rng = Rng::new(1);
    update(&mut model, 3_700_000, &mut rng);
    assert_eq!(model.objects[0].pos, (3, 5));
    assert!(model.objects[0].transition.is_none());
}

#[test]
fn update_keeps_transition_inside_grace_period() {
    let mut seed_rng: Rng = Rng::new(7);
    let mut moving: SemiCircle = idle_object((3, 4));
    moving.transition = Some((Transition::Translation((3, 5)), 0));
    let mut model: Model = small_model(vec![moving], &mut seed_rng);
    model.last_anim_time = 3_400_000;
    let mut rng: Rng = Rng::new(1);
    update(&mut model, 3_500_000, &mut rng);
    assert_eq!(
        model.objects[0].transition,
        Some((Transition::Translation((3, 5)), 0))
    );
    assert_eq!(model.objects[0].pos, (3, 4));
}

#[test]
fn update_rolls_the_palette_over_on_its_period() {
    let mut seed_rng: Rng = Rng::new(7);
    let mut model: Model = small_model(vec![idle_object((3, 4))], &mut seed_rng);
    let pending: Vec<Colour> = model.new_palette.clone();
    model.last_anim_time = SWAP_PERIOD + 1_000_000;
    let mut rng: Rng = Rng::new(1);
    update(&mut model, SWAP_PERIOD + 1_000_000, &mut rng);
    assert_eq!(model.palette, pending);
    assert_eq!(model.new_palette.len(), PALETTE_LEN);
    assert_ne!(model.new_palette, pending);
    assert_eq!(model.last_p_swap_time, SWAP_PERIOD + 1_000_000);
}

#[test]
fn palette_request_event_replaces_live_palette_only() {
    let mut seed_rng: Rng = Rng::new(7);
    let mut model: Model = small_model(vec![idle_object((3, 4))], &mut seed_rng);
    let pending: Vec<Colour> = model.new_palette.clone();
    let old_live: Vec<Colour> = model.palette.clone();
    let mut rng: Rng = Rng::new(12345);
    event(&mut model, Event::PaletteRequest, &mut rng);
    assert_eq!(model.palette.len(), PALETTE_LEN);
    assert_ne!(model.palette, old_live);
    assert_eq!(model.new_palette, pending);
    let mut model2: Model = small_model(vec![idle_object((3, 4))], &mut Rng::new(7));
    let live2: Vec<Colour> = model2.palette.clone();
    event(&mut model2, Event::Other, &mut rng);
    assert_eq!(model2.palette, live2);
}

#[test]
fn new_objects_fills_every_cell_twice_idle() {
    let grid: GridInfo = test_grid();
    let mut rng: Rng = Rng::new(42);
    let objs: Vec<SemiCircle> = new_objects(&grid, &mut rng);
    assert_eq!(objs.len(), 2 * 16 * 9);
    for o in objs.iter() {
        assert!(o.transition.is_none());
        assert!(o.pos.0 >= 0 && o.pos.0 < 16);
        assert!(o.pos.1 >= 0 && o.pos.1 < 9);
        assert!(o.orientation >= 0 && o.orientation < 4);
        assert!(o.colour < PALETTE_LEN);
    }
}

#[test]
fn model_new_builds_a_full_simulation() {
    let mut rng: Rng = Rng::new(5);
    let m: Model = Model::new(1600, 900, &mut rng);
    assert_eq!(m.objects.len(), 2 * 16 * 9);
    assert_eq!(m.palette.len(), PALETTE_LEN);
    assert_eq!(m.new_palette.len(), PALETTE_LEN);
    assert_eq!(m.last_anim_time, 0);
    assert_eq!(m.last_p_swap_time, 0);
    assert_eq!(m.grid.num_tiles, (16, 9));
}

#[test]
fn same_seed_gives_same_simulation() {
    let m1: Model = Model::new(1600, 900, &mut Rng::new(11));
    let m2: Model = Model::new(1600, 900, &mut Rng::new(11));
    assert_eq!(m1.objects, m2.objects);
    assert_eq!(m1.palette, m2.palette);
    assert_eq!(m1.new_palette, m2.new_palette);
}

#[test]
fn new_objects_places_two_objects_on_every_cell() {
    let grid: GridInfo = test_grid();
    let mut rng: Rng = Rng::new(42);
    let objs: Vec<SemiCircle> = new_objects(&grid, &mut rng);
    for x in 0..16i64 {
        for y in 0..9i64 {
            let here: usize = objs.iter().filter(|o| o.pos == (x, y)).count();
            assert_eq!(here, 2, "cell ({x},{y}) holds {here} objects");
        }
    }
}

#[test]
fn model_new_consumes_a_fixed_number_of_draws() {
    let mut used: Rng = Rng::new(11);
    let _m: Model = Model::new(1600, 900, &mut used);
    // one draw per palette, six per object created, one per shuffle swap
    let mut reference: Rng = Rng::new(11);
    for _ in 0..(8 * 16 * 9 + 1) {
        let _d: u64 = reference.next();
    }
    assert_eq!(used, reference);
}
