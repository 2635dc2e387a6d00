//! The simulation: the grid, its objects, the live and pending palettes,
//! and the per-tick step that finalises overdue transitions, fires the
//! stochastic trigger, and rolls the palette over on its fixed period.
//!
//! Every stochastic choice comes from the injected [`Rng`], so the whole
//! step is a pure function of the state, the clock and the seed, and the
//! contracts pin it exactly.

use vstd::prelude::*;

use crate::fixed::{fx_mul, fx_mul_s};
use crate::grid::{grid_info_s, GridInfo};
use crate::palette::{fresh_palette_ok, palette, Colour, PALETTE_LEN};
use crate::rng::{lemma_rng_iter_add, lemma_rng_iter_step, rng_iter_s, rng_next_s, Rng};
use crate::semicircle::{SemiCircle, SemiCircleType, Transition, ORIENT_BOUND, TIME_BOUND};

verus! {

/// Micro-seconds between two palette swaps.
pub const SWAP_PERIOD: i64 = 60_000_000;

/// Length of the window before a swap in which the pending palette's
/// entries tick in one by one, in micro-seconds.
pub const PRE_SWAP_WINDOW: i64 = 4_000_000;

/// The whole simulation state.
pub struct Model {
    /// The live palette.
    pub palette: Vec<Colour>,
    /// The tile layout.
    pub grid: GridInfo,
    /// Every animated object.
    pub objects: Vec<SemiCircle>,
    /// When the stochastic trigger last fired, micro-seconds.
    pub last_anim_time: i64,
    /// When the palette last rolled over, micro-seconds.
    pub last_p_swap_time: i64,
    /// The pending palette, ticked in before the next swap.
    pub new_palette: Vec<Colour>,
}

impl Model {
    /// The grid is well formed, both palettes are full, and every
    /// object sits legally on the grid.
    pub open spec fn wf(self) -> bool {
        &&& self.grid.wf()
        &&& self.palette.len() == PALETTE_LEN
        &&& self.new_palette.len() == PALETTE_LEN
        &&& 1 <= self.objects.len() <= 10_000_000_000
        &&& forall|i: int|
            0 <= i < self.objects.len() ==> (#[trigger] self.objects[i]).wf(self.grid)
        &&& 0 <= self.last_anim_time <= TIME_BOUND
        &&& 0 <= self.last_p_swap_time <= TIME_BOUND
    }
}

/// The discrete state a transition snaps to when it ends.
pub open spec fn snapped_s(c: SemiCircle) -> SemiCircle {
    match c.transition {
        Some((t, start)) => match t {
            Transition::Rotation(o2) => SemiCircle {
                transition: None,
                pos: c.pos,
                orientation: o2,
                semi_circle_type: c.semi_circle_type,
                colour: c.colour,
            },
            Transition::Translation(p2) => SemiCircle {
                transition: None,
                pos: p2,
                orientation: c.orientation,
                semi_circle_type: c.semi_circle_type,
                colour: c.colour,
            },
        },
        None => c,
    }
}

/// Whether the object's transition has outlived the grace period
/// `duration * grace`.
pub open spec fn overdue_s(c: SemiCircle, g: GridInfo, now: int) -> bool {
    match c.transition {
        Some((t, start)) => now - start > fx_mul_s(
            g.transition_duration as int,
            g.transition_grace as int,
        ),
        None => false,
    }
}

/// One object after the finalise pass of a tick.
pub open spec fn settle_s(c: SemiCircle, g: GridInfo, now: int) -> SemiCircle {
    if overdue_s(c, g, now) {
        snapped_s(c)
    } else {
        c
    }
}

/// Settling preserves well-formedness.
pub proof fn lemma_settle_wf(c: SemiCircle, g: GridInfo, now: int)
    requires
        c.wf(g),
    ensures
        settle_s(c, g, now).wf(g),
{
}

/// Law: finalising an overdue transition snaps the discrete state to
/// the exact target and clears the transition, and every later pose
/// query — at any time, until some new trigger — returns exactly that
/// target, with no further interpolation.
pub proof fn lemma_finalising_snaps_to_target(c: SemiCircle, g: GridInfo, now: int, later: int)
    requires
        overdue_s(c, g, now),
    ensures
        settle_s(c, g, now).transition is None,
        match c.transition {
            Some((Transition::Rotation(o2), start)) => {
                &&& settle_s(c, g, now).orientation == o2
                &&& crate::semicircle::get_orientation_s(settle_s(c, g, now), g, later) == o2 * (
                crate::math::HALF_PI as int)
            },
            Some((Transition::Translation(p2), start)) => {
                &&& settle_s(c, g, now).pos == p2
                &&& crate::semicircle::get_pos_s(settle_s(c, g, now), g, later)
                    == crate::grid::pos_of_s(g, p2.0 as int, p2.1 as int)
            },
            None => false,
        },
{
}

/// The rotation direction a draw picks: one quarter turn either way.
pub open spec fn rot_delta_s(d: u64) -> int {
    if d % 2 == 0 {
        1
    } else {
        -1
    }
}

/// The axis-aligned direction a draw picks.
pub open spec fn dir_s(d: u64) -> (int, int) {
    if d % 4 == 0 {
        (-1, 0)
    } else if d % 4 == 1 {
        (1, 0)
    } else if d % 4 == 2 {
        (0, 1)
    } else {
        (0, -1)
    }
}

/// The object list and generator state after one stochastic trigger at
/// `time`, starting from generator state `s0`: one draw picks an
/// object; a busy object drops the trigger; otherwise a coin picks
/// rotation or translation, a third draw picks the quarter turn or the
/// neighbour, and a target off the grid — or a quarter turn past the
/// orientation budget — drops the trigger too.
pub open spec fn triggered_s(objs: Seq<SemiCircle>, g: GridInfo, time: int, s0: u64) -> (
    Seq<SemiCircle>,
    u64,
) {
    let d1 = rng_next_s(s0);
    let i = (d1 % (objs.len() as u64)) as int;
    let chosen = objs[i];
    if chosen.transition is Some {
        (objs, d1)
    } else {
        let d2 = rng_next_s(d1);
        let d3 = rng_next_s(d2);
        if d2 % 2 == 0 {
            let o2 = chosen.orientation + rot_delta_s(d3);
            if -ORIENT_BOUND <= o2 <= ORIENT_BOUND {
                (
                    objs.update(
                        i,
                        SemiCircle {
                            transition: Some((Transition::Rotation(o2 as i64), time as i64)),
                            pos: chosen.pos,
                            orientation: chosen.orientation,
                            semi_circle_type: chosen.semi_circle_type,
                            colour: chosen.colour,
                        },
                    ),
                    d3,
                )
            } else {
                (objs, d3)
            }
        } else {
            let dir = dir_s(d3);
            let px = chosen.pos.0 + dir.0;
            let py = chosen.pos.1 + dir.1;
            if 0 <= px < g.num_tiles.0 && 0 <= py < g.num_tiles.1 {
                (
                    objs.update(
                        i,
                        SemiCircle {
                            transition: Some(
                                (Transition::Translation((px as i64, py as i64)), time as i64),
                            ),
                            pos: chosen.pos,
                            orientation: chosen.orientation,
                            semi_circle_type: chosen.semi_circle_type,
                            colour: chosen.colour,
                        },
                    ),
                    d3,
                )
            } else {
                (objs, d3)
            }
        }
    }
}

/// Law: a trigger that lands on an object already in transition is a
/// no-op — the object list, with every transition target and start
/// time in it, is returned unchanged.
pub proof fn lemma_trigger_busy_is_noop(objs: Seq<SemiCircle>, g: GridInfo, time: int, s0: u64)
    requires
        1 <= objs.len(),
        objs[(rng_next_s(s0) % (objs.len() as u64)) as int].transition is Some,
    ensures
        triggered_s(objs, g, time, s0).0 == objs,
{
}

/// A random cardinal orientation, in quarter turns.
pub fn random_orientation(rng: &mut Rng) -> (o: i64)
    ensures
        final(rng).state == rng_next_s(old(rng).state),
        o == rng_next_s(old(rng).state) % 4,
        0 <= o < 4,
{
    let d: u64 = rng.below(4);
    d as i64
}

/// A random axis-aligned unit direction.
pub fn random_direction(rng: &mut Rng) -> (r: (i64, i64))
    ensures
        final(rng).state == rng_next_s(old(rng).state),
        (r.0 as int, r.1 as int) == dir_s(rng_next_s(old(rng).state)),
{
    let d: u64 = rng.next();
    if d % 4 == 0 {
        (-1, 0)
    } else if d % 4 == 1 {
        (1, 0)
    } else if d % 4 == 2 {
        (0, 1)
    } else {
        (0, -1)
    }
}

/// A random drawing variant.
pub fn random_semi_circle_type(rng: &mut Rng) -> (r: SemiCircleType)
    ensures
        final(rng).state == rng_next_s(old(rng).state),
        r == (if rng_next_s(old(rng).state) % 2 == 0 {
            SemiCircleType::Filled
        } else {
            SemiCircleType::Striped
        }),
{
    let d: u64 = rng.next();
    if d % 2 == 0 {
        SemiCircleType::Filled
    } else {
        SemiCircleType::Striped
    }
}

/// The grid cell under each object, in list order.
pub open spec fn positions_of(objs: Seq<SemiCircle>) -> Seq<(i64, i64)> {
    objs.map_values(|c: SemiCircle| c.pos)
}

/// How often the grid population built as far as column `x`, row `y`
/// holds the cell `q`: twice for every completed cell, never
/// otherwise.
pub open spec fn built_cells_count_s(x: int, y: int, ny: int, q: (i64, i64)) -> int {
    if 0 <= q.0 && 0 <= q.1 < ny && (q.0 < x || (q.0 == x && q.1 < y)) {
        2
    } else {
        0
    }
}

/// Every cell of the grid carries exactly two of the objects.
#[verifier::opaque]
pub open spec fn two_per_cell(objs: Seq<SemiCircle>, g: GridInfo) -> bool {
    forall|q: (i64, i64)|
        0 <= q.0 < g.num_tiles.0 && 0 <= q.1 < g.num_tiles.1 ==> positions_of(
            objs,
        ).to_multiset().count(q) == 2
}

/// Appending an object adds exactly its cell to the position multiset.
proof fn lemma_positions_push(objs: Seq<SemiCircle>, c: SemiCircle)
    ensures
        positions_of(objs.push(c)).to_multiset() == positions_of(objs).to_multiset().insert(
            c.pos,
        ),
{
    assert(positions_of(objs.push(c)) =~= positions_of(objs).push(c.pos));
    positions_of(objs).to_multiset_ensures();
    assert(positions_of(objs).push(c.pos).to_multiset() =~= positions_of(
        objs,
    ).to_multiset().insert(c.pos));
}

/// Appending the cell's two objects advances the per-cell population
/// counts from row `y` to row `y + 1`.
proof fn lemma_cell_pair_counts(
    objs: Seq<SemiCircle>,
    first: SemiCircle,
    second: SemiCircle,
    x: int,
    y: int,
    ny: int,
)
    requires
        0 <= x <= 65_536,
        0 <= y < ny,
        ny <= 65_536,
        first.pos == (x as i64, y as i64),
        second.pos == (x as i64, y as i64),
        forall|q: (i64, i64)|
            positions_of(objs).to_multiset().count(q) == built_cells_count_s(x, y, ny, q),
    ensures
        forall|q: (i64, i64)|
            positions_of(objs.push(first).push(second)).to_multiset().count(q)
                == built_cells_count_s(x, y + 1, ny, q),
{
    broadcast use vstd::multiset::group_multiset_axioms;

    lemma_positions_push(objs, first);
    lemma_positions_push(objs.push(first), second);
    assert forall|q: (i64, i64)|
        positions_of(objs.push(first).push(second)).to_multiset().count(q)
            == built_cells_count_s(x, y + 1, ny, q) by {
        assert(positions_of(objs.push(first).push(second)).to_multiset().count(q)
            == positions_of(objs).to_multiset().count(q) + (if q == (x as i64, y as i64) {
            2int
        } else {
            0int
        }));
        if q == (x as i64, y as i64) {
            assert(built_cells_count_s(x, y, ny, q) == 0);
            assert(built_cells_count_s(x, y + 1, ny, q) == 2);
        } else {
            assert(built_cells_count_s(x, y + 1, ny, q) == built_cells_count_s(x, y, ny, q));
        }
    }
}

/// Permutes the objects in place: the result holds exactly the
/// original objects, each exactly as often as before.
fn shuffle(objects: &mut Vec<SemiCircle>, rng: &mut Rng)
    ensures
        final(objects).len() == old(objects).len(),
        final(objects)@.to_multiset() == old(objects)@.to_multiset(),
        positions_of(final(objects)@).to_multiset() == positions_of(
            old(objects)@,
        ).to_multiset(),
        forall|i: int|
            0 <= i < final(objects).len() ==> old(objects)@.contains(
                #[trigger] final(objects)@[i],
            ),
        final(rng).state == (if old(objects).len() <= 1 {
            old(rng).state
        } else {
            rng_iter_s(old(rng).state, (old(objects).len() - 1) as nat)
        }),
{
    let ghost orig = old(objects)@;
    let ghost s0 = old(rng).state;
    let n: usize = objects.len();
    if n <= 1 {
        return ;
    }
    let mut i: usize = n - 1;
    while i >= 1
        invariant
            0 <= i <= n - 1,
            objects.len() == n,
            n == orig.len(),
            rng.state == rng_iter_s(s0, (n - 1 - i) as nat),
            objects@.to_multiset() == orig.to_multiset(),
            positions_of(objects@).to_multiset() == positions_of(orig).to_multiset(),
            forall|k: int| 0 <= k < n ==> orig.contains(#[trigger] objects@[k]),
        decreases i,
    {
        proof {
            lemma_rng_iter_step(s0, (n - 1 - i) as nat);
        }
        let j: u64 = rng.below((i + 1) as u64);
        let ju: usize = j as usize;
        let a: SemiCircle = objects[i];
        let b: SemiCircle = objects[ju];
        let ghost before = objects@;
        objects[i] = b;
        objects[ju] = a;
        proof {
            vstd::seq_lib::to_multiset_update(before, i as int, b);
            vstd::seq_lib::to_multiset_update(before.update(i as int, b), ju as int, a);
            before.to_multiset_ensures();
            before.update(i as int, b).to_multiset_ensures();
            assert(objects@.to_multiset() =~= before.to_multiset());
            let pb = positions_of(before);
            assert(positions_of(objects@) =~= pb.update(i as int, b.pos).update(
                ju as int,
                a.pos,
            ));
            vstd::seq_lib::to_multiset_update(pb, i as int, b.pos);
            vstd::seq_lib::to_multiset_update(pb.update(i as int, b.pos), ju as int, a.pos);
            pb.to_multiset_ensures();
            pb.update(i as int, b.pos).to_multiset_ensures();
            assert(positions_of(objects@).to_multiset() =~= pb.to_multiset());
        }
        i = i - 1;
    }
}

/// The freshly created grid population: two idle semicircles per cell,
/// each with a random orientation, variant and palette index, the
/// whole list shuffled.
#[verifier::rlimit(100)]
pub fn new_objects(grid: &GridInfo, rng: &mut Rng) -> (objs: Vec<SemiCircle>)
    requires
        grid.wf(),
    ensures
        objs.len() == 2 * grid.num_tiles.0 * grid.num_tiles.1,
        forall|i: int|
            0 <= i < objs.len() ==> (#[trigger] objs[i]).wf(*grid) && objs[i].transition is None
                && 0 <= objs[i].orientation < 4,
        two_per_cell(objs@, *grid),
        final(rng).state == rng_iter_s(
            old(rng).state,
            (8 * (grid.num_tiles.0 * grid.num_tiles.1) - 1) as nat,
        ),
{
    let ghost s0 = old(rng).state;
    let nx: i64 = grid.num_tiles.0;
    let ny: i64 = grid.num_tiles.1;
    let mut out: Vec<SemiCircle> = Vec::new();
    proof {
        broadcast use vstd::multiset::group_multiset_axioms;

        assert(positions_of(out@) =~= Seq::<(i64, i64)>::empty());
        positions_of(out@).to_multiset_ensures();
        assert forall|q: (i64, i64)|
            positions_of(out@).to_multiset().count(q) == built_cells_count_s(
                0,
                0,
                ny as int,
                q,
            ) by {
            assert(!positions_of(out@).contains(q));
        }
    }
    let mut x: i64 = 0;
    while x < nx
        invariant
            grid.wf(),
            nx == grid.num_tiles.0,
            ny == grid.num_tiles.1,
            0 <= x <= nx,
            out.len() == 2 * (x * ny),
            s0 == old(rng).state,
            rng.state == rng_iter_s(s0, (6 * (x * ny)) as nat),
            forall|i: int|
                0 <= i < out.len() ==> (#[trigger] out[i]).wf(*grid) && out[i].transition
                    is None && 0 <= out[i].orientation < 4,
            forall|q: (i64, i64)|
                positions_of(out@).to_multiset().count(q) == built_cells_count_s(
                    x as int,
                    0,
                    ny as int,
                    q,
                ),
        decreases nx - x,
    {
        proof {
            vstd::arithmetic::mul::lemma_mul_nonnegative(x as int, ny as int);
            vstd::arithmetic::mul::lemma_mul_upper_bound(x as int, 65_535, ny as int, 65_535);
            vstd::arithmetic::mul::lemma_mul_is_distributive_add_other_way(
                ny as int,
                x as int,
                1,
            );
        }
        let mut y: i64 = 0;
        while y < ny
            invariant
                grid.wf(),
                nx == grid.num_tiles.0,
                ny == grid.num_tiles.1,
                0 <= x < nx,
                0 <= y <= ny,
                0 <= x * ny <= 4_294_967_296,
                out.len() == 2 * (x * ny) + 2 * y,
                s0 == old(rng).state,
                rng.state == rng_iter_s(s0, (6 * (x * ny + y)) as nat),
                forall|i: int|
                    0 <= i < out.len() ==> (#[trigger] out[i]).wf(*grid) && out[i].transition
                        is None && 0 <= out[i].orientation < 4,
                forall|q: (i64, i64)|
                    positions_of(out@).to_multiset().count(q) == built_cells_count_s(
                        x as int,
                        y as int,
                        ny as int,
                        q,
                    ),
            decreases ny - y,
        {
            let o1: i64 = random_orientation(rng);
            let t1: SemiCircleType = random_semi_circle_type(rng);
            let c1: u64 = rng.below(8);
            let first: SemiCircle = SemiCircle {
                transition: None,
                pos: (x, y),
                orientation: o1,
                semi_circle_type: t1,
                colour: c1 as usize,
            };
            let ghost out0 = out@;
            out.push(first);
            let o2: i64 = random_orientation(rng);
            let t2: SemiCircleType = random_semi_circle_type(rng);
            let c2: u64 = rng.below(8);
            let second: SemiCircle = SemiCircle {
                transition: None,
                pos: (x, y),
                orientation: o2,
                semi_circle_type: t2,
                colour: c2 as usize,
            };
            let ghost out1 = out@;
            out.push(second);
            proof {
                lemma_cell_pair_counts(out0, first, second, x as int, y as int, ny as int);
                assert(out@ == out0.push(first).push(second));
                let k0 = (6 * (x * ny + y)) as nat;
                lemma_rng_iter_step(s0, k0);
                lemma_rng_iter_step(s0, k0 + 1);
                lemma_rng_iter_step(s0, k0 + 2);
                lemma_rng_iter_step(s0, k0 + 3);
                lemma_rng_iter_step(s0, k0 + 4);
                lemma_rng_iter_step(s0, k0 + 5);
                assert(6 * (x * ny + y) + 6 == 6 * (x * ny + (y + 1)));
            }
            y = y + 1;
        }
        proof {
            assert forall|q: (i64, i64)|
                positions_of(out@).to_multiset().count(q) == built_cells_count_s(
                    x + 1,
                    0,
                    ny as int,
                    q,
                ) by {
                assert(built_cells_count_s(x as int, ny as int, ny as int, q)
                    == built_cells_count_s(x + 1, 0, ny as int, q));
            }
        }
        x = x + 1;
    }
    proof {
        vstd::arithmetic::mul::lemma_mul_is_associative(2, nx as int, ny as int);
        vstd::arithmetic::mul::lemma_mul_strictly_positive(nx as int, ny as int);
        assert forall|q: (i64, i64)| 0 <= q.0 < nx && 0 <= q.1 < ny implies positions_of(
            out@,
        ).to_multiset().count(q) == 2 by {
            assert(built_cells_count_s(nx as int, 0, ny as int, q) == 2);
        }
        reveal(two_per_cell);
        assert(two_per_cell(out@, *grid));
    }
    let ghost m = (nx as int) * (ny as int);
    shuffle(&mut out, rng);
    proof {
        lemma_rng_iter_add(s0, (6 * m) as nat, (2 * m - 1) as nat);
    }
    out
}

impl Model {
    /// A fresh simulation for a viewport of `width` by `height`
    /// pixels: a sixteen-column grid (fewer on a viewport narrower
    /// than sixteen pixels), a live palette and a pending palette each
    /// generated from its own draw, and two idle objects on every
    /// cell.
    #[verifier::rlimit(100)]
    #[verifier::spinoff_prover]
    pub fn new(width: u32, height: u32, rng: &mut Rng) -> (m: Model)
        requires
            1 <= width <= crate::grid::MAX_VIEWPORT,
            1 <= height <= crate::grid::MAX_VIEWPORT,
        ensures
            m.wf(),
            m.grid == grid_info_s(width as int, height as int, 16),
            fresh_palette_ok(m.palette@, old(rng).state),
            fresh_palette_ok(m.new_palette@, rng_next_s(old(rng).state)),
            m.objects.len() == 2 * m.grid.num_tiles.0 * m.grid.num_tiles.1,
            forall|i: int|
                0 <= i < m.objects.len() ==> (#[trigger] m.objects[i]).transition is None
                    && 0 <= m.objects[i].orientation < 4,
            two_per_cell(m.objects@, m.grid),
            m.last_anim_time == 0,
            m.last_p_swap_time == 0,
            final(rng).state == rng_iter_s(
                old(rng).state,
                (8 * (m.grid.num_tiles.0 * m.grid.num_tiles.1) + 1) as nat,
            ),
    {
        let ghost s0 = old(rng).state;
        let grid: GridInfo = GridInfo::new(width, height, 16);
        let live: Vec<Colour> = palette(rng);
        let pending: Vec<Colour> = palette(rng);
        let objects: Vec<SemiCircle> = new_objects(&grid, rng);
        proof {
            lemma_rng_iter_step(s0, 0);
            lemma_rng_iter_step(s0, 1);
            let prod = (grid.num_tiles.0 as int) * (grid.num_tiles.1 as int);
            lemma_rng_iter_add(s0, 2, (8 * prod - 1) as nat);
            vstd::arithmetic::mul::lemma_mul_strictly_positive(
                grid.num_tiles.0 as int,
                grid.num_tiles.1 as int,
            );
            vstd::arithmetic::mul::lemma_mul_upper_bound(
                grid.num_tiles.0 as int,
                65_535,
                grid.num_tiles.1 as int,
                65_535,
            );
            vstd::arithmetic::mul::lemma_mul_is_associative(
                2,
                grid.num_tiles.0 as int,
                grid.num_tiles.1 as int,
            );
            assert(1 <= 2 * ((grid.num_tiles.0 as int) * (grid.num_tiles.1 as int))
                <= 10_000_000_000);
        }
        Model {
            palette: live,
            grid,
            objects,
            last_anim_time: 0,
            last_p_swap_time: 0,
            new_palette: pending,
        }
    }
}

/// Fires one stochastic trigger at `time`: exactly the step
/// [`triggered_s`] describes, on this model's objects.
pub fn trigger(model: &mut Model, time: i64, rng: &mut Rng)
    requires
        old(model).wf(),
        0 <= time <= TIME_BOUND,
    ensures
        final(model).wf(),
        final(model).grid == old(model).grid,
        final(model).palette@ == old(model).palette@,
        final(model).new_palette@ == old(model).new_palette@,
        final(model).last_anim_time == old(model).last_anim_time,
        final(model).last_p_swap_time == old(model).last_p_swap_time,
        final(model).objects@ == triggered_s(
            old(model).objects@,
            old(model).grid,
            time as int,
            old(rng).state,
        ).0,
        final(rng).state == triggered_s(
            old(model).objects@,
            old(model).grid,
            time as int,
            old(rng).state,
        ).1,
{
    let len: usize = model.objects.len();
    let d1: u64 = rng.next();
    let i: usize = (d1 % (len as u64)) as usize;
    let object: SemiCircle = model.objects[i];
    if object.transition.is_some() {
        return ;
    }
    let d2: u64 = rng.next();
    if d2 % 2 == 0 {
        let d3: u64 = rng.next();
        let delta: i64 = if d3 % 2 == 0 {
            1
        } else {
            -1
        };
        let o2: i64 = object.orientation + delta;
        if -1_000_000 <= o2 && o2 <= 1_000_000 {
            let mut updated: SemiCircle = object;
            updated.transition = Some((Transition::Rotation(o2), time));
            model.objects[i] = updated;
        }
    } else {
        let dir: (i64, i64) = random_direction(rng);
        let p2: (i64, i64) = (object.pos.0 + dir.0, object.pos.1 + dir.1);
        if model.grid.contains(p2) {
            let mut updated: SemiCircle = object;
            updated.transition = Some((Transition::Translation(p2), time));
            model.objects[i] = updated;
        }
    }
}

/// One simulation tick at time `now`: finalises every transition past
/// its grace period, fires the stochastic trigger if the trigger delay
/// has passed since the last one, and on the swap period promotes the
/// pending palette and pre-generates the next.
pub fn update(model: &mut Model, now: i64, rng: &mut Rng)
    requires
        old(model).wf(),
        0 <= now <= TIME_BOUND,
    ensures
        final(model).wf(),
        final(model).grid == old(model).grid,
        final(model).objects.len() == old(model).objects.len(),
        ({
            let g = old(model).grid;
            let settled = old(model).objects@.map_values(
                |c: SemiCircle| settle_s(c, g, now as int),
            );
            let s0 = old(rng).state;
            let fired = now - old(model).last_anim_time > g.transition_delay;
            let after_objs = if fired {
                triggered_s(settled, g, now as int, s0).0
            } else {
                settled
            };
            let s1 = if fired {
                triggered_s(settled, g, now as int, s0).1
            } else {
                s0
            };
            let rolled = now - old(model).last_p_swap_time > SWAP_PERIOD;
            &&& final(model).objects@ == after_objs
            &&& final(model).last_anim_time == (if fired {
                now
            } else {
                old(model).last_anim_time
            })
            &&& (if rolled {
                &&& final(model).palette@ == old(model).new_palette@
                &&& fresh_palette_ok(final(model).new_palette@, s1)
                &&& final(model).last_p_swap_time == now
                &&& final(rng).state == rng_next_s(s1)
            } else {
                &&& final(model).palette@ == old(model).palette@
                &&& final(model).new_palette@ == old(model).new_palette@
                &&& final(model).last_p_swap_time == old(model).last_p_swap_time
                &&& final(rng).state == s1
            })
        }),
{
    let ghost g = model.grid;
    let ghost olds = model.objects@;
    let len: usize = model.objects.len();
    let mut idx: usize = 0;
    while idx < len
        invariant
            model.grid == old(model).grid,
            model.palette@ == old(model).palette@,
            model.new_palette@ == old(model).new_palette@,
            model.last_anim_time == old(model).last_anim_time,
            model.last_p_swap_time == old(model).last_p_swap_time,
            model.objects.len() == len,
            len == olds.len(),
            olds == old(model).objects@,
            g == old(model).grid,
            old(model).wf(),
            0 <= idx <= len,
            0 <= now <= TIME_BOUND,
            forall|j: int| 0 <= j < idx ==> model.objects@[j] == settle_s(olds[j], g, now as int),
            forall|j: int| idx <= j < len ==> model.objects@[j] == olds[j],
        decreases len - idx,
    {
        let object: SemiCircle = model.objects[idx];
        if let Some((tr, start)) = object.transition {
            let grace: i64 = fx_mul(model.grid.transition_duration, model.grid.transition_grace);
            if now - start > grace {
                let mut o: SemiCircle = object;
                tr.finalise(&mut o);
                model.objects[idx] = o;
            }
        }
        idx = idx + 1;
    }
    proof {
        assert(model.objects@ =~= olds.map_values(|c: SemiCircle| settle_s(c, g, now as int)));
        assert forall|i: int| 0 <= i < model.objects.len() implies (#[trigger] model.objects@[i]).wf(
            model.grid,
        ) by {
            lemma_settle_wf(olds[i], g, now as int);
        }
    }
    if now - model.last_anim_time > model.grid.transition_delay {
        trigger(model, now, rng);
        model.last_anim_time = now;
    }
    if now - model.last_p_swap_time > SWAP_PERIOD {
        core::mem::swap(&mut model.palette, &mut model.new_palette);
        let fresh: Vec<Colour> = palette(rng);
        model.new_palette = fresh;
        model.last_p_swap_time = now;
    }
}

/// What the environment can hand the simulation between ticks.
#[derive(Clone, Copy, PartialEq, Eq, Debug)]
pub enum Event {
    /// The user asked for a new palette.
    PaletteRequest,
    /// Anything else; ignored.
    Other,
}

/// Handles one input event: a palette request regenerates the live
/// palette from a fresh draw, anything else changes nothing.
pub fn event(model: &mut Model, ev: Event, rng: &mut Rng)
    requires
        old(model).wf(),
    ensures
        final(model).wf(),
        final(model).grid == old(model).grid,
        final(model).objects@ == old(model).objects@,
        final(model).new_palette@ == old(model).new_palette@,
        final(model).last_anim_time == old(model).last_anim_time,
        final(model).last_p_swap_time == old(model).last_p_swap_time,
        match ev {
            Event::PaletteRequest => {
                &&& fresh_palette_ok(final(model).palette@, old(rng).state)
                &&& final(rng).state == rng_next_s(old(rng).state)
            },
            Event::Other => {
                &&& final(model).palette@ == old(model).palette@
                &&& final(rng).state == old(rng).state
            },
        },
{
    match ev {
        Event::PaletteRequest => {
            let p: Vec<Colour> = palette(rng);
            model.palette = p;
        },
        Event::Other => {},
    }
}

/// The palette entry the background and the objects read at `now`: in
/// the final window before a swap the pending palette's entries tick
/// in one by one, evenly spaced over the window; outside it the live
/// palette serves every index.
pub open spec fn current_colour_s(m: Model, i: int, now: int) -> Colour {
    let window_start = m.last_p_swap_time + SWAP_PERIOD - PRE_SWAP_WINDOW;
    if now >= window_start {
        let k = (now - window_start) * (PALETTE_LEN as int) / (PRE_SWAP_WINDOW as int);
        if i < k {
            m.new_palette[i]
        } else {
            m.palette[i]
        }
    } else {
        m.palette[i]
    }
}

/// The palette entry to draw with at `now`.
pub fn current_colour(model: &Model, i: usize, now: i64) -> (c: Colour)
    requires
        model.wf(),
        i < PALETTE_LEN,
        0 <= now <= TIME_BOUND,
    ensures
        c == current_colour_s(*model, i as int, now as int),
{
    let window_start: i64 = model.last_p_swap_time + SWAP_PERIOD - PRE_SWAP_WINDOW;
    if now >= window_start {
        let e: u64 = (now - window_start) as u64;
        let k: u64 = (e * 8) / 4_000_000;
        if (i as u64) < k {
            model.new_palette[i]
        } else {
            model.palette[i]
        }
    } else {
        model.palette[i]
    }
}

} // verus!
