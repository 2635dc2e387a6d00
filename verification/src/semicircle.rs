//! The per-object transition state machine: a semicircle holds a
//! discrete grid position and orientation, and at most one in-flight
//! transition toward a neighbouring cell or a quarter turn; render-time
//! pose queries interpolate along the easing curves without mutating
//! the discrete state.
//!
//! Orientations are whole quarter turns; times are micro-seconds.

use vstd::prelude::*;

use crate::easing::{
    ease_in_out_elastic, ease_in_out_elastic_s, ease_out_elastic, ease_out_elastic_s,
};
use crate::fixed::{fx_abs, fx_clamp_s, fx_lerp, fx_lerp_s, SCALE};
use crate::grid::{pos_of_s, pos_of_scaled_s, GridInfo};
use crate::math::HALF_PI;
use crate::palette::PALETTE_LEN;

verus! {

/// Largest simulation time, in micro-seconds, the engine accepts:
/// ten million seconds of uptime.
pub const TIME_BOUND: i64 = 10_000_000_000_000;

/// Largest orientation magnitude, in quarter turns, an object may
/// accumulate; a rotation trigger past it is dropped.
pub const ORIENT_BOUND: i64 = 1_000_000;

/// One in-flight animation: the target it moves the discrete state to.
#[derive(Clone, Copy, PartialEq, Eq, Debug)]
pub enum Transition {
    /// Turn to this orientation, in quarter turns.
    Rotation(i64),
    /// Slide to this grid cell.
    Translation((i64, i64)),
}

/// How a semicircle is drawn.
#[derive(Clone, Copy, PartialEq, Eq, Debug)]
pub enum SemiCircleType {
    /// One filled half-disc.
    Filled,
    /// Three concentric ring strokes.
    Striped,
}

/// One animated object: a half-disc sitting on a grid cell.
#[derive(Clone, Copy, PartialEq, Eq, Debug)]
pub struct SemiCircle {
    /// The in-flight transition and its start time, if one is active.
    pub transition: Option<(Transition, i64)>,
    /// Discrete grid cell.
    pub pos: (i64, i64),
    /// Discrete orientation, in quarter turns.
    pub orientation: i64,
    /// Drawing variant.
    pub semi_circle_type: SemiCircleType,
    /// Index into the palette, fixed for the object's lifetime.
    pub colour: usize,
}

impl SemiCircle {
    /// The object sits on the grid, its orientation is within the
    /// accumulation budget, its colour indexes the palette, and any
    /// in-flight transition started at a valid time and targets a
    /// neighbouring cell or an adjacent quarter turn.
    pub open spec fn wf(self, g: GridInfo) -> bool {
        &&& 0 <= self.pos.0 < g.num_tiles.0
        &&& 0 <= self.pos.1 < g.num_tiles.1
        &&& -ORIENT_BOUND <= self.orientation <= ORIENT_BOUND
        &&& self.colour < PALETTE_LEN
        &&& match self.transition {
            Some((t, start)) => {
                &&& 0 <= start <= TIME_BOUND
                &&& match t {
                    Transition::Rotation(o2) => {
                        &&& -ORIENT_BOUND <= o2 <= ORIENT_BOUND
                        &&& (o2 == self.orientation + 1 || o2 == self.orientation - 1)
                    },
                    Transition::Translation(p2) => {
                        &&& 0 <= p2.0 < g.num_tiles.0
                        &&& 0 <= p2.1 < g.num_tiles.1
                        &&& fx_abs(p2.0 - self.pos.0) + fx_abs(p2.1 - self.pos.1) == 1
                    },
                }
            },
            None => true,
        }
    }
}

/// Animation progress at time `now` for a transition started at
/// `start`: elapsed time over the duration, clamped to `[0, 1]`.
pub open spec fn progress_s(now: int, start: int, duration: int) -> int {
    fx_clamp_s((now - start) * SCALE / duration, 0, SCALE as int)
}

/// Clamped animation progress.
pub fn progress(now: i64, start: i64, duration: i64) -> (r: i64)
    requires
        0 <= now <= TIME_BOUND,
        0 <= start <= TIME_BOUND,
        1 <= duration,
    ensures
        r == progress_s(now as int, start as int, duration as int),
        0 <= r <= SCALE,
{
    if now <= start {
        proof {
            let num = (now - start) * (SCALE as int);
            vstd::arithmetic::div_mod::lemma_div_of0(duration as int);
            if num < 0 {
                vstd::arithmetic::div_mod::lemma_div_is_ordered(num, 0, duration as int);
            }
        }
        0
    } else {
        let e: u128 = (now - start) as u128;
        let q: u128 = (e * 1_000_000) / (duration as u128);
        if q >= 1_000_000 {
            1_000_000
        } else {
            proof {
                vstd::arithmetic::div_mod::lemma_div_pos_is_pos(
                    (e * 1_000_000) as int,
                    duration as int,
                );
            }
            q as i64
        }
    }
}

/// Render-time position, in micro-pixels: mid-translation the grid
/// coordinate is interpolated along the elastic curve; otherwise the
/// stored cell's centre, whatever the time.
pub open spec fn get_pos_s(c: SemiCircle, g: GridInfo, now: int) -> (int, int) {
    match c.transition {
        Some((Transition::Translation(p2), start)) => {
            let e = ease_out_elastic_s(progress_s(now, start as int, g.transition_duration as int));
            let px = fx_lerp_s(c.pos.0 * SCALE, p2.0 * SCALE, e);
            let py = fx_lerp_s(c.pos.1 * SCALE, p2.1 * SCALE, e);
            pos_of_scaled_s(g, px, py)
        },
        _ => pos_of_s(g, c.pos.0 as int, c.pos.1 as int),
    }
}

/// Render-time orientation, in micro-radians: mid-rotation the angle
/// is interpolated along the in-out elastic curve; otherwise the
/// stored quarter-turn orientation, whatever the time.
pub open spec fn get_orientation_s(c: SemiCircle, g: GridInfo, now: int) -> int {
    match c.transition {
        Some((Transition::Rotation(o2), start)) => {
            let e = ease_in_out_elastic_s(progress_s(now, start as int, g.transition_duration as int));
            fx_lerp_s(c.orientation * (HALF_PI as int), o2 * (HALF_PI as int), e)
        },
        _ => c.orientation * (HALF_PI as int),
    }
}

impl SemiCircle {
    /// Screen-space centre of the object at time `now`.
    pub fn get_pos(&self, grid: &GridInfo, since_start: i64) -> (r: (i64, i64))
        requires
            grid.wf(),
            self.wf(*grid),
            0 <= since_start <= TIME_BOUND,
        ensures
            (r.0 as int, r.1 as int) == get_pos_s(*self, *grid, since_start as int),
            self.transition is None ==> (r.0 as int, r.1 as int) == pos_of_s(
                *grid,
                self.pos.0 as int,
                self.pos.1 as int,
            ),
            -200_000_000_000_000_000 <= r.0 <= 200_000_000_000_000_000,
            -200_000_000_000_000_000 <= r.1 <= 200_000_000_000_000_000,
    {
        match self.transition {
            Some((Transition::Translation(p2), start)) => {
                let pr: i64 = progress(since_start, start, grid.transition_duration);
                let e: i64 = ease_out_elastic(pr);
                let ax: i64 = self.pos.0 * 1_000_000;
                let ay: i64 = self.pos.1 * 1_000_000;
                let bx: i64 = p2.0 * 1_000_000;
                let by: i64 = p2.1 * 1_000_000;
                proof {
                    crate::fixed::lemma_abs_mul_le(
                        (bx - ax) as int,
                        e as int,
                        1_000_000,
                        2_000_000,
                    );
                    crate::fixed::lemma_abs_mul_le(
                        (by - ay) as int,
                        e as int,
                        1_000_000,
                        2_000_000,
                    );
                }
                let px: i64 = fx_lerp(ax, bx, e);
                let py: i64 = fx_lerp(ay, by, e);
                grid.pos_of_scaled((px, py))
            },
            _ => grid.pos_of((self.pos.0, self.pos.1)),
        }
    }

    /// Render-time orientation of the object at time `now`, in
    /// micro-radians.
    pub fn get_orientation(&self, grid: &GridInfo, since_start: i64) -> (r: i64)
        requires
            grid.wf(),
            self.wf(*grid),
            0 <= since_start <= TIME_BOUND,
        ensures
            r == get_orientation_s(*self, *grid, since_start as int),
            -ORIENT_BOUND * HALF_PI - 4 * SCALE <= r <= ORIENT_BOUND * HALF_PI + 4 * SCALE,
            self.transition is None ==> r == self.orientation * (HALF_PI as int),
    {
        proof {
            crate::fixed::lemma_mul_abs_bound(
                self.orientation as int,
                HALF_PI as int,
                ORIENT_BOUND as int,
                HALF_PI as int,
            );
        }
        let o1: i64 = self.orientation * HALF_PI;
        match self.transition {
            Some((Transition::Rotation(o2), start)) => {
                let pr: i64 = progress(since_start, start, grid.transition_duration);
                let e: i64 = ease_in_out_elastic(pr);
                proof {
                    crate::fixed::lemma_mul_abs_bound(
                        o2 as int,
                        HALF_PI as int,
                        ORIENT_BOUND as int,
                        HALF_PI as int,
                    );
                    vstd::arithmetic::mul::lemma_mul_is_distributive_sub_other_way(
                        HALF_PI as int,
                        o2 as int,
                        self.orientation as int,
                    );
                    crate::fixed::lemma_abs_mul_le(
                        (o2 * HALF_PI - self.orientation * HALF_PI) as int,
                        e as int,
                        HALF_PI as int,
                        2_000_000,
                    );
                }
                let ot: i64 = o2 * HALF_PI;
                fx_lerp(o1, ot, e)
            },
            _ => o1,
        }
    }
}

impl Transition {
    /// Ends the animation: snaps the object's discrete state to the
    /// transition's target and clears the transition; nothing else of
    /// the object changes.
    pub fn finalise(self, object: &mut SemiCircle)
        ensures
            final(object).transition is None,
            final(object).semi_circle_type == old(object).semi_circle_type,
            final(object).colour == old(object).colour,
            match self {
                Transition::Rotation(o2) => {
                    &&& final(object).orientation == o2
                    &&& final(object).pos == old(object).pos
                },
                Transition::Translation(p2) => {
                    &&& final(object).pos == p2
                    &&& final(object).orientation == old(object).orientation
                },
            },
    {
        match self {
            Transition::Rotation(r2) => {
                object.orientation = r2;
            },
            Transition::Translation(p2) => {
                object.pos = p2;
            },
        }
        object.transition = None;
    }
}

/// Law: an object with no active transition renders at exactly its
/// stored discrete position and orientation, whatever the elapsed
/// time.  In particular, once a transition is finalised — the discrete
/// state snapped to the target and the transition cleared — every
/// later pose query returns exactly that target, with no further
/// interpolation.
pub proof fn lemma_idle_pose_is_discrete_state(c: SemiCircle, g: GridInfo, now: int)
    requires
        c.transition is None,
    ensures
        get_pos_s(c, g, now) == pos_of_s(g, c.pos.0 as int, c.pos.1 as int),
        get_orientation_s(c, g, now) == c.orientation * (HALF_PI as int),
{
}

} // verus!
