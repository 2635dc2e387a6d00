//! Tile layout derived from the viewport: the grid is a whole number of
//! square tiles, centred on the viewport origin, with its height truncated
//! to whole tiles.
//!
//! Pixel lengths are held in micro-pixels and grid coordinates as whole
//! tile counts.

use vstd::prelude::*;

use crate::fixed::SCALE;

verus! {

/// Largest viewport edge, in pixels, that the layout accepts.
pub const MAX_VIEWPORT: i64 = 65_535;

/// Layout of the tile grid for one window-size epoch.
#[derive(Clone, Copy)]
pub struct GridInfo {
    /// Viewport width and effective grid height, in micro-pixels.
    pub wh: (i64, i64),
    /// Edge length of one square tile, in micro-pixels.
    pub tile_size: i64,
    /// Whole tiles across and down.
    pub num_tiles: (i64, i64),
    /// Length of one transition animation, in micro-seconds.
    pub transition_duration: i64,
    /// Least gap between two stochastic triggers, in micro-seconds.
    pub transition_delay: i64,
    /// Multiplier on the duration after which an in-flight transition
    /// is force-finalised, in micro-units: a grace factor past the
    /// nominal animation length so the eased curve has settled.
    pub transition_grace: i64,
}

impl GridInfo {
    /// Bounds that every constructed layout meets and that keep all
    /// later screen-space arithmetic inside `i64`.
    pub open spec fn wf(self) -> bool {
        &&& 1 <= self.tile_size <= 100_000_000_000
        &&& 1 <= self.num_tiles.0 <= 65_535
        &&& 1 <= self.num_tiles.1 <= 65_535
        &&& 0 <= self.wh.0 <= 100_000_000_000
        &&& 0 <= self.wh.1 <= 100_000_000_000
        &&& self.wh.1 == self.num_tiles.1 * self.tile_size
        &&& 1 <= self.transition_duration <= 1_000_000_000
        &&& 0 <= self.transition_delay <= 1_000_000_000
        &&& SCALE <= self.transition_grace <= 2 * SCALE
    }

    /// The grid layout for a viewport of `width` by `height` pixels cut
    /// into `tiles_per_row` columns: square tiles of
    /// `width / tiles_per_row`, as many whole rows as fit the height —
    /// at least one, so that a viewport shorter than one tile still
    /// carries a grid — and the stock animation timings.  A degenerate
    /// viewport narrower than the requested columns clamps to one
    /// column per pixel, so a tile is never thinner than a pixel.
    pub fn new(width: u32, height: u32, tiles_per_row: u32) -> (g: GridInfo)
        requires
            1 <= width <= MAX_VIEWPORT,
            1 <= height <= MAX_VIEWPORT,
            1 <= tiles_per_row <= MAX_VIEWPORT,
        ensures
            g.wf(),
            g.wh.0 == width * SCALE,
            g.num_tiles.0 == if tiles_per_row <= width {
                tiles_per_row as int
            } else {
                width as int
            },
            g.tile_size == (width * SCALE) / (g.num_tiles.0 as int),
            g.num_tiles.1 == if (height * SCALE) / (g.tile_size as int) >= 1 {
                (height * SCALE) / (g.tile_size as int)
            } else {
                1int
            },
            g.wh.1 == g.num_tiles.1 * g.tile_size as int,
            g.transition_duration == 3 * SCALE,
            g.transition_delay == 1 * SCALE,
            g.transition_grace == 1_200_000,
            g == grid_info_s(width as int, height as int, tiles_per_row as int),
    {
        proof {
            reveal(grid_info_s);
        }
        let cols: u32 = if tiles_per_row <= width {
            tiles_per_row
        } else {
            width
        };
        let w: u64 = (width as u64) * 1_000_000;
        let h: u64 = (height as u64) * 1_000_000;
        let tile: u64 = w / (cols as u64);
        proof {
            vstd::arithmetic::div_mod::lemma_div_pos_is_pos(w as int, cols as int);
            vstd::arithmetic::div_mod::lemma_div_is_ordered(
                1_000_000,
                w as int,
                cols as int,
            );
            assert(1_000_000int / (cols as int) >= 1) by {
                vstd::arithmetic::div_mod::lemma_div_by_multiple(1, cols as int);
                vstd::arithmetic::div_mod::lemma_div_is_ordered(
                    cols as int,
                    1_000_000,
                    cols as int,
                );
            }
        }
        proof {
            vstd::arithmetic::div_mod::lemma_div_nonincreasing(w as int, cols as int);
            vstd::arithmetic::div_mod::lemma_div_nonincreasing(h as int, tile as int);
            vstd::arithmetic::div_mod::lemma_div_pos_is_pos(h as int, tile as int);
            assert(tile >= 1_000_000) by {
                vstd::arithmetic::mul::lemma_mul_is_commutative(cols as int, 1_000_000);
                vstd::arithmetic::mul::lemma_mul_inequality(
                    cols as int,
                    width as int,
                    1_000_000,
                );
                vstd::arithmetic::div_mod::lemma_div_by_multiple(1_000_000, cols as int);
                vstd::arithmetic::div_mod::lemma_div_is_ordered(
                    (cols as int) * 1_000_000,
                    w as int,
                    cols as int,
                );
            }
            assert(h as int / (tile as int) <= height) by {
                vstd::arithmetic::div_mod::lemma_div_is_ordered_by_denominator(
                    h as int,
                    1_000_000,
                    tile as int,
                );
                vstd::arithmetic::div_mod::lemma_div_by_multiple(height as int, 1_000_000);
                vstd::arithmetic::mul::lemma_mul_is_commutative(height as int, 1_000_000);
            }
        }
        let rows_raw: u64 = h / tile;
        let rows: u64 = if rows_raw >= 1 {
            rows_raw
        } else {
            1
        };
        proof {
            vstd::arithmetic::div_mod::lemma_fundamental_div_mod(h as int, tile as int);
            vstd::arithmetic::mul::lemma_mul_nonnegative(rows_raw as int, tile as int);
            vstd::arithmetic::div_mod::lemma_remainder_lower(h as int, tile as int);
        }
        let grid_h: u64 = rows * tile;
        GridInfo {
            wh: (w as i64, grid_h as i64),
            tile_size: tile as i64,
            num_tiles: (cols as i64, rows as i64),
            transition_duration: 3_000_000,
            transition_delay: 1_000_000,
            transition_grace: 1_200_000,
        }
    }

    /// Whether the discrete coordinate lies on the grid: inside
    /// `[0, tiles across) x [0, tiles down)`, and on no other coordinate.
    pub fn contains(&self, point: (i64, i64)) -> (r: bool)
        ensures
            r == (0 <= point.0 < self.num_tiles.0 && 0 <= point.1 < self.num_tiles.1),
    {
        !(point.0 >= self.num_tiles.0 || point.0 < 0 || point.1 >= self.num_tiles.1
            || point.1 < 0)
    }
}

/// The layout [`GridInfo::new`] builds, as a function of the plain
/// inputs.
#[verifier::opaque]
pub open spec fn grid_info_s(width: int, height: int, tpr: int) -> GridInfo {
    let cols = if tpr <= width {
        tpr
    } else {
        width
    };
    let w = width * SCALE;
    let tile = w / cols;
    let rows_raw = (height * SCALE) / tile;
    let rows = if rows_raw >= 1 {
        rows_raw
    } else {
        1int
    };
    GridInfo {
        wh: (w as i64, (rows * tile) as i64),
        tile_size: tile as i64,
        num_tiles: (cols as i64, rows as i64),
        transition_duration: 3_000_000,
        transition_delay: 1_000_000,
        transition_grace: 1_200_000,
    }
}

/// Micro-pixel position of the bottom-left corner of the grid: the grid
/// is centred on the viewport origin.
pub open spec fn bottom_left_s(g: GridInfo) -> (int, int) {
    (-(g.wh.0 / 2), -(g.wh.1 / 2))
}

/// Micro-pixel centre of the tile at scaled grid coordinate
/// `(px, py)` (micro-tiles): the bottom-left corner, plus half a tile,
/// plus the coordinate times the tile size.
pub open spec fn pos_of_scaled_s(g: GridInfo, px: int, py: int) -> (int, int) {
    (
        -(g.wh.0 / 2) + g.tile_size / 2 + crate::fixed::fx_mul_s(px, g.tile_size as int),
        -(g.wh.1 / 2) + g.tile_size / 2 + crate::fixed::fx_mul_s(py, g.tile_size as int),
    )
}

/// On whole-tile coordinates the scaled mapping agrees with the
/// discrete one.
pub proof fn lemma_pos_of_scaled_integer(g: GridInfo, px: int, py: int)
    requires
        g.wf(),
    ensures
        pos_of_scaled_s(g, px * SCALE, py * SCALE) == pos_of_s(g, px, py),
{
    lemma_scaled_product(px, g.tile_size as int);
    lemma_scaled_product(py, g.tile_size as int);
}

/// `fx_mul_s(p * SCALE, t) == p * t`: scaling a whole number up and
/// back down is exact.
proof fn lemma_scaled_product(p: int, t: int)
    requires
        t >= 0,
    ensures
        crate::fixed::fx_mul_s(p * SCALE, t) == p * t,
{
    let s = SCALE as int;
    if p >= 0 {
        vstd::arithmetic::mul::lemma_mul_nonnegative(p, s);
        vstd::arithmetic::mul::lemma_mul_nonnegative(p, t);
        assert((p * s) * t == (p * t) * s) by {
            vstd::arithmetic::mul::lemma_mul_is_associative(p, s, t);
            vstd::arithmetic::mul::lemma_mul_is_associative(p, t, s);
            vstd::arithmetic::mul::lemma_mul_is_commutative(s, t);
        }
        vstd::arithmetic::div_mod::lemma_div_by_multiple(p * t, s);
    } else {
        vstd::arithmetic::mul::lemma_mul_unary_negation(p, s);
        vstd::arithmetic::mul::lemma_mul_unary_negation(p, t);
        vstd::arithmetic::mul::lemma_mul_nonnegative(-p, s);
        vstd::arithmetic::mul::lemma_mul_nonnegative(-p, t);
        assert(((-p) * s) * t == ((-p) * t) * s) by {
            vstd::arithmetic::mul::lemma_mul_is_associative(-p, s, t);
            vstd::arithmetic::mul::lemma_mul_is_associative(-p, t, s);
            vstd::arithmetic::mul::lemma_mul_is_commutative(s, t);
        }
        vstd::arithmetic::div_mod::lemma_div_by_multiple((-p) * t, s);
    }
}

/// Micro-pixel centre of the tile at the discrete grid coordinate
/// `(px, py)`.
pub open spec fn pos_of_s(g: GridInfo, px: int, py: int) -> (int, int) {
    (
        -(g.wh.0 / 2) + g.tile_size / 2 + px * g.tile_size as int,
        -(g.wh.1 / 2) + g.tile_size / 2 + py * g.tile_size as int,
    )
}

impl GridInfo {
    /// Screen-space centre of the tile at discrete coordinate `p`.
    pub fn pos_of(&self, p: (i64, i64)) -> (r: (i64, i64))
        requires
            self.wf(),
            -65_536 <= p.0 <= 65_536,
            -65_536 <= p.1 <= self.num_tiles.1,
        ensures
            (r.0 as int, r.1 as int) == pos_of_s(*self, p.0 as int, p.1 as int),
            -200_000_000_000_000_000 <= r.0 <= 200_000_000_000_000_000,
            -200_000_000_000_000_000 <= r.1 <= 200_000_000_000_000_000,
    {
        let half_w: i64 = ((self.wh.0 as u64) / 2) as i64;
        let half_h: i64 = ((self.wh.1 as u64) / 2) as i64;
        let half_tile: i64 = ((self.tile_size as u64) / 2) as i64;
        proof {
            crate::fixed::lemma_mul_abs_bound(
                p.0 as int,
                self.tile_size as int,
                65_536,
                100_000_000_000,
            );
            if p.1 >= 0 {
                vstd::arithmetic::mul::lemma_mul_inequality(
                    p.1 as int,
                    self.num_tiles.1 as int,
                    self.tile_size as int,
                );
            } else {
                crate::fixed::lemma_mul_abs_bound(
                    p.1 as int,
                    self.tile_size as int,
                    65_536,
                    100_000_000_000,
                );
            }
        }
        let x: i64 = -half_w + half_tile + p.0 * self.tile_size;
        let y: i64 = -half_h + half_tile + p.1 * self.tile_size;
        (x, y)
    }

    /// Screen-space point of the scaled (micro-tile) grid coordinate
    /// `p`, the continuous counterpart of [`GridInfo::pos_of`].
    pub fn pos_of_scaled(&self, p: (i64, i64)) -> (r: (i64, i64))
        requires
            self.wf(),
            -1_000_000_000_000 <= p.0 <= 1_000_000_000_000,
            -1_000_000_000_000 <= p.1 <= 1_000_000_000_000,
        ensures
            (r.0 as int, r.1 as int) == pos_of_scaled_s(*self, p.0 as int, p.1 as int),
            -200_000_000_000_000_000 <= r.0 <= 200_000_000_000_000_000,
            -200_000_000_000_000_000 <= r.1 <= 200_000_000_000_000_000,
    {
        let half_w: i64 = ((self.wh.0 as u64) / 2) as i64;
        let half_h: i64 = ((self.wh.1 as u64) / 2) as i64;
        let half_tile: i64 = ((self.tile_size as u64) / 2) as i64;
        proof {
            crate::fixed::lemma_abs_mul_le(
                p.0 as int,
                self.tile_size as int,
                1_000_000_000_000,
                100_000_000_000,
            );
            crate::fixed::lemma_abs_mul_le(
                p.1 as int,
                self.tile_size as int,
                1_000_000_000_000,
                100_000_000_000,
            );
        }
        let x: i64 = -half_w + half_tile + crate::fixed::fx_mul_wide(p.0, self.tile_size);
        let y: i64 = -half_h + half_tile + crate::fixed::fx_mul_wide(p.1, self.tile_size);
        (x, y)
    }
}

/// Law: on a well-formed grid, distinct in-bounds discrete coordinates
/// have distinct screen-space centres.
pub proof fn lemma_pos_of_injective(g: GridInfo, p: (int, int), q: (int, int))
    requires
        g.wf(),
        0 <= p.0 < g.num_tiles.0,
        0 <= p.1 < g.num_tiles.1,
        0 <= q.0 < g.num_tiles.0,
        0 <= q.1 < g.num_tiles.1,
        pos_of_s(g, p.0, p.1) == pos_of_s(g, q.0, q.1),
    ensures
        p == q,
{
    assert(g.tile_size * p.0 == g.tile_size * q.0) by {
        vstd::arithmetic::mul::lemma_mul_is_commutative(p.0, g.tile_size as int);
        vstd::arithmetic::mul::lemma_mul_is_commutative(q.0, g.tile_size as int);
    }
    vstd::arithmetic::mul::lemma_mul_equality_converse(g.tile_size as int, p.0, q.0);
    assert(g.tile_size * p.1 == g.tile_size * q.1) by {
        vstd::arithmetic::mul::lemma_mul_is_commutative(p.1, g.tile_size as int);
        vstd::arithmetic::mul::lemma_mul_is_commutative(q.1, g.tile_size as int);
    }
    vstd::arithmetic::mul::lemma_mul_equality_converse(g.tile_size as int, p.1, q.1);
}

} // verus!
