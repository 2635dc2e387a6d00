//! Render projection: turns the simulation state at a given time into
//! an ordered list of drawable primitives — filled polygons and stroked
//! polylines in micro-pixel screen space — for the platform renderer to
//! rasterise.

use vstd::prelude::*;

use crate::fixed::{fx_mul, fx_mul_s, fx_mul_wide, lemma_abs_mul_le, lemma_fx_mul_s_bound, SCALE};
use crate::grid::GridInfo;
use crate::math::{cos_fx, cos_s, sin_fx, sin_s, HALF_PI, PI_FX};
use crate::model::{current_colour, current_colour_s, Model};
use crate::palette::{Colour, PALETTE_LEN};
use crate::semicircle::{
    get_orientation_s, get_pos_s, SemiCircle, SemiCircleType, ORIENT_BOUND, TIME_BOUND,
};

verus! {

/// Number of segments each semicircle arc is sampled into.
pub const ARC_SEGMENTS: i64 = 200;

/// Stroke-width factor of a striped ring: one sixth of the radius.
pub const RING_INCR: i64 = 166_667;

/// One drawable primitive, in micro-pixel screen space.
#[derive(Debug)]
pub enum Primitive {
    /// A filled polygon.
    Polygon {
        /// Its outline, in order.
        points: Vec<(i64, i64)>,
        /// Its fill colour.
        colour: Colour,
    },
    /// A stroked open polyline.
    Polyline {
        /// Its vertices, in order.
        points: Vec<(i64, i64)>,
        /// Its stroke width, in micro-pixels.
        weight: i64,
        /// Its stroke colour.
        colour: Colour,
    },
}

/// The mathematical shadow of a [`Primitive`], over unbounded integers.
pub enum PrimV {
    /// A filled polygon.
    Polygon {
        /// Its outline, in order.
        points: Seq<(int, int)>,
        /// Its fill colour.
        colour: Colour,
    },
    /// A stroked open polyline.
    Polyline {
        /// Its vertices, in order.
        points: Seq<(int, int)>,
        /// Its stroke width, in micro-pixels.
        weight: int,
        /// Its stroke colour.
        colour: Colour,
    },
}

/// The integer points a point list holds.
pub open spec fn points_view(s: Seq<(i64, i64)>) -> Seq<(int, int)> {
    s.map_values(|p: (i64, i64)| (p.0 as int, p.1 as int))
}

/// The shadow of one primitive.
pub open spec fn prim_v(p: Primitive) -> PrimV {
    match p {
        Primitive::Polygon { points, colour } => PrimV::Polygon {
            points: points_view(points@),
            colour,
        },
        Primitive::Polyline { points, weight, colour } => PrimV::Polyline {
            points: points_view(points@),
            weight: weight as int,
            colour,
        },
    }
}

/// The shadows of a primitive list.
pub open spec fn prims_v(s: Seq<Primitive>) -> Seq<PrimV> {
    s.map_values(|p: Primitive| prim_v(p))
}

/// The `j`-th sample of a closed half-turn arc: the centre plus the
/// radius turned by `j/200` of a half turn past the orientation.
pub open spec fn arc_point_s(centre: (int, int), radius: int, orientation: int, j: int) -> (
    int,
    int,
) {
    let ang = (j * (PI_FX as int)) / (ARC_SEGMENTS as int) + orientation;
    (centre.0 + fx_mul_s(cos_s(ang), radius), centre.1 + fx_mul_s(sin_s(ang), radius))
}

/// All 201 samples of the half-turn arc.
pub open spec fn arc_points_s(centre: (int, int), radius: int, orientation: int) -> Seq<
    (int, int),
> {
    Seq::new(201, |j: int| arc_point_s(centre, radius, orientation, j))
}

fn arc_points(centre: (i64, i64), radius: i64, orientation: i64) -> (pts: Vec<(i64, i64)>)
    requires
        0 <= radius <= 100_000_000_000,
        -200_000_000_000_000_000 <= centre.0 <= 200_000_000_000_000_000,
        -200_000_000_000_000_000 <= centre.1 <= 200_000_000_000_000_000,
        -2_000_000_000_000 <= orientation <= 2_000_000_000_000,
    ensures
        pts.len() == 201,
        points_view(pts@) == arc_points_s(
            (centre.0 as int, centre.1 as int),
            radius as int,
            orientation as int,
        ),
{
    let mut pts: Vec<(i64, i64)> = Vec::new();
    let mut j: u64 = 0;
    while j <= 200
        invariant
            0 <= radius <= 100_000_000_000,
            -200_000_000_000_000_000 <= centre.0 <= 200_000_000_000_000_000,
            -200_000_000_000_000_000 <= centre.1 <= 200_000_000_000_000_000,
            -2_000_000_000_000 <= orientation <= 2_000_000_000_000,
            0 <= j <= 201,
            pts.len() == j,
            forall|m: int|
                0 <= m < j ==> (pts@[m].0 as int, pts@[m].1 as int) == arc_point_s(
                    (centre.0 as int, centre.1 as int),
                    radius as int,
                    orientation as int,
                    m,
                ),
        decreases 201 - j,
    {
        let t: i64 = ((j * 3_141_593) / 200) as i64;
        let ang: i64 = t + orientation;
        let c: i64 = cos_fx(ang);
        let s: i64 = sin_fx(ang);
        proof {
            lemma_abs_mul_le(c as int, radius as int, 1_000_000, 100_000_000_000);
            lemma_abs_mul_le(s as int, radius as int, 1_000_000, 100_000_000_000);
        }
        let x: i64 = centre.0 + fx_mul_wide(c, radius);
        let y: i64 = centre.1 + fx_mul_wide(s, radius);
        pts.push((x, y));
        j = j + 1;
    }
    proof {
        assert(points_view(pts@) =~= arc_points_s(
            (centre.0 as int, centre.1 as int),
            radius as int,
            orientation as int,
        ));
    }
    pts
}

/// The radius factor of striped ring `i` of three: `(2 i + 1.5) / 6`.
pub open spec fn ring_factor_s(i: int) -> int {
    fx_mul_s(RING_INCR as int, 2 * i * SCALE + 1_500_000)
}

/// The primitives one semicircle contributes at time `now`: one filled
/// polygon over the arc, or three ring strokes at rising radii, in the
/// object's palette colour.
pub open spec fn draw_prims_v(c: SemiCircle, colours: Seq<Colour>, g: GridInfo, now: int) -> Seq<
    PrimV,
> {
    let centre = get_pos_s(c, g, now);
    let radius = (g.tile_size as int) / 2;
    let ort = get_orientation_s(c, g, now);
    match c.semi_circle_type {
        SemiCircleType::Filled => seq![
            PrimV::Polygon {
                points: arc_points_s(centre, radius, ort),
                colour: colours[c.colour as int],
            },
        ],
        SemiCircleType::Striped => Seq::new(
            3,
            |i: int|
                PrimV::Polyline {
                    points: arc_points_s(centre, fx_mul_s(radius, ring_factor_s(i)), ort),
                    weight: fx_mul_s(radius, RING_INCR as int),
                    colour: colours[c.colour as int],
                },
        ),
    }
}

impl SemiCircle {
    /// The drawable primitives of this object at time `since_start`.
    pub fn draw(&self, colours: &Vec<Colour>, grid_info: &GridInfo, since_start: i64) -> (r: Vec<
        Primitive,
    >)
        requires
            grid_info.wf(),
            self.wf(*grid_info),
            colours.len() == PALETTE_LEN,
            0 <= since_start <= TIME_BOUND,
        ensures
            prims_v(r@) == draw_prims_v(*self, colours@, *grid_info, since_start as int),
    {
        let centre: (i64, i64) = self.get_pos(grid_info, since_start);
        let radius: i64 = ((grid_info.tile_size as u64) / 2) as i64;
        let ort: i64 = self.get_orientation(grid_info, since_start);
        let colour: Colour = colours[self.colour];
        let mut out: Vec<Primitive> = Vec::new();
        match self.semi_circle_type {
            SemiCircleType::Filled => {
                let points: Vec<(i64, i64)> = arc_points(centre, radius, ort);
                out.push(Primitive::Polygon { points, colour });
            },
            SemiCircleType::Striped => {
                proof {
                    lemma_fx_mul_s_bound(radius as int, RING_INCR as int, 50_000_000_000, 200_000);
                }
                let weight: i64 = fx_mul_wide(radius, RING_INCR);
                let mut i: i64 = 0;
                while i < 3
                    invariant
                        0 <= i <= 3,
                        out.len() == i,
                        0 <= radius <= 50_000_000_000,
                        -200_000_000_000_000_000 <= centre.0 <= 200_000_000_000_000_000,
                        -200_000_000_000_000_000 <= centre.1 <= 200_000_000_000_000_000,
                        -2_000_000_000_000 <= ort <= 2_000_000_000_000,
                        weight == fx_mul_s(radius as int, RING_INCR as int),
                        forall|m: int|
                            0 <= m < i ==> prim_v(#[trigger] out@[m]) == (PrimV::Polyline {
                                points: arc_points_s(
                                    (centre.0 as int, centre.1 as int),
                                    fx_mul_s(radius as int, ring_factor_s(m)),
                                    ort as int,
                                ),
                                weight: fx_mul_s(radius as int, RING_INCR as int),
                                colour,
                            }),
                    decreases 3 - i,
                {
                    proof {
                        lemma_fx_mul_s_bound(
                            RING_INCR as int,
                            (2 * i * SCALE + 1_500_000) as int,
                            200_000,
                            5_500_000,
                        );
                        lemma_fx_mul_s_bound(
                            radius as int,
                            ring_factor_s(i as int),
                            50_000_000_000,
                            1_100_000,
                        );
                        lemma_abs_mul_le(
                            radius as int,
                            ring_factor_s(i as int),
                            50_000_000_000,
                            1_100_000,
                        );
                    }
                    let factor: i64 = fx_mul(166_667, 2 * i * 1_000_000 + 1_500_000);
                    let rr: i64 = fx_mul_wide(radius, factor);
                    let points: Vec<(i64, i64)> = arc_points(centre, rr, ort);
                    out.push(Primitive::Polyline { points, weight, colour });
                    i = i + 1;
                }
            },
        }
        proof {
            assert(prims_v(out@) =~= draw_prims_v(
                *self,
                colours@,
                *grid_info,
                since_start as int,
            ));
        }
        out
    }
}


/// The outline of background band `i` of eight: a vertical slice of
/// the viewport, one eighth of the width wide.
pub open spec fn band_points_s(w: int, vh: int, i: int) -> Seq<(int, int)> {
    let xs = -(w / 2) + i * w / 8;
    let xe = -(w / 2) + (i + 1) * w / 8;
    let top = -(vh / 2);
    let bottom = vh / 2;
    seq![(xs, top), (xe, top), (xe, bottom), (xs, bottom)]
}

/// The eight background bands at time `now`, each filled with the
/// palette entry current at that time.
pub open spec fn bands_v(m: Model, vh: int, now: int) -> Seq<PrimV> {
    Seq::new(
        PALETTE_LEN as nat,
        |i: int|
            PrimV::Polygon {
                points: band_points_s(m.grid.wh.0 as int, vh, i),
                colour: current_colour_s(m, i, now),
            },
    )
}

/// The background: one filled band per palette entry, spanning the
/// viewport.
pub fn draw_palette_bg(model: &Model, viewport_height: i64, now: i64) -> (r: Vec<Primitive>)
    requires
        model.wf(),
        0 <= viewport_height <= 100_000_000_000,
        0 <= now <= TIME_BOUND,
    ensures
        prims_v(r@) == bands_v(*model, viewport_height as int, now as int),
{
    let w: u64 = model.grid.wh.0 as u64;
    let half_w: i64 = (w / 2) as i64;
    let top: i64 = -(((viewport_height as u64) / 2) as i64);
    let bottom: i64 = ((viewport_height as u64) / 2) as i64;
    let mut out: Vec<Primitive> = Vec::new();
    let mut i: usize = 0;
    while i < 8
        invariant
            model.wf(),
            0 <= viewport_height <= 100_000_000_000,
            0 <= now <= TIME_BOUND,
            w == model.grid.wh.0,
            half_w == w / 2,
            top == -((viewport_height as int) / 2),
            bottom == (viewport_height as int) / 2,
            0 <= i <= 8,
            out.len() == i,
            forall|m: int|
                0 <= m < i ==> prim_v(#[trigger] out@[m]) == (PrimV::Polygon {
                    points: band_points_s(
                        model.grid.wh.0 as int,
                        viewport_height as int,
                        m,
                    ),
                    colour: current_colour_s(*model, m, now as int),
                }),
        decreases 8 - i,
    {
        proof {
            vstd::arithmetic::mul::lemma_mul_upper_bound(i as int, 8, w as int, 100_000_000_000);
            vstd::arithmetic::mul::lemma_mul_upper_bound(
                i + 1,
                8,
                w as int,
                100_000_000_000,
            );
        }
        let xs: i64 = -half_w + (((i as u64) * w) / 8) as i64;
        let xe: i64 = -half_w + ((((i as u64) + 1) * w) / 8) as i64;
        let mut points: Vec<(i64, i64)> = Vec::new();
        points.push((xs, top));
        points.push((xe, top));
        points.push((xe, bottom));
        points.push((xs, bottom));
        let colour: Colour = current_colour(model, i, now);
        proof {
            assert(points_view(points@) =~= band_points_s(
                model.grid.wh.0 as int,
                viewport_height as int,
                i as int,
            ));
        }
        out.push(Primitive::Polygon { points, colour });
        i = i + 1;
    }
    proof {
        assert(prims_v(out@) =~= bands_v(*model, viewport_height as int, now as int));
    }
    out
}

/// The primitives of the whole object list, in order.
pub open spec fn draw_all_v(
    objs: Seq<SemiCircle>,
    colours: Seq<Colour>,
    g: GridInfo,
    now: int,
) -> Seq<PrimV>
    decreases objs.len(),
{
    if objs.len() == 0 {
        Seq::empty()
    } else {
        draw_all_v(objs.drop_last(), colours, g, now) + draw_prims_v(
            objs.last(),
            colours,
            g,
            now,
        )
    }
}

/// One whole frame at time `now`: the background bands, then every
/// object's primitives in list order.
pub fn view(model: &Model, viewport_height: i64, now: i64) -> (r: Vec<Primitive>)
    requires
        model.wf(),
        0 <= viewport_height <= 100_000_000_000,
        0 <= now <= TIME_BOUND,
    ensures
        prims_v(r@) == bands_v(*model, viewport_height as int, now as int) + draw_all_v(
            model.objects@,
            model.palette@,
            model.grid,
            now as int,
        ),
{
    let mut out: Vec<Primitive> = draw_palette_bg(model, viewport_height, now);
    let n: usize = model.objects.len();
    let mut k: usize = 0;
    proof {
        assert(model.objects@.subrange(0, 0) =~= Seq::<SemiCircle>::empty());
    }
    while k < n
        invariant
            model.wf(),
            0 <= viewport_height <= 100_000_000_000,
            0 <= now <= TIME_BOUND,
            n == model.objects.len(),
            0 <= k <= n,
            prims_v(out@) == bands_v(*model, viewport_height as int, now as int) + draw_all_v(
                model.objects@.subrange(0, k as int),
                model.palette@,
                model.grid,
                now as int,
            ),
        decreases n - k,
    {
        let obj: SemiCircle = model.objects[k];
        let mut prims: Vec<Primitive> = obj.draw(&model.palette, &model.grid, now);
        let ghost drawn = prims@;
        let ghost out_before = out@;
        out.append(&mut prims);
        proof {
            assert(out@ == out_before + drawn);
            assert forall|ii: int| 0 <= ii < out@.len() implies prims_v(out@)[ii] == (prims_v(
                out_before,
            ) + prims_v(drawn))[ii] by {
                if ii < out_before.len() {
                    assert(out@[ii] == out_before[ii]);
                } else {
                    assert(out@[ii] == drawn[ii - out_before.len()]);
                }
            }
            assert(prims_v(out@) =~= prims_v(out_before) + prims_v(drawn));
            let sub1 = model.objects@.subrange(0, k + 1);
            assert(sub1.drop_last() =~= model.objects@.subrange(0, k as int));
            assert(sub1.last() == model.objects@[k as int]);
            assert(prims_v(drawn) == draw_prims_v(
                model.objects@[k as int],
                model.palette@,
                model.grid,
                now as int,
            ));
            assert(draw_all_v(sub1, model.palette@, model.grid, now as int)
                == draw_all_v(sub1.drop_last(), model.palette@, model.grid, now as int)
                + draw_prims_v(sub1.last(), model.palette@, model.grid, now as int));
            assert(draw_all_v(sub1, model.palette@, model.grid, now as int)
                == draw_all_v(model.objects@.subrange(0, k as int), model.palette@, model.grid, now as int)
                + prims_v(drawn));
            assert(prims_v(out@) =~= bands_v(*model, viewport_height as int, now as int)
                + draw_all_v(sub1, model.palette@, model.grid, now as int));
        }
        k = k + 1;
    }
    proof {
        assert(model.objects@.subrange(0, n as int) =~= model.objects@);
    }
    out
}

} // verus!
