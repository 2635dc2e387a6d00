//! Easing curves mapping a normalized progress value to an eased progress
//! value, in fixed-point micro-units: the input runs over `[0, SCALE]` and
//! the output settles at `SCALE`, overshooting in between where the curve
//! calls for it.
//!
//! Every function returns exactly `0` at `0` and exactly `SCALE` at
//! `SCALE`, which its contract states.
//!
//! Each function takes progress in `[0, SCALE]` only: the animation
//! clamps progress to that interval before easing, and outside it the
//! elastic curves' `2^(20 x - 10)` term outgrows what a fixed-point
//! word can hold, so the wider real-valued domain has no machine
//! counterpart here.

use vstd::prelude::*;

use crate::fixed::{fx_mul, fx_mul_s, lemma_fx_mul_s_bound, SCALE};
use crate::math::{cos_s, exp2_neg, exp2_neg_s, sin_fx, sin_s};

verus! {

/// `2*pi/3` in micro-radians, the angular frequency of the single
/// elastic oscillation.
pub const ELASTIC_C4: i64 = 2_094_395;

/// `2*pi/4.5` in micro-radians, the angular frequency of the in-out
/// elastic oscillation.
pub const ELASTIC_C5: i64 = 1_396_263;

/// Half of `1.0` in micro-units.
pub const HALF: i64 = 500_000;

/// A decaying oscillation that settles at `1`:
/// `2^(-10 x) * sin((10 x - 0.75) * 2 pi / 3) + 1` away from the ends.
pub open spec fn ease_out_elastic_s(x: int) -> int {
    if x == 0 {
        0
    } else if x == SCALE {
        SCALE as int
    } else {
        fx_mul_s(exp2_neg_s(10 * x), sin_s(fx_mul_s(10 * x - 750_000, ELASTIC_C4 as int)))
            + SCALE
    }
}

/// An oscillation that winds up below `0.5` and settles above it:
/// `-(2^(20 x - 10) * sin((20 x - 11.125) * 2 pi / 4.5)) / 2` below the
/// midpoint and `(2^(-20 x + 10) * sin((20 x - 11.125) * 2 pi / 4.5)) / 2 + 1`
/// above it.
pub open spec fn ease_in_out_elastic_s(x: int) -> int {
    if x == 0 {
        0
    } else if x == SCALE {
        SCALE as int
    } else if x < HALF {
        -fx_mul_s(
            fx_mul_s(
                exp2_neg_s(10_000_000 - 20 * x),
                sin_s(fx_mul_s(20 * x - 11_125_000, ELASTIC_C5 as int)),
            ),
            HALF as int,
        )
    } else {
        fx_mul_s(
            fx_mul_s(
                exp2_neg_s(20 * x - 10_000_000),
                sin_s(fx_mul_s(20 * x - 11_125_000, ELASTIC_C5 as int)),
            ),
            HALF as int,
        ) + SCALE
    }
}

/// The four-bounce piecewise quadratic: `7.5625 * x'^2` plus a rising
/// offset on each of the windows cut at `1/2.75`, `2/2.75` and `2.5/2.75`.
pub open spec fn ease_out_bounce_s(x: int) -> int {
    if x < 363_636 {
        fx_mul_s(fx_mul_s(7_562_500, x), x)
    } else if x < 727_272 {
        fx_mul_s(fx_mul_s(7_562_500, x - 545_454), x - 545_454) + 750_000
    } else if x < 909_090 {
        fx_mul_s(fx_mul_s(7_562_500, x - 818_181), x - 818_181) + 937_500
    } else {
        fx_mul_s(fx_mul_s(7_562_500, x - 954_545), x - 954_545) + 984_375
    }
}

/// The bounce run backwards: `1 - ease_out_bounce(1 - x)`.
pub open spec fn ease_in_bounce_s(x: int) -> int {
    SCALE - ease_out_bounce_s(SCALE - x)
}

/// Half-scaled in-bounce then out-bounce, split at the midpoint.
pub open spec fn ease_in_out_bounce_s(x: int) -> int {
    if x < HALF {
        fx_mul_s(SCALE - ease_out_bounce_s(SCALE - 2 * x), HALF as int)
    } else {
        fx_mul_s(SCALE + ease_out_bounce_s(2 * x - SCALE), HALF as int)
    }
}

/// `4 x^3` below the midpoint, `1 - (-2 x + 2)^3 / 2` above it.
pub open spec fn ease_in_out_cubic_s(x: int) -> int {
    if x < HALF {
        fx_mul_s(fx_mul_s(fx_mul_s(4_000_000, x), x), x)
    } else {
        SCALE - fx_mul_s(fx_mul_s(fx_mul_s(2 * SCALE - 2 * x, 2 * SCALE - 2 * x), 2 * SCALE - 2 * x), HALF as int)
    }
}

/// Eased progress for the translation animation.
pub fn ease_out_elastic(x: i64) -> (r: i64)
    requires
        0 <= x <= SCALE,
    ensures
        r == ease_out_elastic_s(x as int),
        -SCALE <= r <= 2 * SCALE,
        x == 0 ==> r == 0,
        x == SCALE ==> r == SCALE,
{
    if x == 0 {
        0
    } else if x == 1_000_000 {
        1_000_000
    } else {
        let amp: i64 = exp2_neg(10 * x);
        let phase: i64 = 10 * x - 750_000;
        proof {
            lemma_fx_mul_s_bound(phase as int, ELASTIC_C4 as int, 9_250_000, 2_094_395);
        }
        let arg: i64 = fx_mul(phase, ELASTIC_C4);
        let s: i64 = sin_fx(arg);
        proof {
            lemma_fx_mul_s_bound(amp as int, s as int, 1_000_000, 1_000_000);
        }
        fx_mul(amp, s) + 1_000_000
    }
}

/// Eased progress for the rotation animation.
pub fn ease_in_out_elastic(x: i64) -> (r: i64)
    requires
        0 <= x <= SCALE,
    ensures
        r == ease_in_out_elastic_s(x as int),
        -SCALE <= r <= 2 * SCALE,
        x == 0 ==> r == 0,
        x == SCALE ==> r == SCALE,
{
    if x == 0 {
        0
    } else if x == 1_000_000 {
        1_000_000
    } else if x < 500_000 {
        let amp: i64 = exp2_neg(10_000_000 - 20 * x);
        let phase: i64 = 20 * x - 11_125_000;
        proof {
            lemma_fx_mul_s_bound(phase as int, ELASTIC_C5 as int, 11_125_000, 1_396_263);
        }
        let arg: i64 = fx_mul(phase, ELASTIC_C5);
        let s: i64 = sin_fx(arg);
        proof {
            lemma_fx_mul_s_bound(amp as int, s as int, 1_000_000, 1_000_000);
        }
        let w: i64 = fx_mul(amp, s);
        proof {
            lemma_fx_mul_s_bound(w as int, HALF as int, 1_000_000, 500_000);
        }
        -fx_mul(w, 500_000)
    } else {
        let amp: i64 = exp2_neg(20 * x - 10_000_000);
        let phase: i64 = 20 * x - 11_125_000;
        proof {
            lemma_fx_mul_s_bound(phase as int, ELASTIC_C5 as int, 11_125_000, 1_396_263);
        }
        let arg: i64 = fx_mul(phase, ELASTIC_C5);
        let s: i64 = sin_fx(arg);
        proof {
            lemma_fx_mul_s_bound(amp as int, s as int, 1_000_000, 1_000_000);
        }
        let w: i64 = fx_mul(amp, s);
        proof {
            lemma_fx_mul_s_bound(w as int, HALF as int, 1_000_000, 500_000);
        }
        fx_mul(w, 500_000) + 1_000_000
    }
}

/// The piecewise quadratic bounce.
pub fn ease_out_bounce(x: i64) -> (r: i64)
    requires
        0 <= x <= SCALE,
    ensures
        r == ease_out_bounce_s(x as int),
        0 <= r <= 2 * SCALE,
        x == 0 ==> r == 0,
        x == SCALE ==> r == SCALE,
{
    if x < 363_636 {
        proof {
            lemma_fx_mul_s_bound(7_562_500, x as int, 7_562_500, 363_636);
        }
        let t: i64 = fx_mul(7_562_500, x);
        proof {
            lemma_fx_mul_s_bound(t as int, x as int, 2_800_000, 363_636);
        }
        fx_mul(t, x)
    } else if x < 727_272 {
        let y: i64 = x - 545_454;
        proof {
            lemma_fx_mul_s_bound(7_562_500, y as int, 7_562_500, 181_818);
        }
        let t: i64 = fx_mul(7_562_500, y);
        proof {
            lemma_fx_mul_s_bound(t as int, y as int, 1_400_000, 181_818);
        }
        fx_mul(t, y) + 750_000
    } else if x < 909_090 {
        let y: i64 = x - 818_181;
        proof {
            lemma_fx_mul_s_bound(7_562_500, y as int, 7_562_500, 90_909);
        }
        let t: i64 = fx_mul(7_562_500, y);
        proof {
            lemma_fx_mul_s_bound(t as int, y as int, 700_000, 90_909);
        }
        fx_mul(t, y) + 937_500
    } else {
        let y: i64 = x - 954_545;
        proof {
            lemma_fx_mul_s_bound(7_562_500, y as int, 7_562_500, 45_455);
        }
        let t: i64 = fx_mul(7_562_500, y);
        proof {
            lemma_fx_mul_s_bound(t as int, y as int, 350_000, 45_455);
        }
        fx_mul(t, y) + 984_375
    }
}

/// The bounce run backwards.
pub fn ease_in_bounce(x: i64) -> (r: i64)
    requires
        0 <= x <= SCALE,
    ensures
        r == ease_in_bounce_s(x as int),
        -SCALE <= r <= 2 * SCALE,
        x == 0 ==> r == 0,
        x == SCALE ==> r == SCALE,
{
    1_000_000 - ease_out_bounce(1_000_000 - x)
}

/// Half-scaled in/out bounce, split at the midpoint.
pub fn ease_in_out_bounce(x: i64) -> (r: i64)
    requires
        0 <= x <= SCALE,
    ensures
        r == ease_in_out_bounce_s(x as int),
        -SCALE <= r <= 2 * SCALE,
        x == 0 ==> r == 0,
        x == SCALE ==> r == SCALE,
{
    if x < 500_000 {
        let b: i64 = ease_out_bounce(1_000_000 - 2 * x);
        proof {
            lemma_fx_mul_s_bound(1_000_000 - b, HALF as int, 1_000_000, 500_000);
        }
        fx_mul(1_000_000 - b, 500_000)
    } else {
        let b: i64 = ease_out_bounce(2 * x - 1_000_000);
        proof {
            lemma_fx_mul_s_bound(1_000_000 + b, HALF as int, 3_000_000, 500_000);
        }
        fx_mul(1_000_000 + b, 500_000)
    }
}

/// The symmetric cubic ramp.
pub fn ease_in_out_cubic(x: i64) -> (r: i64)
    requires
        0 <= x <= SCALE,
    ensures
        r == ease_in_out_cubic_s(x as int),
        -SCALE <= r <= 2 * SCALE,
        x == 0 ==> r == 0,
        x == SCALE ==> r == SCALE,
{
    if x < 500_000 {
        proof {
            lemma_fx_mul_s_bound(4_000_000, x as int, 4_000_000, 500_000);
        }
        let t1: i64 = fx_mul(4_000_000, x);
        proof {
            lemma_fx_mul_s_bound(t1 as int, x as int, 2_000_000, 500_000);
        }
        let t2: i64 = fx_mul(t1, x);
        proof {
            lemma_fx_mul_s_bound(t2 as int, x as int, 1_000_000, 500_000);
        }
        fx_mul(t2, x)
    } else {
        let w: i64 = 2_000_000 - 2 * x;
        proof {
            lemma_fx_mul_s_bound(w as int, w as int, 1_000_000, 1_000_000);
        }
        let t1: i64 = fx_mul(w, w);
        proof {
            lemma_fx_mul_s_bound(t1 as int, w as int, 1_000_000, 1_000_000);
        }
        let t2: i64 = fx_mul(t1, w);
        proof {
            lemma_fx_mul_s_bound(t2 as int, HALF as int, 1_000_000, 500_000);
        }
        1_000_000 - fx_mul(t2, 500_000)
    }
}

/// Law: the in-bounce is everywhere the reflection of the out-bounce,
/// `ease_in_bounce(x) == 1 - ease_out_bounce(1 - x)`.
pub proof fn lemma_in_bounce_reflects_out_bounce(x: int)
    requires
        0 <= x <= SCALE,
    ensures
        ease_in_bounce_s(x) == SCALE - ease_out_bounce_s(SCALE - x),
{
}

} // verus!
