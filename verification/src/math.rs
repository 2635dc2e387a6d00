//! Fixed-point sine, cosine, base-two exponential and fifth root.
//!
//! Arguments and results are micro-units ([`crate::fixed::SCALE`] is `1.0`);
//! the polynomial evaluations run internally in nano-units for precision.
//! Each executable function returns exactly the value of its spec-level
//! mirror, which fixes the truncating arithmetic digit for digit.

use vstd::prelude::*;

use crate::fixed::{fx_mul_s, SCALE};

verus! {

/// A quarter turn in micro-radians.
pub const HALF_PI: i64 = 1_570_796;

/// A half turn in micro-radians.
pub const PI_FX: i64 = 3_141_593;

/// A full turn in micro-radians.
pub const TAU_FX: i64 = 6_283_185;

/// Largest angle magnitude, in micro-radians, accepted by [`sin_fx`].
pub const ANGLE_BOUND: i64 = 10_000_000_000_000;

proof fn lemma_prod_div_bound(a: int, b: int, ab: int, bb: int, d: int)
    requires
        0 <= a <= ab,
        0 <= b <= bb,
        1 <= d,
    ensures
        0 <= a * b / d <= ab * bb / d,
{
    vstd::arithmetic::mul::lemma_mul_upper_bound(a, ab, b, bb);
    vstd::arithmetic::mul::lemma_mul_nonnegative(a, b);
    vstd::arithmetic::div_mod::lemma_div_pos_is_pos(a * b, d);
    vstd::arithmetic::div_mod::lemma_div_is_ordered(a * b, ab * bb, d);
}

/// Taylor evaluation of `sin` on `[0, 1.6]` micro-radians, in micro-units.
pub open spec fn sin_q_s(x: int) -> int {
    let x9 = x * 1000;
    let u = (x9 * x9) / 1_000_000_000;
    let t4 = 2756 - (u * 25) / 1_000_000_000;
    let t3 = 198413 - (u * t4) / 1_000_000_000;
    let t2 = 8333333 - (u * t3) / 1_000_000_000;
    let t1 = 166666667 - (u * t2) / 1_000_000_000;
    let t0 = 1_000_000_000 - (u * t1) / 1_000_000_000;
    let s9 = (x9 * t0) / 1_000_000_000;
    let r = s9 / 1000;
    if r > 1_000_000 {
        1_000_000
    } else {
        r
    }
}

/// `sin` on `[0, PI_FX]`, folded onto the first quadrant.
pub open spec fn sin_half_s(y: int) -> int {
    if y <= HALF_PI {
        sin_q_s(y)
    } else {
        sin_q_s(PI_FX - y)
    }
}

/// `sin` on `[0, TAU_FX)`, negative over the second half turn.
pub open spec fn sin_tau_s(y: int) -> int {
    if y <= PI_FX {
        sin_half_s(y)
    } else {
        -sin_half_s(y - PI_FX)
    }
}

/// `sin` of any micro-radian angle: the magnitude is reduced modulo a
/// full turn and the sign of the angle carries through.
pub open spec fn sin_s(a: int) -> int {
    if a >= 0 {
        sin_tau_s(a % (TAU_FX as int))
    } else {
        -sin_tau_s((-a) % (TAU_FX as int))
    }
}

/// `cos` by the quarter-turn shift of [`sin_s`].
pub open spec fn cos_s(a: int) -> int {
    sin_s(a + HALF_PI)
}

fn sin_q(x: u64) -> (r: i64)
    requires
        x <= 1_600_000,
    ensures
        r == sin_q_s(x as int),
        0 <= r <= SCALE,
{
    let x9: u64 = x * 1000;
    proof {
        lemma_prod_div_bound(x9 as int, x9 as int, 1_600_000_000, 1_600_000_000, 1_000_000_000);
    }
    let u: u64 = (x9 * x9) / 1_000_000_000;
    proof {
        lemma_prod_div_bound(u as int, 25, 2_560_000_000, 25, 1_000_000_000);
    }
    let t4: u64 = 2756 - (u * 25) / 1_000_000_000;
    proof {
        lemma_prod_div_bound(u as int, t4 as int, 2_560_000_000, 2756, 1_000_000_000);
    }
    let t3: u64 = 198413 - (u * t4) / 1_000_000_000;
    proof {
        lemma_prod_div_bound(u as int, t3 as int, 2_560_000_000, 198413, 1_000_000_000);
    }
    let t2: u64 = 8333333 - (u * t3) / 1_000_000_000;
    proof {
        lemma_prod_div_bound(u as int, t2 as int, 2_560_000_000, 8333333, 1_000_000_000);
    }
    let t1: u64 = 166666667 - (u * t2) / 1_000_000_000;
    proof {
        lemma_prod_div_bound(u as int, t1 as int, 2_560_000_000, 166666667, 1_000_000_000);
    }
    let t0: u64 = 1_000_000_000 - (u * t1) / 1_000_000_000;
    proof {
        lemma_prod_div_bound(x9 as int, t0 as int, 1_600_000_000, 1_000_000_000, 1_000_000_000);
    }
    let s9: u64 = (x9 * t0) / 1_000_000_000;
    let r: u64 = s9 / 1000;
    if r > 1_000_000 {
        1_000_000
    } else {
        r as i64
    }
}

fn sin_half(y: u64) -> (r: i64)
    requires
        y <= PI_FX,
    ensures
        r == sin_half_s(y as int),
        0 <= r <= SCALE,
{
    if y <= 1_570_796 {
        sin_q(y)
    } else {
        sin_q(3_141_593 - y)
    }
}

/// Fixed-point sine of a micro-radian angle.
pub fn sin_fx(a: i64) -> (r: i64)
    requires
        -ANGLE_BOUND <= a <= ANGLE_BOUND,
    ensures
        r == sin_s(a as int),
        -SCALE <= r <= SCALE,
        (a >= 0 && (a as int) % (TAU_FX as int) <= PI_FX) ==> r >= 0,
{
    let mag: u64 = if a < 0 { (-a) as u64 } else { a as u64 };
    let m: u64 = mag % 6_283_185;
    let t: i64 = if m <= 3_141_593 {
        sin_half(m)
    } else {
        -sin_half(m - 3_141_593)
    };
    if a >= 0 {
        t
    } else {
        -t
    }
}

/// Fixed-point cosine of a micro-radian angle.
pub fn cos_fx(a: i64) -> (r: i64)
    requires
        -ANGLE_BOUND + HALF_PI <= a <= ANGLE_BOUND - HALF_PI,
    ensures
        r == cos_s(a as int),
        -SCALE <= r <= SCALE,
        (a + HALF_PI >= 0 && (a + HALF_PI) % (TAU_FX as int) <= PI_FX) ==> r >= 0,
{
    sin_fx(a + HALF_PI)
}

/// `v` floor-halved `n` times.
pub open spec fn halve_n_s(v: int, n: nat) -> int
    decreases n,
{
    if n == 0 {
        v
    } else {
        halve_n_s(v / 2, (n - 1) as nat)
    }
}

/// Taylor evaluation of `2^(-e)` for `e` in `[0, 10.5]` micro-units:
/// the fractional part runs through a nano-unit series for `exp`, the
/// integer part halves the result.
pub open spec fn exp2_neg_s(e: int) -> int {
    let n = e / 1_000_000;
    let f = e % 1_000_000;
    let g = (f * 693147181) / 1_000_000;
    let t8 = 24802int;
    let t7 = 198413 - (g * t8) / 1_000_000_000;
    let t6 = 1388889 - (g * t7) / 1_000_000_000;
    let t5 = 8333333 - (g * t6) / 1_000_000_000;
    let t4 = 41666667 - (g * t5) / 1_000_000_000;
    let t3 = 166666667 - (g * t4) / 1_000_000_000;
    let t2 = 500000000 - (g * t3) / 1_000_000_000;
    let t1 = 1_000_000_000 - (g * t2) / 1_000_000_000;
    let t0 = 1_000_000_000 - (g * t1) / 1_000_000_000;
    halve_n_s(t0, n as nat) / 1000
}

/// Fixed-point `2^(-e)` for a micro-unit exponent `e` in `[0, 10.5]`.
pub fn exp2_neg(e: i64) -> (r: i64)
    requires
        0 <= e <= 10_500_000,
    ensures
        r == exp2_neg_s(e as int),
        0 <= r <= SCALE,
{
    let eu: u64 = e as u64;
    let n: u64 = eu / 1_000_000;
    let f: u64 = eu % 1_000_000;
    proof {
        lemma_prod_div_bound(f as int, 693147181, 1_000_000, 693147181, 1_000_000);
    }
    let g: u64 = (f * 693147181) / 1_000_000;
    let t8: u64 = 24802;
    proof {
        lemma_prod_div_bound(g as int, t8 as int, 693147181, 24802, 1_000_000_000);
    }
    let t7: u64 = 198413 - (g * t8) / 1_000_000_000;
    proof {
        lemma_prod_div_bound(g as int, t7 as int, 693147181, 198413, 1_000_000_000);
    }
    let t6: u64 = 1388889 - (g * t7) / 1_000_000_000;
    proof {
        lemma_prod_div_bound(g as int, t6 as int, 693147181, 1388889, 1_000_000_000);
    }
    let t5: u64 = 8333333 - (g * t6) / 1_000_000_000;
    proof {
        lemma_prod_div_bound(g as int, t5 as int, 693147181, 8333333, 1_000_000_000);
    }
    let t4: u64 = 41666667 - (g * t5) / 1_000_000_000;
    proof {
        lemma_prod_div_bound(g as int, t4 as int, 693147181, 41666667, 1_000_000_000);
    }
    let t3: u64 = 166666667 - (g * t4) / 1_000_000_000;
    proof {
        lemma_prod_div_bound(g as int, t3 as int, 693147181, 166666667, 1_000_000_000);
    }
    let t2: u64 = 500000000 - (g * t3) / 1_000_000_000;
    proof {
        lemma_prod_div_bound(g as int, t2 as int, 693147181, 500000000, 1_000_000_000);
    }
    let t1: u64 = 1_000_000_000 - (g * t2) / 1_000_000_000;
    proof {
        lemma_prod_div_bound(g as int, t1 as int, 693147181, 1_000_000_000, 1_000_000_000);
    }
    let t0: u64 = 1_000_000_000 - (g * t1) / 1_000_000_000;
    let mut v: u64 = t0;
    let mut i: u64 = 0;
    while i < n
        invariant
            0 <= i <= n,
            n <= 10,
            v <= 1_000_000_000,
            halve_n_s(t0 as int, n as nat) == halve_n_s(v as int, (n - i) as nat),
        decreases n - i,
    {
        v = v / 2;
        i = i + 1;
    }
    let r: u64 = v / 1000;
    r as i64
}

/// `r` raised to the fifth power.
pub open spec fn pow5_s(r: int) -> int {
    r * r * r * r * r
}

/// `r` is the floor of the real fifth root of `x`.
pub open spec fn is_root5(x: int, r: int) -> bool {
    0 <= r && pow5_s(r) <= x && x < pow5_s(r + 1)
}

/// The floor of the real fifth root of `x`.
pub open spec fn root5_of(x: int) -> int {
    choose|r: int| is_root5(x, r)
}

proof fn lemma_pow5_mono(a: int, b: int)
    requires
        0 <= a <= b,
    ensures
        pow5_s(a) <= pow5_s(b),
{
    vstd::arithmetic::mul::lemma_mul_upper_bound(a, b, a, b);
    vstd::arithmetic::mul::lemma_mul_nonnegative(a, a);
    vstd::arithmetic::mul::lemma_mul_upper_bound(a * a, b * b, a, b);
    vstd::arithmetic::mul::lemma_mul_nonnegative(a * a, a);
    vstd::arithmetic::mul::lemma_mul_upper_bound(a * a * a, b * b * b, a, b);
    vstd::arithmetic::mul::lemma_mul_nonnegative(a * a * a, a);
    vstd::arithmetic::mul::lemma_mul_upper_bound(a * a * a * a, b * b * b * b, a, b);
}

/// Two floors of the same fifth root agree.
pub proof fn lemma_root5_unique(x: int, r1: int, r2: int)
    requires
        is_root5(x, r1),
        is_root5(x, r2),
    ensures
        r1 == r2,
{
    if r1 < r2 {
        lemma_pow5_mono(r1 + 1, r2);
        assert(false);
    }
    if r2 < r1 {
        lemma_pow5_mono(r2 + 1, r1);
        assert(false);
    }
}

fn pow5(v: u64) -> (p: u128)
    requires
        v <= 1_000_001,
    ensures
        p == pow5_s(v as int),
{
    let m: u128 = v as u128;
    proof {
        vstd::arithmetic::mul::lemma_mul_upper_bound(m as int, 1_000_001, m as int, 1_000_001);
        vstd::arithmetic::mul::lemma_mul_nonnegative(m as int, m as int);
        vstd::arithmetic::mul::lemma_mul_upper_bound(
            (m * m) as int,
            1_000_002_000_001,
            m as int,
            1_000_001,
        );
        vstd::arithmetic::mul::lemma_mul_nonnegative((m * m) as int, m as int);
        vstd::arithmetic::mul::lemma_mul_upper_bound(
            (m * m * m) as int,
            1_000_003_000_003_000_001,
            m as int,
            1_000_001,
        );
        vstd::arithmetic::mul::lemma_mul_nonnegative((m * m * m) as int, m as int);
        vstd::arithmetic::mul::lemma_mul_upper_bound(
            (m * m * m * m) as int,
            1_000_004_000_006_000_004_000_001,
            m as int,
            1_000_001,
        );
    }
    m * m * m * m * m
}

/// The floor of the fifth root of `t * SCALE^4`, so that the result is
/// again a micro-unit value: the fixed-point `t^(1/5)` for `t` in `[0, 1]`.
pub fn root5(t: i64) -> (r: i64)
    requires
        0 <= t <= SCALE,
    ensures
        0 <= r <= SCALE,
        is_root5(t * 1_000_000_000_000_000_000_000_000, r as int),
        r == root5_of(t * 1_000_000_000_000_000_000_000_000),
{
    let x: u128 = (t as u128) * 1_000_000_000_000_000_000_000_000;
    let mut lo: u64 = 0;
    let mut hi: u64 = 1_000_001;
    proof {
        assert(pow5_s(0) == 0);
        assert(pow5_s(1_000_001) == 1_000_005_000_010_000_010_000_005_000_001int);
    }
    while hi - lo > 1
        invariant
            lo < hi <= 1_000_001,
            x == t * 1_000_000_000_000_000_000_000_000,
            pow5_s(lo as int) <= x,
            x < pow5_s(hi as int),
        decreases hi - lo,
    {
        let mid: u64 = lo + (hi - lo) / 2;
        let p: u128 = pow5(mid);
        if p <= x {
            lo = mid;
        } else {
            hi = mid;
        }
    }
    proof {
        assert(is_root5(x as int, lo as int));
        lemma_root5_unique(x as int, lo as int, root5_of(x as int));
    }
    lo as i64
}

/// The fixed-point `t^1.2` for `t` in `[0, 1]`: `t` times its fifth root.
pub fn pow12(t: i64) -> (r: i64)
    requires
        0 <= t <= SCALE,
    ensures
        r == fx_mul_s(t as int, root5_of(t * 1_000_000_000_000_000_000_000_000)),
        0 <= r <= SCALE,
{
    let q: i64 = root5(t);
    let r: i64 = crate::fixed::fx_mul(t, q);
    proof {
        lemma_prod_div_bound(t as int, q as int, 1_000_000, 1_000_000, 1_000_000);
    }
    r
}

} // verus!
