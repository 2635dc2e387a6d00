//! Fixed-point scalars: an `i64` holding millionths of a unit.
//!
//! Products are scaled back down with a division that rounds toward zero,
//! the same rounding that every helper here states in its contract.

use vstd::prelude::*;

verus! {

/// Number of fixed-point units in `1.0`.
pub const SCALE: i64 = 1_000_000;

/// Largest magnitude that [`fx_mul`] accepts for either factor.
pub const MUL_BOUND: i64 = 3_000_000_000;

/// Largest magnitude that [`fx_mul_wide`] accepts for either factor.
pub const WIDE_BOUND: i64 = 90_000_000_000_000;

/// Magnitude of `a`.
pub open spec fn fx_abs(a: int) -> int {
    if a >= 0 {
        a
    } else {
        -a
    }
}

/// Product of two fixed-point values, scaled back to fixed point;
/// rounds toward zero.
pub open spec fn fx_mul_s(a: int, b: int) -> int {
    if (a >= 0) == (b >= 0) {
        fx_abs(a) * fx_abs(b) / (SCALE as int)
    } else {
        -(fx_abs(a) * fx_abs(b) / (SCALE as int))
    }
}

/// `v` clamped to `[lo, hi]`.
pub open spec fn fx_clamp_s(v: int, lo: int, hi: int) -> int {
    if v < lo {
        lo
    } else if v > hi {
        hi
    } else {
        v
    }
}

/// Linear interpolation from `a` to `b` by the fixed-point weight `t`.
pub open spec fn fx_lerp_s(a: int, b: int, t: int) -> int {
    a + fx_mul_s(b - a, t)
}

/// Magnitude bounds on the factors bound the magnitude product.
pub proof fn lemma_abs_mul_le(a: int, b: int, aa: int, bb: int)
    requires
        fx_abs(a) <= aa,
        fx_abs(b) <= bb,
    ensures
        fx_abs(a) * fx_abs(b) <= aa * bb,
{
    vstd::arithmetic::mul::lemma_mul_upper_bound(fx_abs(a), aa, fx_abs(b), bb);
}

/// A zero factor gives a zero product.
pub proof fn lemma_fx_mul_s_zero(a: int, b: int)
    requires
        a == 0 || b == 0,
    ensures
        fx_mul_s(a, b) == 0,
{
    vstd::arithmetic::mul::lemma_mul_by_zero_is_zero(fx_abs(a));
    vstd::arithmetic::mul::lemma_mul_by_zero_is_zero(fx_abs(b));
    vstd::arithmetic::div_mod::lemma_div_of0(SCALE as int);
}

/// Magnitude bounds on the factors bound a signed product on both sides.
pub proof fn lemma_mul_abs_bound(a: int, b: int, aa: int, bb: int)
    requires
        fx_abs(a) <= aa,
        fx_abs(b) <= bb,
    ensures
        -(aa * bb) <= a * b <= aa * bb,
{
    lemma_abs_mul_le(a, b, aa, bb);
    vstd::arithmetic::mul::lemma_mul_nonnegative(aa, bb);
    if a >= 0 && b >= 0 {
        vstd::arithmetic::mul::lemma_mul_nonnegative(a, b);
    } else if a < 0 && b >= 0 {
        vstd::arithmetic::mul::lemma_mul_unary_negation(a, b);
        vstd::arithmetic::mul::lemma_mul_nonnegative(-a, b);
    } else if a >= 0 && b < 0 {
        vstd::arithmetic::mul::lemma_mul_unary_negation(b, a);
        vstd::arithmetic::mul::lemma_mul_is_commutative(a, b);
        vstd::arithmetic::mul::lemma_mul_is_commutative(-b, a);
        vstd::arithmetic::mul::lemma_mul_nonnegative(-b, a);
    } else {
        vstd::arithmetic::mul::lemma_mul_cancels_negatives(a, b);
        vstd::arithmetic::mul::lemma_mul_nonnegative(-a, -b);
    }
}

/// Bounds on the factors carry over to the scaled product.
pub proof fn lemma_fx_mul_s_bound(a: int, b: int, aa: int, bb: int)
    requires
        fx_abs(a) <= aa,
        fx_abs(b) <= bb,
    ensures
        fx_abs(fx_mul_s(a, b)) <= aa * bb / (SCALE as int),
{
    lemma_abs_mul_le(a, b, aa, bb);
    vstd::arithmetic::mul::lemma_mul_nonnegative(fx_abs(a), fx_abs(b));
    vstd::arithmetic::div_mod::lemma_div_pos_is_pos(fx_abs(a) * fx_abs(b), SCALE as int);
    vstd::arithmetic::div_mod::lemma_div_is_ordered(
        fx_abs(a) * fx_abs(b),
        aa * bb,
        SCALE as int,
    );
}

/// Fixed-point product of two values of moderate magnitude.
pub fn fx_mul(a: i64, b: i64) -> (r: i64)
    requires
        -MUL_BOUND <= a <= MUL_BOUND,
        -MUL_BOUND <= b <= MUL_BOUND,
    ensures
        r == fx_mul_s(a as int, b as int),
        fx_abs(r as int) * (SCALE as int) <= fx_abs(a as int) * fx_abs(b as int),
        ((a >= 0) == (b >= 0)) ==> r >= 0,
        ((a >= 0) != (b >= 0)) ==> r <= 0,
        a == 0 || b == 0 ==> r == 0,
{
    proof {
        if a == 0 || b == 0 {
            lemma_fx_mul_s_zero(a as int, b as int);
        }
    }
    let ma: u64 = if a < 0 { (-a) as u64 } else { a as u64 };
    let mb: u64 = if b < 0 { (-b) as u64 } else { b as u64 };
    proof {
        lemma_abs_mul_le(a as int, b as int, MUL_BOUND as int, MUL_BOUND as int);
        assert(ma * mb <= 9_000_000_000_000_000_000);
        vstd::arithmetic::div_mod::lemma_div_pos_is_pos((ma * mb) as int, SCALE as int);
        vstd::arithmetic::div_mod::lemma_div_is_ordered(
            (ma * mb) as int,
            9_000_000_000_000_000_000,
            SCALE as int,
        );
        vstd::arithmetic::div_mod::lemma_remainder_lower((ma * mb) as int, SCALE as int);
    }
    let m: u64 = (ma * mb) / 1_000_000u64;
    if (a < 0) == (b < 0) {
        m as i64
    } else {
        -(m as i64)
    }
}

/// Fixed-point product for large operands, such as scaled screen
/// coordinates; computed through 128-bit intermediates.
pub fn fx_mul_wide(a: i64, b: i64) -> (r: i64)
    requires
        -WIDE_BOUND <= a <= WIDE_BOUND,
        -WIDE_BOUND <= b <= WIDE_BOUND,
        fx_abs(a as int) * fx_abs(b as int) <= 9_000_000_000_000_000_000_000_000,
    ensures
        r == fx_mul_s(a as int, b as int),
        fx_abs(r as int) * (SCALE as int) <= fx_abs(a as int) * fx_abs(b as int),
{
    let ma: u128 = if a < 0 { (-a) as u128 } else { a as u128 };
    let mb: u128 = if b < 0 { (-b) as u128 } else { b as u128 };
    proof {
        assert(ma * mb <= 9_000_000_000_000_000_000_000_000);
        vstd::arithmetic::div_mod::lemma_div_pos_is_pos((ma * mb) as int, SCALE as int);
        vstd::arithmetic::div_mod::lemma_div_is_ordered(
            (ma * mb) as int,
            9_000_000_000_000_000_000_000_000,
            SCALE as int,
        );
        vstd::arithmetic::div_mod::lemma_remainder_lower((ma * mb) as int, SCALE as int);
    }
    let m: u128 = (ma * mb) / 1_000_000u128;
    if (a < 0) == (b < 0) {
        m as i64
    } else {
        -(m as i64)
    }
}

/// Linear interpolation from `a` to `b` by the fixed-point weight `t`.
pub fn fx_lerp(a: i64, b: i64, t: i64) -> (r: i64)
    requires
        -100_000_000_000_000 <= a <= 100_000_000_000_000,
        -100_000_000_000_000 <= b <= 100_000_000_000_000,
        fx_abs(b - a) <= MUL_BOUND,
        fx_abs(t as int) <= MUL_BOUND,
        fx_abs(b - a) * fx_abs(t as int) <= 9_000_000_000_000_000_000,
    ensures
        r == fx_lerp_s(a as int, b as int, t as int),
{
    let d: i64 = b - a;
    let step: i64 = fx_mul(d, t);
    proof {
        vstd::arithmetic::div_mod::lemma_div_pos_is_pos(fx_abs(d as int) * fx_abs(t as int), SCALE as int);
        vstd::arithmetic::div_mod::lemma_div_is_ordered(
            fx_abs(d as int) * fx_abs(t as int),
            9_000_000_000_000_000_000,
            SCALE as int,
        );
    }
    a + step
}

} // verus!
