//! The procedural palette: a fixed-length ordered run of colours drawn
//! from one random hue seed, sweeping a full hue turn with correlated
//! saturation and lightness falloff.
//!
//! Colours are kept in the perceptual cylindrical model the generator
//! works in — hue as a fraction of a turn, saturation and lightness as
//! micro-units — and the platform layer converts them to whatever its
//! renderer wants.

use vstd::prelude::*;

use crate::fixed::{fx_lerp, fx_lerp_s, fx_mul, fx_mul_s, lemma_abs_mul_le, lemma_fx_mul_s_bound, SCALE};
use crate::math::{cos_fx, cos_s, pow12, root5_of, sin_fx, sin_s, HALF_PI, TAU_FX};
use crate::rng::{rng_next_s, Rng};

verus! {

/// Number of colours in every palette.
pub const PALETTE_LEN: usize = 8;

/// Hue distance from one palette entry to the next, in micro-turns:
/// the sweep covers one full turn over the palette.
pub const HUE_STEP: i64 = 125_000;

/// One colour in the perceptual cylindrical model.
#[derive(Clone, Copy, PartialEq, Eq, Debug)]
pub struct Colour {
    /// Fraction of a full hue turn, in `[0, SCALE)` micro-turns.
    pub hue: i64,
    /// Saturation in micro-units.
    pub saturation: i64,
    /// Lightness in micro-units.
    pub lightness: i64,
}

/// The fixed-point `v^1.2` for `v` in `[0, 1]`: `v` times its fifth
/// root.
pub open spec fn pow12_s(v: int) -> int {
    fx_mul_s(v, root5_of(v * 1_000_000_000_000_000_000_000_000))
}

/// The saturation/lightness curve at `x`:
/// `(sin(x * pi/2)^1.2, cos(x * pi/2)^1.2)`.
pub open spec fn curve_s(x: int) -> (int, int) {
    let ang = fx_mul_s(x, HALF_PI as int);
    (pow12_s(sin_s(ang)), pow12_s(cos_s(ang)))
}

/// The saturation/lightness curve, for `x` in `[0, 1]`.
pub fn curve(x: i64) -> (r: (i64, i64))
    requires
        0 <= x <= SCALE,
    ensures
        (r.0 as int, r.1 as int) == curve_s(x as int),
        0 <= r.0 <= SCALE,
        0 <= r.1 <= SCALE,
{
    proof {
        lemma_fx_mul_s_bound(x as int, HALF_PI as int, 1_000_000, HALF_PI as int);
    }
    let ang: i64 = fx_mul(x, HALF_PI);
    proof {
        vstd::arithmetic::div_mod::lemma_small_mod(ang as nat, TAU_FX as nat);
        vstd::arithmetic::div_mod::lemma_small_mod((ang + HALF_PI) as nat, TAU_FX as nat);
    }
    let sv: i64 = sin_fx(ang);
    let s12: i64 = pow12(sv);
    let cv: i64 = cos_fx(ang);
    let c12: i64 = pow12(cv);
    (s12, c12)
}

/// The colour at index `i` of the palette seeded with `h_init`, as the
/// triple (hue, saturation, lightness): the hue advances one
/// [`HUE_STEP`] per index, wrapping on the full turn, and saturation
/// and lightness follow the curve over the fixed `[0.3, 0.55]` window,
/// scaled by `1.2` and `0.8`.
pub open spec fn palette_entry_s(h_init: int, i: int) -> (int, int, int) {
    let t = i * HUE_STEP;
    let x = fx_lerp_s(300_000, 550_000, t);
    let c = curve_s(x);
    ((h_init + t) % (SCALE as int), fx_mul_s(c.0, 1_200_000), fx_mul_s(c.1, 800_000))
}

/// The colour triple that a [`Colour`] value holds.
pub open spec fn colour_view(c: Colour) -> (int, int, int) {
    (c.hue as int, c.saturation as int, c.lightness as int)
}

/// A full palette freshly generated from one draw out of generator
/// state `s0`: exactly [`PALETTE_LEN`] entries, each pinned to
/// [`palette_entry_s`] of the drawn hue seed.
#[verifier::opaque]
pub open spec fn fresh_palette_ok(p: Seq<Colour>, s0: u64) -> bool {
    &&& p.len() == PALETTE_LEN
    &&& forall|i: int|
        0 <= i < PALETTE_LEN ==> colour_view(#[trigger] p[i]) == palette_entry_s(
            (rng_next_s(s0) % 1_000_000u64) as int,
            i,
        )
}

/// A fresh palette from one draw of the random source: exactly
/// [`PALETTE_LEN`] colours, each pinned to [`palette_entry_s`] of the
/// drawn hue seed.
pub fn palette(rng: &mut Rng) -> (p: Vec<Colour>)
    ensures
        final(rng).state == rng_next_s(old(rng).state),
        p.len() == PALETTE_LEN,
        fresh_palette_ok(p@, old(rng).state),
{
    proof {
        reveal(fresh_palette_ok);
    }
    let h_init: u64 = rng.below(1_000_000);
    let ghost seed: int = h_init as int;
    let mut out: Vec<Colour> = Vec::new();
    let mut i: usize = 0;
    while i < 8
        invariant
            0 <= i <= 8,
            h_init < 1_000_000,
            seed == h_init as int,
            out.len() == i,
            forall|j: int| 0 <= j < i ==> colour_view(out[j]) == palette_entry_s(seed, j),
        decreases 8 - i,
    {
        let t: i64 = (i as i64) * 125_000;
        proof {
            lemma_abs_mul_le(250_000, t as int, 250_000, 875_000);
        }
        let x: i64 = fx_lerp(300_000, 550_000, t);
        let c: (i64, i64) = curve(x);
        let hue: i64 = ((h_init + (t as u64)) % 1_000_000) as i64;
        proof {
            lemma_fx_mul_s_bound(c.0 as int, 1_200_000, 1_000_000, 1_200_000);
            lemma_fx_mul_s_bound(c.1 as int, 800_000, 1_000_000, 800_000);
        }
        let sat: i64 = fx_mul(c.0, 1_200_000);
        let light: i64 = fx_mul(c.1, 800_000);
        out.push(Colour { hue, saturation: sat, lightness: light });
        i = i + 1;
    }
    out
}

/// Law: for a fixed seed the hues sweep monotonically — each entry's
/// hue is exactly one step above its predecessor's, allowing for at
/// most the one wrap around the full turn.
pub proof fn lemma_palette_hue_sweep(h_init: int, i: int)
    requires
        0 <= h_init < SCALE,
        0 <= i < PALETTE_LEN - 1,
    ensures
        ({
            let a = palette_entry_s(h_init, i).0;
            let b = palette_entry_s(h_init, i + 1).0;
            b == a + HUE_STEP || b == a + HUE_STEP - SCALE
        }),
{
    let s = SCALE as int;
    let base = h_init + i * HUE_STEP;
    assert(0 <= i * HUE_STEP <= 6 * HUE_STEP) by {
        vstd::arithmetic::mul::lemma_mul_inequality(i, 6, HUE_STEP as int);
        vstd::arithmetic::mul::lemma_mul_nonnegative(i, HUE_STEP as int);
    }
    assert((i + 1) * HUE_STEP == i * HUE_STEP + HUE_STEP) by {
        vstd::arithmetic::mul::lemma_mul_is_distributive_add_other_way(
            HUE_STEP as int,
            i,
            1,
        );
    }
    if base < s {
        vstd::arithmetic::div_mod::lemma_small_mod(base as nat, s as nat);
        if base + HUE_STEP < s {
            vstd::arithmetic::div_mod::lemma_small_mod((base + HUE_STEP) as nat, s as nat);
        } else {
            vstd::arithmetic::div_mod::lemma_mod_sub_multiples_vanish(base + HUE_STEP, s);
            vstd::arithmetic::div_mod::lemma_small_mod((base + HUE_STEP - s) as nat, s as nat);
        }
    } else {
        vstd::arithmetic::div_mod::lemma_mod_sub_multiples_vanish(base, s);
        vstd::arithmetic::div_mod::lemma_small_mod((base - s) as nat, s as nat);
        vstd::arithmetic::div_mod::lemma_mod_sub_multiples_vanish(base + HUE_STEP, s);
        vstd::arithmetic::div_mod::lemma_small_mod((base + HUE_STEP - s) as nat, s as nat);
    }
}

} // verus!
