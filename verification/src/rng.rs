//! A small deterministic random source, injected wherever the simulation
//! makes a stochastic choice, so that every run is reproducible from its
//! seed.
//!
//! The generator is a linear-congruential step on 64 bits; each draw is
//! pinned exactly by the contract, and nothing is claimed about the
//! distribution of the outputs.

use vstd::prelude::*;

verus! {

/// The multiplier of the linear-congruential step.
pub const RNG_MUL: u64 = 6364136223846793005;

/// The increment of the linear-congruential step.
pub const RNG_INC: u64 = 1442695040888963407;

/// The state after one step: `state * RNG_MUL + RNG_INC`, wrapping on
/// 64 bits.
pub open spec fn rng_next_s(state: u64) -> u64 {
    vstd::wrapping::u64_specs::wrapping_add(
        vstd::wrapping::u64_specs::wrapping_mul(state, RNG_MUL),
        RNG_INC,
    )
}

/// The state after `n` steps of the generator.
pub open spec fn rng_iter_s(state: u64, n: nat) -> u64
    decreases n,
{
    if n == 0 {
        state
    } else {
        rng_next_s(rng_iter_s(state, (n - 1) as nat))
    }
}

/// One more step extends the iterated state by one application.
pub proof fn lemma_rng_iter_step(state: u64, n: nat)
    ensures
        rng_iter_s(state, n + 1) == rng_next_s(rng_iter_s(state, n)),
{
}

/// Iterating `a` steps and then `b` more is iterating `a + b` steps.
pub proof fn lemma_rng_iter_add(state: u64, a: nat, b: nat)
    ensures
        rng_iter_s(rng_iter_s(state, a), b) == rng_iter_s(state, a + b),
    decreases b,
{
    if b > 0 {
        lemma_rng_iter_add(state, a, (b - 1) as nat);
    }
}

/// A seeded pseudo-random source.
#[derive(Clone, Copy, PartialEq, Eq, Debug)]
pub struct Rng {
    /// The current generator state; the next draw is a pure function
    /// of it.
    pub state: u64,
}

impl Rng {
    /// A generator starting from `seed`.
    pub fn new(seed: u64) -> (r: Rng)
        ensures
            r.state == seed,
    {
        Rng { state: seed }
    }

    /// Steps the generator and hands the new state out as the draw.
    pub fn next(&mut self) -> (r: u64)
        ensures
            final(self).state == rng_next_s(old(self).state),
            r == final(self).state,
    {
        self.state = self.state.wrapping_mul(RNG_MUL).wrapping_add(RNG_INC);
        self.state
    }

    /// A draw reduced below `n`.
    pub fn below(&mut self, n: u64) -> (r: u64)
        requires
            1 <= n,
        ensures
            final(self).state == rng_next_s(old(self).state),
            r == rng_next_s(old(self).state) % n,
            r < n,
    {
        let d: u64 = self.next();
        d % n
    }

    /// A fair-coin draw: whether the next draw is even.
    pub fn coin(&mut self) -> (r: bool)
        ensures
            final(self).state == rng_next_s(old(self).state),
            r == (rng_next_s(old(self).state) % 2 == 0),
    {
        let d: u64 = self.next();
        d % 2 == 0
    }
}

} // verus!
