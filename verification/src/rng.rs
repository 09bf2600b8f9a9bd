//! A deterministic pseudo-random stream.
//!
//! Expansion must be fully reproducible from (grammar, settings, seed), so
//! the generator is an explicit value threaded through every call, never
//! ambient state.  The stream is the splitmix construction: the state walks
//! a fixed odd increment and each output is a bit-mixing of the new state.
//! Sub-streams are derived by seeding fresh generators from two consecutive
//! raw draws of the parent stream, so that which rule case fires and what
//! values its children draw stay logically independent.

use vstd::prelude::*;

verus! {

/// State advance: one fixed odd increment, wrapping.
pub open spec fn spec_rng_step(s: u64) -> u64 {
    vstd::wrapping::u64_specs::wrapping_add(s, 0x9E37_79B9_7F4A_7C15u64)
}

/// Output finalizer: xor-shift and multiply bit mixing of a state.
pub open spec fn spec_rng_mix(z: u64) -> u64 {
    let z1 = vstd::wrapping::u64_specs::wrapping_mul(z ^ (z >> 30u64), 0xBF58_476D_1CE4_E5B9u64);
    let z2 = vstd::wrapping::u64_specs::wrapping_mul(z1 ^ (z1 >> 27u64), 0x94D0_49BB_1331_11EBu64);
    z2 ^ (z2 >> 31u64)
}

/// The raw draw made from a generator whose state is `s`.
pub open spec fn spec_rng_draw(s: u64) -> u64 {
    spec_rng_mix(spec_rng_step(s))
}

/// An explicit pseudo-random generator state.
#[derive(Clone, Copy, PartialEq, Eq, Structural, Debug)]
pub struct Rng {
    pub state: u64,
}

impl Rng {
    pub fn new(seed: u64) -> (r: Self)
        ensures
            r.state == seed,
    {
        Rng { state: seed }
    }

    /// Advance the state once and return the mixed output.
    pub fn next_u64(&mut self) -> (r: u64)
        ensures
            final(self).state == spec_rng_step(old(self).state),
            r == spec_rng_draw(old(self).state),
    {
        self.state = self.state.wrapping_add(0x9E37_79B9_7F4A_7C15u64);
        let z0: u64 = self.state;
        let z1: u64 = (z0 ^ (z0 >> 30u64)).wrapping_mul(0xBF58_476D_1CE4_E5B9u64);
        let z2: u64 = (z1 ^ (z1 >> 27u64)).wrapping_mul(0x94D0_49BB_1331_11EBu64);
        z2 ^ (z2 >> 31u64)
    }

    /// A draw reduced below `n` by remainder.
    pub fn next_below(&mut self, n: u64) -> (r: u64)
        requires
            n > 0,
        ensures
            final(self).state == spec_rng_step(old(self).state),
            r == spec_rng_draw(old(self).state) % n,
            r < n,
    {
        let d: u64 = self.next_u64();
        d % n
    }

    /// A fixed-point scalar drawn uniformly from `[lo, hi]`.
    pub fn next_in_range(&mut self, lo: i64, hi: i64) -> (r: i64)
        requires
            lo <= hi,
            crate::fixed::fx_wf(lo as int),
            crate::fixed::fx_wf(hi as int),
        ensures
            final(self).state == spec_rng_step(old(self).state),
            r as int == lo as int + (spec_rng_draw(old(self).state) % ((hi - lo + 1) as u64)) as int,
            lo <= r <= hi,
            crate::fixed::fx_wf(r as int),
    {
        let span: u64 = ((hi - lo) as u64) + 1u64;
        let off: u64 = self.next_below(span);
        lo + (off as i64)
    }

    /// A Bernoulli draw: true with probability `p` wholes in `SCALE`.
    pub fn next_bool(&mut self, p: i64) -> (r: bool)
        ensures
            final(self).state == spec_rng_step(old(self).state),
            r == (p as int > (spec_rng_draw(old(self).state) % 10_000u64) as int),
    {
        let d: u64 = self.next_below(10_000u64);
        if p <= 0 {
            false
        } else {
            (d as i64) < p
        }
    }

    /// Two fresh generators seeded from two consecutive raw draws, advancing
    /// this stream twice.
    pub fn fork(&mut self) -> (r: (Rng, Rng))
        ensures
            final(self).state == spec_rng_step(spec_rng_step(old(self).state)),
            r.0.state == spec_rng_draw(old(self).state),
            r.1.state == spec_rng_draw(spec_rng_step(old(self).state)),
    {
        let s1: u64 = self.next_u64();
        let s2: u64 = self.next_u64();
        (Rng { state: s1 }, Rng { state: s2 })
    }
}

} // verus!
