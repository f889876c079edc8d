//! Source of pseudo-random fixed-point scalars.
//!
//! All randomness the renderer consumes flows through `RandomSource`, so a
//! render can be made reproducible by seeding one generator per pixel.

use crate::fixed::SCALE;
use crate::vec3::Vec3;
use vstd::prelude::*;

verus! {

/// Declares rand's `StdRng` so it can stand in a field; the generator's
/// state is opaque to verification.
#[verifier::external_type_specification]
#[verifier::external_body]
pub struct ExStdRng(rand::rngs::StdRng);

/// A stream of pseudo-random numbers, backed by rand's standard generator.
pub struct RandomSource {
    inner: rand::rngs::StdRng,
}

impl RandomSource {
    /// Relies on rand's `SeedableRng::seed_from_u64`: a deterministic
    /// generator derived from the 64-bit seed.
    #[verifier::external_body]
    pub fn seeded(seed: u64) -> RandomSource {
        RandomSource { inner: <rand::rngs::StdRng as rand::SeedableRng>::seed_from_u64(seed) }
    }

    /// Relies on rand's `SeedableRng::from_entropy`: a generator seeded from
    /// the operating system.  Panics only if the system cannot supply
    /// entropy.
    #[verifier::external_body]
    pub fn fresh() -> RandomSource {
        RandomSource { inner: <rand::rngs::StdRng as rand::SeedableRng>::from_entropy() }
    }

    /// Relies on rand's `Rng::gen_range`: a value uniform in `[lo, hi)`,
    /// which panics only on an empty range.
    #[verifier::external_body]
    pub fn next_in(&mut self, lo: i64, hi: i64) -> (r: i64)
        requires
            lo < hi,
        ensures
            lo <= r < hi,
    {
        rand::Rng::gen_range(&mut self.inner, lo..hi)
    }
}

/// Number of draws a rejection sampler makes before falling back to a fixed
/// interior point; each draw is accepted with probability about one half, so
/// the fallback is, for every practical purpose, never taken.
pub const SAMPLE_ATTEMPTS: u32 = 64;

/// Rejection-sample a vector inside the unit sphere: every component uniform
/// in `[-1, 1)`, redrawn until the squared length is below one.
pub fn random_in_unit_sphere(rng: &mut RandomSource) -> (r: Vec3)
    ensures
        r@.dot_raw(r@) < (SCALE as int) * (SCALE as int),
        r@.in_range(SCALE as int),
{
    let mut i: u32 = 0;
    while i < SAMPLE_ATTEMPTS
        decreases SAMPLE_ATTEMPTS - i,
    {
        let x = rng.next_in(-SCALE, SCALE);
        let y = rng.next_in(-SCALE, SCALE);
        let z = rng.next_in(-SCALE, SCALE);
        let v = Vec3 { x, y, z };
        let d = v.dot_raw_wide(&v);
        if d < (SCALE as i128) * (SCALE as i128) {
            return v;
        }
        i = i + 1;
    }
    proof {
        assert((32768 as int) * (32768 as int) < (SCALE as int) * (SCALE as int))
            by (nonlinear_arith)
            requires
                SCALE == 65536,
        ;
    }
    Vec3 { x: SCALE / 2, y: 0, z: 0 }
}

/// Rejection-sample a vector inside the unit disk of the xy-plane.
pub fn random_in_unit_disk(rng: &mut RandomSource) -> (r: Vec3)
    ensures
        r@.dot_raw(r@) < (SCALE as int) * (SCALE as int),
        r@.in_range(SCALE as int),
        r@.z == 0,
{
    let mut i: u32 = 0;
    while i < SAMPLE_ATTEMPTS
        decreases SAMPLE_ATTEMPTS - i,
    {
        let x = rng.next_in(-SCALE, SCALE);
        let y = rng.next_in(-SCALE, SCALE);
        let v = Vec3 { x, y, z: 0 };
        let d = v.dot_raw_wide(&v);
        if d < (SCALE as i128) * (SCALE as i128) {
            return v;
        }
        i = i + 1;
    }
    proof {
        assert((32768 as int) * (32768 as int) < (SCALE as int) * (SCALE as int))
            by (nonlinear_arith)
            requires
                SCALE == 65536,
        ;
    }
    Vec3 { x: SCALE / 2, y: 0, z: 0 }
}

} // verus!
