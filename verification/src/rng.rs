//! The simulation's random source: a seedable generator injected once into
//! the simulation context, so that runs are reproducible under a fixed seed.
//!
//! Randomness itself cannot be pinned down by a contract, so each drawing
//! function states only what holds of every outcome (the range of the draw).

use vstd::prelude::*;

verus! {

#[verifier::external_type_specification]
#[verifier::external_body]
pub struct ExStdRng(rand::rngs::StdRng);

/// A seedable pseudo-random source. All randomness of the simulation —
/// obstacle weights, spawn edges, spawn trajectories — is drawn from one
/// value of this type held in the simulation context.
pub struct GameRng {
    inner: rand::rngs::StdRng,
}

impl GameRng {
    /// Relies on `rand_core::SeedableRng::seed_from_u64`: builds a generator
    /// deterministically from the given seed.
    #[verifier::external_body]
    pub fn from_seed(seed: u64) -> GameRng {
        GameRng { inner: <rand::rngs::StdRng as rand::SeedableRng>::seed_from_u64(seed) }
    }

    /// Relies on `rand::RngExt::random_range` over the half-open range
    /// `0..n`: returns a uniform value of that range and panics only when the
    /// range is empty, which the precondition rules out.
    #[verifier::external_body]
    pub fn random_below(&mut self, n: u64) -> (r: u64)
        requires
            n >= 1,
        ensures
            r < n,
    {
        rand::RngExt::random_range(&mut self.inner, 0..n)
    }
}

} // verus!
