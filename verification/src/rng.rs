//! The source of randomness for sampling and scattering: a small, fast
//! pseudo-random generator, drawn from through a handful of trusted
//! wrappers that promise nothing beyond the documented output ranges.

use vstd::prelude::*;

use rand::Rng;
use rand::SeedableRng;

verus! {

use crate::fixed::FX_ONE;

#[verifier::external_type_specification]
#[verifier::external_body]
pub struct ExSmallRng(rand::rngs::SmallRng);

/// A pseudo-random source.  Each worker owns one; two calls on equal
/// states may differ as far as the verifier knows, so nothing downstream
/// depends on particular values.
pub struct RandSrc {
    inner: rand::rngs::SmallRng,
}

impl RandSrc {
    /// Relies on rand's `SmallRng::seed_from_u64`: constructs a generator
    /// from a seed.  Nothing is promised about the values it will yield.
    #[verifier::external_body]
    pub fn from_seed(seed: u64) -> (r: RandSrc)
    {
        RandSrc { inner: rand::rngs::SmallRng::seed_from_u64(seed) }
    }

    /// Relies on rand's `SmallRng::try_from_os_rng`: constructs a
    /// generator seeded from the operating system, or reports the
    /// failure of the system's randomness source as `None`.
    #[verifier::external_body]
    pub fn from_entropy() -> (r: Option<RandSrc>)
    {
        match rand::rngs::SmallRng::try_from_os_rng() {
            Ok(inner) => Some(RandSrc { inner }),
            Err(_) => None,
        }
    }

    /// Relies on rand's `Rng::random_range`, which returns a value
    /// uniformly distributed in the given half-open range.
    #[verifier::external_body]
    pub fn next_unit(&mut self) -> (r: i64)
        ensures
            0 <= r < FX_ONE,
    {
        self.inner.random_range(0..65536i64)
    }

    /// Relies on rand's `Rng::random_range`, which returns a value
    /// uniformly distributed in the given closed range.
    #[verifier::external_body]
    pub fn next_closed_unit(&mut self) -> (r: i64)
        ensures
            0 <= r <= FX_ONE,
    {
        self.inner.random_range(0..=65536i64)
    }

    /// Relies on rand's `Rng::random_range`, which returns a value
    /// uniformly distributed in the given closed range.
    #[verifier::external_body]
    pub fn next_symmetric(&mut self) -> (r: i64)
        ensures
            -FX_ONE <= r <= FX_ONE,
    {
        self.inner.random_range(-65536i64..=65536i64)
    }
}

} // verus!
