//! The source of randomness that every sampling function draws from.
use vstd::prelude::*;
use rand::rngs::StdRng;
use rand::{Rng, SeedableRng};
use crate::scalar::Scalar;

verus! {

/// `rand::rngs::StdRng`, the seedable generator of the `rand` crate. Nothing
/// is known of its state.
#[verifier::external_type_specification]
#[verifier::external_body]
pub struct ExStdRng(StdRng);

/// Calls `StdRng::seed_from_u64`. Nothing is claimed of the generator that
/// comes back.
#[verifier::external_body]
fn seeded_generator(seed: u64) -> StdRng {
    StdRng::seed_from_u64(seed)
}

/// Calls `Rng::gen_range` on the half-open range `low..high` of `i64`. The
/// call panics on an empty range, which `requires` leaves out; the contract
/// claims that the number drawn lies in the range, and nothing of which one
/// it is nor of the generator afterwards.
#[verifier::external_body]
fn draw_between(rng: &mut StdRng, low: i64, high: i64) -> (r: i64)
    requires
        low < high,
    ensures
        low <= r < high,
{
    rng.gen_range(low..high)
}

/// A stream of random numbers that starts from a seed.
pub struct Sampler {
    rng: StdRng,
}

impl Sampler {
    /// The stream that belongs to `seed`.
    pub fn from_seed(seed: u64) -> Sampler {
        Sampler { rng: seeded_generator(seed) }
    }

    /// A scalar drawn uniformly from `low` up to, but not including, `high`.
    /// Where no scalar lies between the two, the result is `low`.
    pub fn uniform(&mut self, low: Scalar, high: Scalar) -> (r: Scalar)
        ensures
            low.raw < high.raw ==> low.raw <= r.raw < high.raw,
            low.raw >= high.raw ==> r == low,
    {
        if low.raw < high.raw {
            Scalar { raw: draw_between(&mut self.rng, low.raw, high.raw) }
        } else {
            low
        }
    }
}

} // verus!
