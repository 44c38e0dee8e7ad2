//! Random draws from `rand`'s thread-local generator.
use vstd::prelude::*;
use rand::Rng;
use rand::rngs::ThreadRng;

verus! {

#[verifier::external_type_specification]
#[verifier::external_body]
pub struct ExThreadRng(ThreadRng);

/// Calls `rand::Rng::random_range` with the half-open range `low..high` of
/// `i32`. rand's source samples uniformly from the range and returns a value
/// with `low <= r < high`; it panics on an empty range, which `requires`
/// leaves out. Which value in the range comes back rests on chance and is
/// not stated.
#[verifier::external_body]
pub(crate) fn random_in(rng: &mut ThreadRng, low: i32, high: i32) -> (r: i32)
    requires
        low < high,
    ensures
        low <= r < high,
{
    rng.random_range(low..high)
}

/// A roll of a hundred-sided die: `rng.random_range(1..=100)`.
pub fn roll_percent(rng: &mut ThreadRng) -> (r: i32)
    ensures
        1 <= r <= 100,
{
    random_in(rng, 1, 101)
}

} // verus!
