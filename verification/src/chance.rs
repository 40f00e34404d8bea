//! Random draws.

use rand::Rng;
use vstd::prelude::*;

verus! {

/// Draws from `low..high` with `rand`'s thread-local generator
/// (`rand::rng().random_range(low..high)`). Which value comes back is up to
/// the generator; the range it comes from is what `random_range` documents.
/// The range must not be empty, as `random_range` panics on an empty one.
#[verifier::external_body]
pub(crate) fn random_i8(low: i8, high: i8) -> (value: i8)
    requires
        low < high,
    ensures
        low <= value < high,
{
    rand::rng().random_range(low..high)
}

/// Draws from `low..high` with `rand`'s thread-local generator
/// (`rand::rng().random_range(low..high)`). Which value comes back is up to
/// the generator; the range it comes from is what `random_range` documents.
/// The range must not be empty, as `random_range` panics on an empty one.
#[verifier::external_body]
pub(crate) fn random_usize(low: usize, high: usize) -> (value: usize)
    requires
        low < high,
    ensures
        low <= value < high,
{
    rand::rng().random_range(low..high)
}

} // verus!
