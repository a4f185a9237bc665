//! The random source.

use vstd::prelude::*;

verus! {

/// The random number generator that every randomised operation draws from.
#[verifier::external_type_specification]
#[verifier::external_body]
pub struct ExStdRng(rand::rngs::StdRng);

/// Draws a number from `low..high` with `rand::Rng::gen_range`.
///
/// The range must not be empty, as `gen_range` panics on an empty one; all
/// that is claimed of the number is that it lies in the range.
#[verifier::external_body]
pub(crate) fn draw(rng: &mut rand::rngs::StdRng, low: i64, high: i64) -> (r: i64)
    requires
        low < high,
    ensures
        low <= r < high,
{
    rand::Rng::gen_range(rng, low..high)
}

} // verus!
