use vstd::prelude::*;

use rand::rngs::StdRng;

verus! {

/// rand's `StdRng` (rand 0.7), carried opaquely through the functions that draw
/// random values.
#[verifier::external_type_specification]
#[verifier::external_body]
pub struct ExStdRng(StdRng);

/// Relies on rand::Rng::gen_range (rand 0.7): a value drawn from `low..high`,
/// inclusive of `low` and exclusive of `high`; it panics when `low >= high`.
#[verifier::external_body]
pub(crate) fn random_in_range(rng: &mut StdRng, low: i32, high: i32) -> (r: i32)
    requires
        low < high,
    ensures
        low <= r < high,
{
    rand::Rng::gen_range(rng, low, high)
}

} // verus!
