use vstd::prelude::*;
use rand::Rng;

verus! {

/// Relies on `rand::rng` and `Rng::random_range`: a value drawn from the thread-local
/// generator within the inclusive range `min..=max`; `random_range` panics on an empty range.
#[verifier::external_body]
pub fn get_random_range_u32(min: u32, max: u32) -> (r: u32)
    requires
        min <= max,
    ensures
        min <= r <= max,
{
    let mut rng = rand::rng();
    rng.random_range(min..=max)
}

} // verus!
