use vstd::prelude::*;

use bracket_random::prelude::RandomNumberGenerator;

verus! {

/// The host's seedable uniform random source. Declared so that values of it
/// can flow through the generator and the movement systems; nothing about
/// the numbers it yields is assumed beyond the range stated at each call.
#[verifier::external_type_specification]
#[verifier::external_body]
pub struct ExRandomNumberGenerator(RandomNumberGenerator);

/// Relies on `RandomNumberGenerator::range`: a uniform draw that is inclusive
/// of `min` and exclusive of `max` (it panics on an empty range, so one is
/// ruled out here). Which value comes back is not assumed.
#[verifier::external_body]
pub fn rng_range(rng: &mut RandomNumberGenerator, min: i32, max: i32) -> (r: i32)
    requires
        min < max,
    ensures
        min <= r < max,
{
    rng.range(min, max)
}

} // verus!
