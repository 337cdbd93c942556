//! Trusted boundary to the random source used by the map generator.
//!
//! The generator needs uniformly distributed integers in a closed-open
//! range; these come from `bracket_lib`'s `RandomNumberGenerator`. Nothing
//! can be promised about which value comes back, so the contracts state
//! only what holds of every outcome.

use vstd::prelude::*;

verus! {

#[verifier::external_type_specification]
#[verifier::external_body]
pub struct ExRandomNumberGenerator(bracket_lib::prelude::RandomNumberGenerator);

/// Relies on `RandomNumberGenerator::new`: builds a freshly seeded random
/// source. Nothing is known about the seed, so nothing is promised.
#[verifier::external_body]
pub(crate) fn rng_new() -> bracket_lib::prelude::RandomNumberGenerator {
    bracket_lib::prelude::RandomNumberGenerator::new()
}

/// Relies on `RandomNumberGenerator::range`, which draws uniformly from
/// `min..max` (closed-open) and panics when the range is empty; the
/// precondition keeps the range non-empty.
#[verifier::external_body]
pub(crate) fn rng_range(
    rng: &mut bracket_lib::prelude::RandomNumberGenerator,
    min: i32,
    max: i32,
) -> (r: i32)
    requires
        min < max,
    ensures
        min <= r < max,
{
    rng.range(min, max)
}

} // verus!
