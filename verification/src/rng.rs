//! Trusted boundary to the dice-roll random number generator.

use vstd::prelude::*;

verus! {

#[verifier::external_type_specification]
#[verifier::external_body]
pub struct ExRandomNumberGenerator(rltk::RandomNumberGenerator);

/// Relies on rltk::RandomNumberGenerator::new: builds a generator seeded from
/// system entropy; nothing is promised of the values it will yield.
#[verifier::external_body]
pub(crate) fn rng_new() -> rltk::RandomNumberGenerator {
    rltk::RandomNumberGenerator::new()
}

/// Relies on rltk::RandomNumberGenerator::roll_dice with a single die:
/// `roll_dice(1, sides)` draws one value from `[1, sides]` inclusive.
/// The draw is random, so only that range is promised of the result.
#[verifier::external_body]
pub(crate) fn roll_die(rng: &mut rltk::RandomNumberGenerator, sides: i32) -> (r: i32)
    requires
        1 <= sides < i32::MAX,
    ensures
        1 <= r <= sides,
{
    rng.roll_dice(1, sides)
}

} // verus!
