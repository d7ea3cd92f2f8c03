//! The source of randomness for seeding.
use rand::Rng;
use vstd::prelude::*;

verus! {

/// One draw from the thread-local generator of the `rand` crate:
/// `rand::thread_rng().gen_range(0..=upper)`.
///
/// Trusted, not proved: the draw is a number from zero to `upper`, both
/// included. Which one is left open, so two draws may differ. The range is
/// never empty, which is the one thing `gen_range` asks for.
#[verifier::external_body]
pub(crate) fn draw_up_to(upper: u32) -> (draw: u32)
    ensures
        draw <= upper,
{
    rand::thread_rng().gen_range(0..=upper)
}

} // verus!
