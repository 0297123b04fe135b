//! Twenty-four bit colors.

use rand::Rng;
use vstd::prelude::*;

verus! {

/// A color as red, green and blue intensities.
#[derive(Copy, Clone, Debug, PartialEq, Eq, Structural)]
pub struct RGB {
    pub r: u8,
    pub g: u8,
    pub b: u8,
}

/// Draws one byte from the thread-local generator with `rand::Rng::gen_range`.
/// The generator promises a value in the half-open range `[low, high)` and
/// nothing more; it panics on an empty range, which the precondition excludes.
#[verifier::external_body]
pub(crate) fn random_in_range(low: u8, high: u8) -> (x: u8)
    requires
        low < high,
    ensures
        low <= x < high,
{
    rand::thread_rng().gen_range(low, high)
}

impl RGB {
    /// A color whose three channels are drawn independently from `[0, 255)`.
    /// Whatever the generator yields, no channel is ever fully saturated.
    pub fn new_random() -> (c: RGB)
        ensures
            c.r < 255,
            c.g < 255,
            c.b < 255,
    {
        RGB { r: random_in_range(0, 255), g: random_in_range(0, 255), b: random_in_range(0, 255) }
    }
}

} // verus!
