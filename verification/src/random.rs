//! The random source that every draw goes through.

use vstd::prelude::*;
use rand::rngs::StdRng;
use rand::Rng;
use crate::color::Color;
use crate::fixed::ONE;

verus! {

/// The generator of the `rand` crate, carried through as an opaque value.
#[verifier::external_type_specification]
#[verifier::external_body]
pub struct ExStdRng(StdRng);

/// Draws an integer below `bound`.
///
/// Calls `Rng::gen_range` of the `rand` crate on the half-open range from
/// zero to `bound`. Trusted: the result lies in that range. `gen_range`
/// panics on an empty range, hence the demand on `bound`.
#[verifier::external_body]
pub(crate) fn below(rng: &mut StdRng, bound: u64) -> (r: u64)
    requires
        bound > 0,
    ensures
        r < bound,
{
    rng.gen_range(0..bound)
}

/// Draws a fixed-point number in [0, 1).
pub fn draw_unit(rng: &mut StdRng) -> (r: u64)
    ensures
        r < ONE,
{
    below(rng, ONE)
}

/// Draws a colour with each channel in [0, 1): red first, then green, then blue.
pub fn draw_color(rng: &mut StdRng) -> (c: Color)
    ensures
        c.r < ONE,
        c.g < ONE,
        c.b < ONE,
{
    let r: u64 = below(rng, ONE);
    let g: u64 = below(rng, ONE);
    let b: u64 = below(rng, ONE);
    Color { r, g, b }
}

} // verus!
