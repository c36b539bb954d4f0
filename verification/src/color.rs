//! Colours as three non-negative fixed-point channels.

use vstd::prelude::*;
use crate::fixed::{times, times_spec, ONE};

verus! {

/// A colour; each channel is a fixed-point number, 1.0 being full intensity.
#[derive(Clone, Copy, Debug, PartialEq, Eq, Structural)]
pub struct Color {
    pub r: u64,
    pub g: u64,
    pub b: u64,
}

impl Color {
    /// No light at all.
    pub open spec fn black_spec() -> Color {
        Color { r: 0, g: 0, b: 0 }
    }

    /// Full intensity in every channel.
    pub open spec fn white_spec() -> Color {
        Color { r: ONE, g: ONE, b: ONE }
    }

    /// The channel-wise product of two colours.
    pub open spec fn attenuate_spec(self, by: Color) -> Color {
        Color { r: times_spec(self.r, by.r), g: times_spec(self.g, by.g), b: times_spec(self.b, by.b) }
    }

    pub fn new(r: u64, g: u64, b: u64) -> (c: Color)
        ensures
            c == (Color { r, g, b }),
    {
        Color { r, g, b }
    }

    #[verifier::when_used_as_spec(black_spec)]
    pub fn black() -> (c: Color)
        ensures
            c == Color::black_spec(),
    {
        Color { r: 0, g: 0, b: 0 }
    }

    #[verifier::when_used_as_spec(white_spec)]
    pub fn white() -> (c: Color)
        ensures
            c == Color::white_spec(),
    {
        Color { r: ONE, g: ONE, b: ONE }
    }

    /// Multiplies this colour, channel by channel, by `by`.
    #[verifier::when_used_as_spec(attenuate_spec)]
    pub fn attenuate(self, by: Color) -> (c: Color)
        ensures
            c == self.attenuate_spec(by),
    {
        Color { r: times(self.r, by.r), g: times(self.g, by.g), b: times(self.b, by.b) }
    }
}

} // verus!
