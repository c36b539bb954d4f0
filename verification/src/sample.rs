//! Which point of the image plane the next sample goes through.

use vstd::prelude::*;
use rand::rngs::StdRng;
use crate::fixed::ONE;
use crate::random::{below, draw_unit};

verus! {

/// How many samples one render tick draws, unless the caller says otherwise.
pub const DEFAULT_BATCH: u32 = 10000;

/// A sample: the pixel it falls in, and where inside that pixel, each offset
/// a fixed-point number in [0, 1).
#[derive(Clone, Copy, Debug, PartialEq, Eq, Structural)]
pub struct Sample {
    pub x: u32,
    pub y: u32,
    pub dx: u64,
    pub dy: u64,
}

/// The position `pixel + offset` as a share of `extent`, rounded down: the
/// image-plane coordinate, in [0, 1), of a point of that pixel.
pub open spec fn normalised_spec(pixel: u32, offset: u64, extent: u32) -> u64 {
    ((pixel * ONE + offset) / (extent as int)) as u64
}

/// Computes the image-plane coordinate of a point of a pixel.
pub fn normalised(pixel: u32, offset: u64, extent: u32) -> (r: u64)
    requires
        pixel < extent,
        offset < ONE,
    ensures
        r == normalised_spec(pixel, offset, extent),
        r < ONE,
        pixel * ONE <= r * extent + (extent - 1),
        r * extent <= pixel * ONE + offset,
{
    let one: u64 = 4294967296;
    let place: u64 = (pixel as u64) * one + offset;
    let r: u64 = place / (extent as u64);
    proof {
        lemma_share(place as int, extent as int);
    }
    r
}

/// Division rounds down by less than one divisor.
proof fn lemma_share(place: int, extent: int)
    requires
        0 <= place < extent * ONE,
        extent > 0,
    ensures
        0 <= place / extent < ONE,
        (place / extent) * extent <= place,
        place <= (place / extent) * extent + (extent - 1),
{
    let q = place / extent;
    assert(q * extent <= place && place <= q * extent + (extent - 1) && 0 <= q) by (nonlinear_arith)
        requires
            0 <= place,
            extent > 0,
            q == place / extent,
    ;
    assert(q < ONE) by (nonlinear_arith)
        requires
            q * extent <= place,
            place < extent * ONE,
            extent > 0,
    ;
}

impl Sample {
    /// The horizontal image-plane coordinate in an image `width` pixels wide.
    pub fn u(&self, width: u32) -> (r: u64)
        requires
            self.x < width,
            self.dx < ONE,
        ensures
            r == normalised_spec(self.x, self.dx, width),
            r < ONE,
    {
        normalised(self.x, self.dx, width)
    }

    /// The vertical image-plane coordinate in an image `height` pixels high.
    pub fn v(&self, height: u32) -> (r: u64)
        requires
            self.y < height,
            self.dy < ONE,
        ensures
            r == normalised_spec(self.y, self.dy, height),
            r < ONE,
    {
        normalised(self.y, self.dy, height)
    }
}

/// Draws the next sample of a `width` by `height` image: the column, the
/// row, then the two offsets inside the pixel.
pub fn draw_sample(rng: &mut StdRng, width: u32, height: u32) -> (s: Sample)
    requires
        width > 0,
        height > 0,
    ensures
        s.x < width,
        s.y < height,
        s.dx < ONE,
        s.dy < ONE,
{
    let x: u64 = below(rng, width as u64);
    let y: u64 = below(rng, height as u64);
    let dx: u64 = draw_unit(rng);
    let dy: u64 = draw_unit(rng);
    Sample { x: x as u32, y: y as u32, dx, dy }
}

} // verus!
