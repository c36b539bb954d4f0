//! From the accumulation buffer to the bytes of a display frame.
//!
//! A frame is row-major with the top row first, four bytes to a pixel: red,
//! green, blue, and an alpha that is always opaque. The buffer counts its
//! rows from the bottom, so the frame turns it upside down.

use vstd::prelude::*;
use vstd::arithmetic::div_mod::{
    lemma_fundamental_div_mod_converse_div,
    lemma_fundamental_div_mod_converse_mod,
};
use crate::color::Color;
use crate::fixed::ONE;
use crate::pixels::Pixels;

verus! {

/// The byte of a channel: the channel held to [0, 1], times 255, rounded to
/// the nearest whole number (a half goes up).
pub open spec fn quantize_spec(channel: u64) -> u8 {
    let held: int = if channel > ONE {
        ONE as int
    } else {
        channel as int
    };
    ((held * 255 + ONE / 2) / (ONE as int)) as u8
}

/// The four bytes of a colour.
pub open spec fn rgba(color: Color) -> Seq<u8> {
    seq![quantize_spec(color.r), quantize_spec(color.g), quantize_spec(color.b), 255u8]
}

/// Computes the byte of a channel.
pub fn quantize(channel: u64) -> (q: u8)
    ensures
        q == quantize_spec(channel),
{
    let held: u64 = if channel > ONE {
        ONE
    } else {
        channel
    };
    ((held * 255 + ONE / 2) / ONE) as u8
}

impl Pixels {
    /// The colour shown in column `x` of the frame's row `row`, rows counted
    /// from the top: the average of the buffer's pixel in the mirrored row.
    pub open spec fn shown_at(&self, x: int, row: int) -> Color {
        self.tally_at(x, self.spec_height() - 1 - row).average()
    }

    /// The byte at place `k` of the frame: pixel `k / 4` in row-major order,
    /// channel `k % 4`.
    #[verifier::opaque]
    pub open spec fn frame_byte(&self, k: int) -> u8 {
        rgba(
            self.shown_at((k / 4) % (self.spec_width() as int), (k / 4) / (self.spec_width() as int)),
        )[k % 4]
    }

    /// The frame of the buffer.
    pub open spec fn display_bytes(&self) -> Seq<u8> {
        Seq::new((4 * self.tallies().len()) as nat, |k: int| self.frame_byte(k))
    }

    /// Where the four bytes of column `x` in row `row` begin.
    pub open spec fn frame_offset(&self, x: int, row: int) -> int {
        4 * (row * self.spec_width() + x)
    }

    /// The frame holds, for each pixel, the four bytes of the colour shown
    /// there.
    pub proof fn lemma_frame_pixel(&self, x: int, row: int)
        requires
            self.wf(),
            0 <= x < self.spec_width(),
            0 <= row < self.spec_height(),
        ensures
            self.display_bytes().len() == 4 * self.spec_width() * self.spec_height(),
            0 <= self.frame_offset(x, row),
            self.frame_offset(x, row) + 4 <= self.display_bytes().len(),
            self.display_bytes().subrange(self.frame_offset(x, row), self.frame_offset(x, row) + 4)
                == rgba(self.shown_at(x, row)),
    {
        let w = self.spec_width() as int;
        let h = self.spec_height() as int;
        self.lemma_index_in_range(x, row);
        let p = row * w + x;
        assert(0 <= p < w * h);
        assert(4 * w * h == 4 * (w * h)) by (nonlinear_arith);
        lemma_fundamental_div_mod_converse_div(p, w, row, x);
        lemma_fundamental_div_mod_converse_mod(p, w, row, x);
        assert(p / w == row && p % w == x);
        let shown = rgba(self.shown_at(x, row));
        let part = self.display_bytes().subrange(4 * p, 4 * p + 4);
        assert forall|c: int| 0 <= c < 4 implies part[c] == shown[c] by {
            let k = 4 * p + c;
            assert(k / 4 == p && k % 4 == c);
            reveal(Pixels::frame_byte);
            assert(self.frame_byte(k) == shown[c]);
        }
        assert(part =~= shown);
    }

    /// The frame is made of the tallies alone: buffers of one size that hold
    /// the same tallies show the same frame, byte for byte.
    pub proof fn lemma_same_tallies_same_frame(&self, other: &Pixels)
        requires
            self.spec_width() == other.spec_width(),
            self.spec_height() == other.spec_height(),
            self.tallies() == other.tallies(),
        ensures
            self.display_bytes() == other.display_bytes(),
    {
        reveal(Pixels::frame_byte);
        assert(self.display_bytes() =~= other.display_bytes());
    }

    /// Writes the frame.
    pub fn to_display_bytes(&self) -> (bytes: Vec<u8>)
        requires
            self.wf(),
            4 * self.spec_width() * self.spec_height() <= usize::MAX,
        ensures
            bytes@ == self.display_bytes(),
            bytes@.len() == 4 * self.spec_width() * self.spec_height(),
    {
        let width: u32 = self.width();
        let height: u32 = self.height();
        let mut bytes: Vec<u8> = Vec::new();
        let mut row: u32 = 0;
        while row < height
            invariant
                self.wf(),
                width == self.spec_width(),
                height == self.spec_height(),
                row <= height,
                bytes@.len() == 4 * (row * width),
                forall|k: int| 0 <= k < bytes@.len() ==> #[trigger] bytes@[k] == self.display_bytes()[k],
            decreases height - row,
        {
            let mut x: u32 = 0;
            while x < width
                invariant
                    self.wf(),
                    width == self.spec_width(),
                    height == self.spec_height(),
                    row < height,
                    x <= width,
                    bytes@.len() == 4 * (row * width + x),
                    forall|k: int|
                        0 <= k < bytes@.len() ==> #[trigger] bytes@[k] == self.display_bytes()[k],
                decreases width - x,
            {
                let color = self.average_at(x, height - 1 - row);
                proof {
                    self.lemma_frame_pixel(x as int, row as int);
                }
                let ghost start = bytes@.len() as int;
                let ghost part = self.display_bytes().subrange(start, start + 4);
                bytes.push(quantize(color.r));
                bytes.push(quantize(color.g));
                bytes.push(quantize(color.b));
                bytes.push(255);
                assert forall|k: int| 0 <= k < bytes@.len() implies #[trigger] bytes@[k]
                    == self.display_bytes()[k] by {
                    if k >= start {
                        assert(part[k - start] == self.display_bytes()[k]);
                    }
                }
                x = x + 1;
            }
            assert(row * width + width == (row + 1) * width) by (nonlinear_arith);
            row = row + 1;
        }
        proof {
            self.lemma_dimensions();
            assert(row * width == width * height && 4 * width * height == 4 * (width * height))
                by (nonlinear_arith)
                requires
                    row == height,
            ;
        }
        assert(bytes@ =~= self.display_bytes());
        bytes
    }
}

} // verus!
