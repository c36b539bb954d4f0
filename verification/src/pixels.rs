//! The accumulation buffer: for every pixel the sum of the colours deposited
//! there and their number, from which the average is read at any time.
//!
//! Pixel (x, y) has x counted from the left and y from the bottom row up.

use vstd::prelude::*;
use crate::color::Color;

verus! {

/// The running sum and the sample count of one pixel.
#[derive(Clone, Copy, Debug, PartialEq, Eq, Structural)]
pub struct Tally {
    pub r: u128,
    pub g: u128,
    pub b: u128,
    pub count: u32,
}

impl Tally {
    /// No sample yet.
    pub open spec fn empty_spec() -> Tally {
        Tally { r: 0, g: 0, b: 0, count: 0 }
    }

    /// No channel sum is beyond what `count` samples can add up to.
    pub open spec fn bounded(self) -> bool {
        &&& self.r <= self.count * u64::MAX
        &&& self.g <= self.count * u64::MAX
        &&& self.b <= self.count * u64::MAX
    }

    /// The tally with one more sample.
    pub open spec fn plus(self, color: Color) -> Tally {
        Tally {
            r: (self.r + color.r) as u128,
            g: (self.g + color.g) as u128,
            b: (self.b + color.b) as u128,
            count: (self.count + 1) as u32,
        }
    }

    /// The average of the samples, each channel rounded down; black where
    /// there is none.
    pub open spec fn average(self) -> Color {
        if self.count > 0 {
            Color {
                r: (self.r / (self.count as u128)) as u64,
                g: (self.g / (self.count as u128)) as u64,
                b: (self.b / (self.count as u128)) as u64,
            }
        } else {
            Color::black_spec()
        }
    }

    #[verifier::when_used_as_spec(empty_spec)]
    pub fn empty() -> (t: Tally)
        ensures
            t == Tally::empty_spec(),
    {
        Tally { r: 0, g: 0, b: 0, count: 0 }
    }

    /// Adds one sample.
    pub fn add(self, color: Color) -> (t: Tally)
        requires
            self.bounded(),
            self.count < u32::MAX,
        ensures
            t == self.plus(color),
            t.bounded(),
            t.r == self.r + color.r,
            t.g == self.g + color.g,
            t.b == self.b + color.b,
            t.count == self.count + 1,
    {
        Tally {
            r: self.r + color.r as u128,
            g: self.g + color.g as u128,
            b: self.b + color.b as u128,
            count: self.count + 1,
        }
    }

    /// Computes the average.
    pub fn mean(&self) -> (c: Color)
        requires
            self.bounded(),
        ensures
            c == self.average(),
    {
        if self.count > 0 {
            let n: u128 = self.count as u128;
            proof {
                lemma_share_fits(self.r as int, self.count as int);
                lemma_share_fits(self.g as int, self.count as int);
                lemma_share_fits(self.b as int, self.count as int);
            }
            Color { r: (self.r / n) as u64, g: (self.g / n) as u64, b: (self.b / n) as u64 }
        } else {
            Color::black()
        }
    }
}

/// The average of `count` values of 64 bits has 64 bits.
proof fn lemma_share_fits(sum: int, count: int)
    requires
        count > 0,
        0 <= sum <= count * u64::MAX,
    ensures
        0 <= sum / count <= u64::MAX,
{
    assert(0 <= sum / count <= u64::MAX) by (nonlinear_arith)
        requires
            count > 0,
            0 <= sum <= count * u64::MAX,
    ;
}

/// The buffer of a `width` by `height` image.
pub struct Pixels {
    width: u32,
    height: u32,
    cells: Vec<Tally>,
}

impl Pixels {
    /// The number of pixels in a row.
    pub closed spec fn spec_width(&self) -> u32 {
        self.width
    }

    /// The number of rows.
    pub closed spec fn spec_height(&self) -> u32 {
        self.height
    }

    /// The tallies of all pixels, row after row from the bottom one, each
    /// row from the left.
    pub closed spec fn tallies(&self) -> Seq<Tally> {
        self.cells@
    }

    /// Where pixel (x, y) stands in `tallies`.
    pub open spec fn index_of(&self, x: int, y: int) -> int {
        y * self.spec_width() + x
    }

    /// The tally of pixel (x, y).
    pub open spec fn tally_at(&self, x: int, y: int) -> Tally {
        self.tallies()[self.index_of(x, y)]
    }

    /// The average of every pixel, in the order of `tallies`.
    pub open spec fn averages(&self) -> Seq<Color> {
        Seq::new(self.tallies().len(), |i: int| self.tallies()[i].average())
    }

    /// The image is not empty, there is one tally for each pixel, and each
    /// is bounded.
    pub closed spec fn wf(&self) -> bool {
        &&& self.width > 0
        &&& self.height > 0
        &&& self.cells@.len() == self.width * self.height
        &&& self.cells@.len() <= usize::MAX
        &&& forall|i: int| 0 <= i < self.cells@.len() ==> (#[trigger] self.cells@[i]).bounded()
    }

    /// A well-formed buffer is not empty and has one tally for each pixel.
    pub proof fn lemma_dimensions(&self)
        requires
            self.wf(),
        ensures
            self.spec_width() > 0,
            self.spec_height() > 0,
            self.tallies().len() == self.spec_width() * self.spec_height(),
    {
    }

    /// In a well-formed buffer every pixel has its place in `tallies`.
    pub proof fn lemma_index_in_range(&self, x: int, y: int)
        requires
            self.wf(),
            0 <= x < self.spec_width(),
            0 <= y < self.spec_height(),
        ensures
            self.tallies().len() == self.spec_width() * self.spec_height(),
            0 <= self.index_of(x, y) < self.tallies().len(),
    {
        lemma_index_bound(x, y, self.width as int, self.height as int);
    }

    /// An empty buffer for an image of the given size.
    pub fn new(width: u32, height: u32) -> (p: Pixels)
        requires
            width > 0,
            height > 0,
            width * height <= u32::MAX,
        ensures
            p.wf(),
            p.spec_width() == width,
            p.spec_height() == height,
            p.tallies() == Seq::new((width * height) as nat, |i: int| Tally::empty_spec()),
    {
        assert(width * height >= 0) by (nonlinear_arith)
            requires
                width >= 0,
                height >= 0,
        ;
        let total: usize = ((width as u64) * (height as u64)) as usize;
        let mut cells: Vec<Tally> = Vec::new();
        let mut i: usize = 0;
        while i < total
            invariant
                i <= total,
                cells@.len() == i,
                forall|k: int| 0 <= k < i ==> #[trigger] cells@[k] == Tally::empty_spec(),
            decreases total - i,
        {
            cells.push(Tally::empty());
            i = i + 1;
        }
        assert(cells@ =~= Seq::new((width * height) as nat, |i: int| Tally::empty_spec()));
        Pixels { width, height, cells }
    }

    #[verifier::when_used_as_spec(spec_width)]
    pub fn width(&self) -> (w: u32)
        ensures
            w == self.spec_width(),
    {
        self.width
    }

    #[verifier::when_used_as_spec(spec_height)]
    pub fn height(&self) -> (h: u32)
        ensures
            h == self.spec_height(),
    {
        self.height
    }

    /// The place of pixel (x, y) in the buffer.
    fn place(&self, x: u32, y: u32) -> (i: usize)
        requires
            self.wf(),
            x < self.width,
            y < self.height,
        ensures
            i == self.index_of(x as int, y as int),
            i < self.cells@.len(),
    {
        proof {
            lemma_index_bound(x as int, y as int, self.width as int, self.height as int);
            assert(0 <= y * self.width <= 0xffff_ffff * 0xffff_ffff) by (nonlinear_arith)
                requires
                    0 <= y <= 0xffff_ffff,
                    0 <= self.width <= 0xffff_ffff,
            ;
        }
        let wide: u64 = (y as u64) * (self.width as u64) + (x as u64);
        assert(wide < self.cells@.len() <= usize::MAX);
        wide as usize
    }

    /// How many samples pixel (x, y) has.
    pub fn count_at(&self, x: u32, y: u32) -> (n: u32)
        requires
            self.wf(),
            x < self.spec_width(),
            y < self.spec_height(),
        ensures
            n == self.tally_at(x as int, y as int).count,
    {
        let i: usize = self.place(x, y);
        self.cells[i].count
    }

    /// Deposits one sample at pixel (x, y): its colour joins the sum and the
    /// count goes up by one. No other pixel changes.
    pub fn add_color(&mut self, x: u32, y: u32, color: Color)
        requires
            old(self).wf(),
            x < old(self).spec_width(),
            y < old(self).spec_height(),
            old(self).tally_at(x as int, y as int).count < u32::MAX,
        ensures
            final(self).wf(),
            final(self).spec_width() == old(self).spec_width(),
            final(self).spec_height() == old(self).spec_height(),
            final(self).tallies() == old(self).tallies().update(
                old(self).index_of(x as int, y as int),
                old(self).tally_at(x as int, y as int).plus(color),
            ),
    {
        let i: usize = self.place(x, y);
        let tally = self.cells[i].add(color);
        self.cells.set(i, tally);
    }

    /// The average colour of pixel (x, y); black while it has no sample.
    pub fn average_at(&self, x: u32, y: u32) -> (c: Color)
        requires
            self.wf(),
            x < self.spec_width(),
            y < self.spec_height(),
        ensures
            c == self.tally_at(x as int, y as int).average(),
    {
        let i: usize = self.place(x, y);
        self.cells[i].mean()
    }

    /// The average colour of every pixel, in the order of `tallies`. The
    /// buffer is left as it is.
    pub fn snapshot(&self) -> (image: Vec<Color>)
        requires
            self.wf(),
        ensures
            image@ == self.averages(),
            image@.len() == self.spec_width() * self.spec_height(),
    {
        let mut image: Vec<Color> = Vec::new();
        let mut i: usize = 0;
        while i < self.cells.len()
            invariant
                self.wf(),
                i <= self.cells@.len(),
                image@.len() == i,
                forall|k: int| 0 <= k < i ==> #[trigger] image@[k] == self.cells@[k].average(),
            decreases self.cells@.len() - i,
        {
            image.push(self.cells[i].mean());
            i = i + 1;
        }
        assert(image@ =~= self.averages());
        image
    }
}

/// Rows of `width` pixels, `height` of them: pixel (x, y) has its own place
/// below `width * height`.
pub proof fn lemma_index_bound(x: int, y: int, width: int, height: int)
    requires
        0 <= x < width,
        0 <= y < height,
    ensures
        0 <= y * width + x < width * height,
        width * height >= 1,
{
    assert(y * width + x < width * height && y * width >= 0 && width * height >= 1)
        by (nonlinear_arith)
        requires
            0 <= x < width,
            0 <= y < height,
    ;
}

/// The tally of a pixel on which the samples `colors` were deposited in
/// turn, none before them.
pub open spec fn tally_of(colors: Seq<Color>) -> Tally
    decreases colors.len(),
{
    if colors.len() == 0 {
        Tally::empty_spec()
    } else {
        tally_of(colors.drop_last()).plus(colors.last())
    }
}

/// The sum of the red channels.
pub open spec fn total_red(colors: Seq<Color>) -> int
    decreases colors.len(),
{
    if colors.len() == 0 {
        0
    } else {
        total_red(colors.drop_last()) + colors.last().r
    }
}

/// The sum of the green channels.
pub open spec fn total_green(colors: Seq<Color>) -> int
    decreases colors.len(),
{
    if colors.len() == 0 {
        0
    } else {
        total_green(colors.drop_last()) + colors.last().g
    }
}

/// The sum of the blue channels.
pub open spec fn total_blue(colors: Seq<Color>) -> int
    decreases colors.len(),
{
    if colors.len() == 0 {
        0
    } else {
        total_blue(colors.drop_last()) + colors.last().b
    }
}

/// The tallies after the samples `colors` were deposited in turn on the
/// pixel at `index`.
pub open spec fn deposit_all(tallies: Seq<Tally>, index: int, colors: Seq<Color>) -> Seq<Tally>
    decreases colors.len(),
{
    if colors.len() == 0 {
        tallies
    } else {
        let before = deposit_all(tallies, index, colors.drop_last());
        before.update(index, before[index].plus(colors.last()))
    }
}

/// A tally holds the exact sums of its samples and their number.
pub proof fn lemma_tally_sums(colors: Seq<Color>)
    requires
        colors.len() <= u32::MAX,
    ensures
        tally_of(colors).count == colors.len(),
        tally_of(colors).r == total_red(colors),
        tally_of(colors).g == total_green(colors),
        tally_of(colors).b == total_blue(colors),
        tally_of(colors).bounded(),
    decreases colors.len(),
{
    if colors.len() > 0 {
        lemma_tally_sums(colors.drop_last());
    }
}

/// After n deposits on a pixel that had none, the pixel reads as the sum of
/// the n colours divided by n, channel by channel: the average, not the
/// colour deposited last. No other pixel has changed.
pub proof fn lemma_deposits_average(tallies: Seq<Tally>, index: int, colors: Seq<Color>)
    requires
        0 <= index < tallies.len(),
        tallies[index] == Tally::empty_spec(),
        0 < colors.len() <= u32::MAX,
    ensures
        deposit_all(tallies, index, colors).len() == tallies.len(),
        deposit_all(tallies, index, colors)[index] == tally_of(colors),
        deposit_all(tallies, index, colors)[index].average() == (Color {
            r: (total_red(colors) / (colors.len() as int)) as u64,
            g: (total_green(colors) / (colors.len() as int)) as u64,
            b: (total_blue(colors) / (colors.len() as int)) as u64,
        }),
        forall|j: int|
            0 <= j < tallies.len() && j != index ==> #[trigger] deposit_all(tallies, index, colors)[j]
                == tallies[j],
{
    lemma_deposits_tally(tallies, index, colors);
    lemma_tally_sums(colors);
}

/// Deposits on one pixel add up to the tally of their colours there and
/// leave the others alone.
proof fn lemma_deposits_tally(tallies: Seq<Tally>, index: int, colors: Seq<Color>)
    requires
        0 <= index < tallies.len(),
        tallies[index] == Tally::empty_spec(),
    ensures
        deposit_all(tallies, index, colors).len() == tallies.len(),
        deposit_all(tallies, index, colors)[index] == tally_of(colors),
        forall|j: int|
            0 <= j < tallies.len() && j != index ==> #[trigger] deposit_all(tallies, index, colors)[j]
                == tallies[j],
    decreases colors.len(),
{
    if colors.len() > 0 {
        lemma_deposits_tally(tallies, index, colors.drop_last());
    }
}

/// Reading leaves the buffer as it is: two snapshots with no deposit
/// between them are equal.
pub proof fn lemma_reads_repeat(buffer: Pixels, first: Seq<Color>, second: Seq<Color>)
    requires
        first == buffer.averages(),
        second == buffer.averages(),
    ensures
        first == second,
{
}

} // verus!
