//! The mathematical model of an image: pixels of four byte channels, and a
//! grid of them in row-major order.

use vstd::prelude::*;

verus! {

/// One pixel. In memory its channels lie in the order blue, green, red, alpha.
#[derive(Clone, Copy, Debug, PartialEq, Eq, Structural)]
pub struct Pixel {
    pub blue: u8,
    pub green: u8,
    pub red: u8,
    pub alpha: u8,
}

impl Pixel {
    /// All three colour channels lie at or below the black point.
    pub open spec fn is_dark(self, black_point: u8) -> bool {
        self.blue <= black_point && self.green <= black_point && self.red <= black_point
    }

    /// The colour channels are exactly zero.
    pub open spec fn is_black(self) -> bool {
        self.blue == 0 && self.green == 0 && self.red == 0
    }

    /// The same pixel with its colour set to black and its alpha kept.
    pub open spec fn blackened(self) -> Pixel {
        Pixel { blue: 0, green: 0, red: 0, alpha: self.alpha }
    }

    /// What the thresholding pass makes of this pixel.
    pub open spec fn thresholded(self, black_point: u8) -> Pixel {
        if self.is_dark(black_point) {
            self.blackened()
        } else {
            self
        }
    }

    /// The channel at offset `c` of the blue, green, red, alpha layout.
    pub open spec fn bgra_channel(self, c: int) -> u8 {
        if c == 0 {
            self.blue
        } else if c == 1 {
            self.green
        } else if c == 2 {
            self.red
        } else {
            self.alpha
        }
    }

    /// The channel at offset `c` of the red, green, blue, alpha layout.
    pub open spec fn rgba_channel(self, c: int) -> u8 {
        if c == 0 {
            self.red
        } else if c == 1 {
            self.green
        } else if c == 2 {
            self.blue
        } else {
            self.alpha
        }
    }
}

/// The pixels that a dense blue, green, red, alpha byte sequence holds. Bytes
/// past the last whole pixel are left out.
pub open spec fn pixels_of(bytes: Seq<u8>) -> Seq<Pixel> {
    Seq::new(
        (bytes.len() / 4) as nat,
        |i: int|
            Pixel {
                blue: bytes[4 * i],
                green: bytes[4 * i + 1],
                red: bytes[4 * i + 2],
                alpha: bytes[4 * i + 3],
            },
    )
}

/// The dense byte sequence of `pixels` in blue, green, red, alpha order.
pub open spec fn bgra_bytes(pixels: Seq<Pixel>) -> Seq<u8> {
    Seq::new(4 * pixels.len(), |i: int| pixels[i / 4].bgra_channel(i % 4))
}

/// The dense byte sequence of `pixels` in red, green, blue, alpha order.
pub open spec fn rgba_bytes(pixels: Seq<Pixel>) -> Seq<u8> {
    Seq::new(4 * pixels.len(), |i: int| pixels[i / 4].rgba_channel(i % 4))
}

/// The predicate "is dark at `black_point`" as a value.
pub open spec fn dark_at(black_point: u8) -> spec_fn(Pixel) -> bool {
    |p: Pixel| p.is_dark(black_point)
}

/// How many of `pixels` are dark at `black_point`.
pub open spec fn dark_count(pixels: Seq<Pixel>, black_point: u8) -> nat {
    pixels.filter(dark_at(black_point)).len()
}

/// `black_count * 100 / total_count`, rounded down.
pub open spec fn percentage(black_count: nat, total_count: nat) -> nat {
    (black_count * 100 / total_count) as nat
}

/// The view of a pixel buffer: its dimensions and its pixels, row by row.
pub struct PixelGrid {
    pub width: nat,
    pub height: nat,
    pub pixels: Seq<Pixel>,
}

impl PixelGrid {
    /// There is exactly one pixel for each position.
    pub open spec fn wf(self) -> bool {
        self.pixels.len() == self.width * self.height
    }

    /// The grid holds at least one pixel.
    pub open spec fn non_empty(self) -> bool {
        self.width >= 1 && self.height >= 1
    }

    /// The grid after the thresholding pass: dark pixels blackened, all
    /// others as they were.
    pub open spec fn thresholded(self, black_point: u8) -> PixelGrid {
        PixelGrid {
            width: self.width,
            height: self.height,
            pixels: self.pixels.map_values(|p: Pixel| p.thresholded(black_point)),
        }
    }

    /// How many pixels of the grid are dark at `black_point`.
    pub open spec fn dark_count(self, black_point: u8) -> nat {
        dark_count(self.pixels, black_point)
    }

    /// The share of dark pixels, in whole percent.
    pub open spec fn dark_percentage(self, black_point: u8) -> nat {
        percentage(self.dark_count(black_point), self.pixels.len())
    }

    /// The bytes of the grid in blue, green, red, alpha order.
    pub open spec fn bytes(self) -> Seq<u8> {
        bgra_bytes(self.pixels)
    }

    /// The bytes of the grid in red, green, blue, alpha order.
    pub open spec fn rgba_bytes(self) -> Seq<u8> {
        rgba_bytes(self.pixels)
    }
}

/// Writing the pixels of a byte sequence of whole pixels gives it back.
pub proof fn lemma_bgra_bytes_of_pixels(bytes: Seq<u8>)
    requires
        bytes.len() % 4 == 0,
    ensures
        bgra_bytes(pixels_of(bytes)) == bytes,
{
    assert forall|i: int| 0 <= i < bytes.len() implies bgra_bytes(pixels_of(bytes))[i]
        == bytes[i] by {
        let p: int = i / 4;
        assert(i == 4 * p + i % 4);
    }
    assert(bgra_bytes(pixels_of(bytes)) =~= bytes);
}

/// Counting the dark pixels among the first `i + 1` adds one to the count
/// among the first `i` exactly when pixel `i` is dark.
pub proof fn lemma_dark_count_step(pixels: Seq<Pixel>, black_point: u8, i: int)
    requires
        0 <= i < pixels.len(),
    ensures
        dark_count(pixels.take(i + 1), black_point) == dark_count(pixels.take(i), black_point) + (
        if pixels[i].is_dark(black_point) {
            1nat
        } else {
            0nat
        }),
{
    reveal(Seq::filter);
    let front = pixels.take(i + 1);
    assert(front.drop_last() =~= pixels.take(i));
    assert(front.last() == pixels[i]);
}

/// No more pixels are dark than there are pixels.
pub proof fn lemma_dark_count_bound(pixels: Seq<Pixel>, black_point: u8)
    ensures
        dark_count(pixels, black_point) <= pixels.len(),
{
    pixels.lemma_filter_len(dark_at(black_point));
}

/// Where every pixel is dark, the count is the number of pixels.
pub proof fn lemma_dark_count_all(pixels: Seq<Pixel>, black_point: u8)
    requires
        forall|i: int| 0 <= i < pixels.len() ==> (#[trigger] pixels[i]).is_dark(black_point),
    ensures
        dark_count(pixels, black_point) == pixels.len(),
    decreases pixels.len(),
{
    reveal(Seq::filter);
    if pixels.len() > 0 {
        lemma_dark_count_all(pixels.drop_last(), black_point);
    }
}

/// Where no pixel is dark, the count is zero.
pub proof fn lemma_dark_count_none(pixels: Seq<Pixel>, black_point: u8)
    requires
        forall|i: int| 0 <= i < pixels.len() ==> !(#[trigger] pixels[i]).is_dark(black_point),
    ensures
        dark_count(pixels, black_point) == 0,
    decreases pixels.len(),
{
    reveal(Seq::filter);
    if pixels.len() > 0 {
        lemma_dark_count_none(pixels.drop_last(), black_point);
    }
}

/// The thresholding pass treats each pixel by itself: a dark pixel comes out
/// black with its alpha kept, any other pixel comes out as it went in.
pub proof fn lemma_thresholded_pixelwise(grid: PixelGrid, black_point: u8, i: int)
    requires
        0 <= i < grid.pixels.len(),
    ensures
        grid.thresholded(black_point).pixels.len() == grid.pixels.len(),
        grid.pixels[i].is_dark(black_point) ==> {
            &&& grid.thresholded(black_point).pixels[i].is_black()
            &&& grid.thresholded(black_point).pixels[i].alpha == grid.pixels[i].alpha
        },
        !grid.pixels[i].is_dark(black_point) ==> grid.thresholded(black_point).pixels[i]
            == grid.pixels[i],
{
}

/// Thresholding twice at one black point changes nothing that thresholding
/// once has not changed.
pub proof fn lemma_threshold_idempotent(grid: PixelGrid, black_point: u8)
    ensures
        grid.thresholded(black_point).thresholded(black_point) == grid.thresholded(black_point),
{
    assert(grid.thresholded(black_point).thresholded(black_point).pixels =~= grid.thresholded(
        black_point,
    ).pixels);
}

/// The pass leaves as many dark pixels as it found: a second pass counts
/// what the first one counted.
pub proof fn lemma_threshold_keeps_dark_count(grid: PixelGrid, black_point: u8)
    ensures
        grid.thresholded(black_point).dark_count(black_point) == grid.dark_count(black_point),
    decreases grid.pixels.len(),
{
    reveal(Seq::filter);
    let after = grid.thresholded(black_point);
    if grid.pixels.len() > 0 {
        let rest = PixelGrid {
            width: grid.width,
            height: grid.height,
            pixels: grid.pixels.drop_last(),
        };
        lemma_threshold_keeps_dark_count(rest, black_point);
        assert(rest.thresholded(black_point).pixels =~= after.pixels.drop_last());
        assert(after.pixels.last().is_dark(black_point) == grid.pixels.last().is_dark(
            black_point,
        ));
    } else {
        assert(after.pixels =~= grid.pixels);
    }
}

/// A part of a whole that is not empty is between 0 and 100 percent of it.
pub proof fn lemma_share_bound(black_count: nat, total_count: nat)
    requires
        total_count > 0,
        black_count <= total_count,
    ensures
        0 <= percentage(black_count, total_count) <= 100,
{
    let part: int = black_count as int;
    let whole: int = total_count as int;
    assert(0 <= (part * 100) / whole <= 100) by (nonlinear_arith)
        requires
            0 <= part <= whole,
            whole > 0,
    ;
}

/// The share of dark pixels of a sequence that is not empty lies between 0
/// and 100.
pub proof fn lemma_percentage_bound(pixels: Seq<Pixel>, black_point: u8)
    requires
        pixels.len() > 0,
    ensures
        0 <= percentage(dark_count(pixels, black_point), pixels.len()) <= 100,
{
    lemma_dark_count_bound(pixels, black_point);
    lemma_share_bound(dark_count(pixels, black_point), pixels.len());
}

/// At the black point 255 every pixel is dark: the share is 100 percent.
pub proof fn lemma_percentage_at_max(pixels: Seq<Pixel>)
    requires
        pixels.len() > 0,
    ensures
        dark_count(pixels, 255) == pixels.len(),
        percentage(dark_count(pixels, 255), pixels.len()) == 100,
{
    lemma_dark_count_all(pixels, 255);
    let total: int = pixels.len() as int;
    assert((total * 100) / total == 100) by (nonlinear_arith)
        requires
            total > 0,
    ;
}

/// At the black point 0 only pure black pixels are dark: where there is
/// none, the share is 0 percent.
pub proof fn lemma_percentage_at_zero(pixels: Seq<Pixel>)
    requires
        pixels.len() > 0,
        forall|i: int| 0 <= i < pixels.len() ==> !(#[trigger] pixels[i]).is_black(),
    ensures
        dark_count(pixels, 0) == 0,
        percentage(dark_count(pixels, 0), pixels.len()) == 0,
{
    lemma_dark_count_none(pixels, 0);
    let total: int = pixels.len() as int;
    assert((0int * 100) / total == 0) by (nonlinear_arith)
        requires
            total > 0,
    ;
}

} // verus!
