//! Thumbnails: how large one is, and the call that samples it.

use image::{Bgra, DynamicImage, ImageBuffer};
use vstd::prelude::*;
use crate::pixel::{Pixel, PixelGrid};
use crate::pixel_buffer::PixelBuffer;

verus! {

/// The greatest width of a thumbnail.
pub const THUMBNAIL_MAX_WIDTH: u32 = 1024;

/// The least width of a thumbnail.
pub const THUMBNAIL_MIN_WIDTH: u32 = 256;

/// The greatest height of a thumbnail.
pub const THUMBNAIL_MAX_HEIGHT: u32 = 1024;

/// The least height of a thumbnail.
pub const THUMBNAIL_MIN_HEIGHT: u32 = 256;

/// The most source pixels that may go into one pixel of a thumbnail.
///
/// The sampler adds up the samples of one block of source pixels, at most
/// 255 each, in 32 bits, and then half the count for rounding. With up to
/// this many pixels in a block that sum stays below the 32-bit limit.
pub const MAX_BLOCK_PIXELS: u64 = 16_777_216;

/// `x` cut to the range from `min` to `max`; above `max` wins where the
/// range is empty.
pub open spec fn clamped(x: int, min: int, max: int) -> int {
    if x > max {
        max
    } else if x < min {
        min
    } else {
        x
    }
}

/// The width of the thumbnail of an image `width` pixels wide: half the
/// width, but no less than 256 and no more than 1024.
pub open spec fn width_bound(width: nat) -> nat {
    clamped(width as int / 2, THUMBNAIL_MIN_WIDTH as int, THUMBNAIL_MAX_WIDTH as int) as nat
}

/// The height of the thumbnail of an image `height` pixels high: half the
/// height, but no less than 256 and no more than 1024.
pub open spec fn height_bound(height: nat) -> nat {
    clamped(height as int / 2, THUMBNAIL_MIN_HEIGHT as int, THUMBNAIL_MAX_HEIGHT as int) as nat
}

/// An upper limit for the side of the block of source pixels that the
/// sampler averages into one pixel of the thumbnail, where `side` source
/// pixels come out as `target`.
///
/// The sampler finds the far edge of a block by adding the ratio of `side`
/// to `target` to the near edge, in single precision, and rounds both edges
/// up to whole pixels. The precision costs less than `side / 2_097_152` in
/// all, so a block is shorter than the ratio, that much, and one for the
/// rounding up; the three cover what the two divisions here round down. A
/// block is never longer than the source.
pub open spec fn block_side(side: nat, target: nat) -> nat {
    let estimate = side / target + side / 2_097_152 + 3;
    if side <= estimate {
        side
    } else {
        estimate
    }
}

/// Whether an image of `width` by `height` pixels can be sampled down or up
/// to `nwidth` by `nheight`: it is not empty, and no block of its pixels is
/// too large to be summed.
pub open spec fn can_sample(width: nat, height: nat, nwidth: nat, nheight: nat) -> bool {
    &&& width >= 1
    &&& height >= 1
    &&& block_side(width, nwidth) * block_side(height, nheight) <= MAX_BLOCK_PIXELS
}

/// Computes the limit [`block_side`] for a source side and its target.
pub fn block_limit(side: u32, target: u32) -> (limit: u64)
    requires
        target >= 1,
    ensures
        limit == block_side(side as nat, target as nat),
        limit <= side,
{
    let estimate: u64 = (side / target) as u64 + (side / 2_097_152) as u64 + 3;
    if side as u64 <= estimate {
        side as u64
    } else {
        estimate
    }
}

/// The pixels that `image::DynamicImage::thumbnail_exact` samples from
/// `source` for a thumbnail of `nwidth` by `nheight` pixels, row by row.
pub uninterp spec fn thumbnail_pixels(source: PixelGrid, nwidth: u32, nheight: u32) -> Seq<Pixel>;

/// The thumbnail of `source` that measures `nwidth` by `nheight` pixels.
pub open spec fn thumbnail_of(source: PixelGrid, nwidth: u32, nheight: u32) -> PixelGrid {
    PixelGrid {
        width: nwidth as nat,
        height: nheight as nat,
        pixels: thumbnail_pixels(source, nwidth, nheight),
    }
}

/// The thumbnail that an image gets: each side is half the image's, held
/// between 256 and 1024, whatever the other side measures.
pub open spec fn default_thumbnail(source: PixelGrid) -> PixelGrid {
    thumbnail_of(
        source,
        width_bound(source.width) as u32,
        height_bound(source.height) as u32,
    )
}

/// Scales `source` to exactly `nwidth` by `nheight` pixels, each axis by
/// itself.
///
/// Calls `image::DynamicImage::thumbnail_exact` on the pixels of `source`.
/// Trusted: the result is well formed, it measures `nwidth` by `nheight`, and
/// its pixels are a function of the source and the two sizes alone
/// (`thumbnail_pixels`). The call subtracts one from the source's width and
/// height, so neither may be zero; it sums each block of samples in 32 bits,
/// so no block may exceed `MAX_BLOCK_PIXELS`; and it allocates the result, so
/// the sizes are held to those of a thumbnail.
#[verifier::external_body]
pub(crate) fn thumbnail(source: &PixelBuffer, nwidth: u32, nheight: u32) -> (thumb: PixelBuffer)
    requires
        source.wf(),
        1 <= nwidth <= THUMBNAIL_MAX_WIDTH,
        1 <= nheight <= THUMBNAIL_MAX_HEIGHT,
        can_sample(source@.width, source@.height, nwidth as nat, nheight as nat),
    ensures
        thumb.wf(),
        thumb@.width == nwidth,
        thumb@.height == nheight,
        thumb@.pixels == thumbnail_pixels(source@, nwidth, nheight),
{
    let pixels = ImageBuffer::<Bgra<u8>, Vec<u8>>::from_raw(
        source.width,
        source.height,
        source.data.clone(),
    ).unwrap();
    let small = DynamicImage::ImageBgra8(pixels).thumbnail_exact(nwidth, nheight).to_bgra8();
    PixelBuffer { width: small.width(), height: small.height(), data: small.into_raw() }
}

/// A block is no longer than the source, and along a side with a target of
/// 256 to 1024 pixels it is no longer than a 1024th of the side and a little.
pub proof fn lemma_block_side_limit(side: nat, target: nat)
    requires
        target == width_bound(side) || target == height_bound(side),
    ensures
        block_side(side, target) <= side,
        block_side(side, target) <= side / 1024 + side / 2_097_152 + 3 || side < 2048,
{
    if side >= 2048 {
        assert(target == 1024);
    }
}

/// Half a side, held between 256 and 1024, lies between 256 and 1024
/// whatever the side measures.
pub proof fn lemma_bounds_in_range(width: nat, height: nat)
    ensures
        THUMBNAIL_MIN_WIDTH <= width_bound(width) <= THUMBNAIL_MAX_WIDTH,
        THUMBNAIL_MIN_HEIGHT <= height_bound(height) <= THUMBNAIL_MAX_HEIGHT,
{
}

/// The thumbnail that an image gets measures between 256 and 1024 pixels on
/// each axis, whatever the image measures: half the image's side where that
/// lies in the range, 256 below it and 1024 above.
pub proof fn lemma_default_thumbnail_in_range(source: PixelGrid)
    ensures
        default_thumbnail(source).width == width_bound(source.width),
        default_thumbnail(source).height == height_bound(source.height),
        THUMBNAIL_MIN_WIDTH <= default_thumbnail(source).width <= THUMBNAIL_MAX_WIDTH,
        THUMBNAIL_MIN_HEIGHT <= default_thumbnail(source).height <= THUMBNAIL_MAX_HEIGHT,
        512 <= source.width <= 2048 ==> default_thumbnail(source).width == source.width / 2,
        512 <= source.height <= 2048 ==> default_thumbnail(source).height == source.height / 2,
{
}

} // verus!
