//! The converter: an image, its thumbnail, and both again with every dark
//! pixel turned black, kept in step with the black point.

use vstd::prelude::*;
use crate::pixel::{
    dark_count, lemma_dark_count_step, lemma_percentage_at_max, lemma_percentage_at_zero,
    lemma_percentage_bound, lemma_share_bound, percentage, Pixel, PixelGrid,
};
use crate::pixel_buffer::PixelBuffer;
use crate::thumbnail::{
    block_limit, block_side, can_sample, clamped, default_thumbnail, height_bound,
    lemma_block_side_limit, thumbnail, width_bound, MAX_BLOCK_PIXELS, THUMBNAIL_MAX_HEIGHT, THUMBNAIL_MAX_WIDTH, THUMBNAIL_MIN_HEIGHT,
    THUMBNAIL_MIN_WIDTH,
};

verus! {

/// What a thresholding pass counted.
#[derive(Clone, Copy, Debug, PartialEq, Eq, Structural)]
pub struct PixelInfo {
    /// How many pixels the pass looked at.
    pub pixels: usize,
    /// How many of them were dark, and so are black now.
    pub black_pixels: usize,
}

/// What a converter stands for: the image it was made from, the thumbnail of
/// that image, and the black point. All else that it holds follows from
/// these.
pub struct ConverterView {
    pub original: PixelGrid,
    pub thumbnail: PixelGrid,
    pub black_point: u8,
}

impl ConverterView {
    /// Both grids hold one pixel for each position, and at least one.
    pub open spec fn wf(self) -> bool {
        &&& self.original.wf()
        &&& self.original.non_empty()
        &&& self.thumbnail.wf()
        &&& self.thumbnail.non_empty()
    }

    /// The image with every pixel that is dark at the black point blackened.
    pub open spec fn converted(self) -> PixelGrid {
        self.original.thresholded(self.black_point)
    }

    /// The thumbnail with every pixel that is dark at the black point
    /// blackened.
    pub open spec fn converted_thumbnail(self) -> PixelGrid {
        self.thumbnail.thresholded(self.black_point)
    }

    /// The share of the thumbnail's pixels that are black after conversion,
    /// in whole percent.
    pub open spec fn black_pixel_percentage(self) -> nat {
        self.thumbnail.dark_percentage(self.black_point)
    }

    /// The share of the image's own pixels that are pure black, in whole
    /// percent.
    pub open spec fn original_black_pixel_percentage(self) -> nat {
        self.original.dark_percentage(0)
    }

    /// The same image and thumbnail under another black point.
    pub open spec fn with_black_point(self, black_point: u8) -> ConverterView {
        ConverterView { original: self.original, thumbnail: self.thumbnail, black_point }
    }
}

/// An image with its thumbnail, and both as they look once every pixel at or
/// below the black point has been turned black.
///
/// The converted image and thumbnail are caches: they always equal what the
/// thresholding pass makes of the untouched image and thumbnail at the current
/// black point, and are made afresh from those whenever the black point
/// changes.
#[derive(Debug)]
pub struct AmoledImageConverter {
    width: u32,
    height: u32,
    image: PixelBuffer,
    converted_image: PixelBuffer,
    thumbnail: PixelBuffer,
    converted_thumbnail: PixelBuffer,
    black_point: u8,
    converted_image_black_pixel_percentage: usize,
}

impl View for AmoledImageConverter {
    type V = ConverterView;

    closed spec fn view(&self) -> ConverterView {
        ConverterView {
            original: self.image@,
            thumbnail: self.thumbnail@,
            black_point: self.black_point,
        }
    }
}

impl AmoledImageConverter {
    /// The four buffers are well formed, neither image nor thumbnail is
    /// empty, and everything derived agrees with the view.
    pub closed spec fn wf(&self) -> bool {
        &&& self.image.wf()
        &&& self.thumbnail.wf()
        &&& self.converted_image.wf()
        &&& self.converted_thumbnail.wf()
        &&& self@.wf()
        &&& self.width == self@.original.width
        &&& self.height == self@.original.height
        &&& self.converted_image@ == self@.converted()
        &&& self.converted_thumbnail@ == self@.converted_thumbnail()
        &&& self.converted_image_black_pixel_percentage == self@.black_pixel_percentage()
    }

    /// A well-formed converter has a well-formed view.
    pub proof fn lemma_wf(&self)
        requires
            self.wf(),
        ensures
            self@.wf(),
    {
    }

    /// The share `black_pixel_count * 100 / pixel_count`, rounded down. It is
    /// at most 100 where no more pixels are black than there are pixels.
    pub fn calc_black_pixel_percentage(black_pixel_count: usize, pixel_count: usize) -> (percent:
        usize)
        requires
            pixel_count > 0,
            percentage(black_pixel_count as nat, pixel_count as nat) <= usize::MAX,
        ensures
            percent == percentage(black_pixel_count as nat, pixel_count as nat),
            black_pixel_count <= pixel_count ==> percent <= 100,
    {
        let scaled: u128 = black_pixel_count as u128 * 100;
        let percent: u128 = scaled / (pixel_count as u128);
        proof {
            if black_pixel_count <= pixel_count {
                lemma_share_bound(black_pixel_count as nat, pixel_count as nat);
            }
        }
        percent as usize
    }

    /// `x` cut to the range from `min` to `max`.
    pub fn clamp(x: u32, min: u32, max: u32) -> (r: u32)
        ensures
            r == clamped(x as int, min as int, max as int),
    {
        if x > max {
            return max;
        }
        if x < min {
            return min;
        }
        x
    }

    /// Counts the pixels of `image` whose colour is pure black.
    pub fn count_black_pixels(image: &PixelBuffer) -> (count: usize)
        ensures
            count == image@.dark_count(0),
            count <= image@.pixels.len(),
    {
        let total: usize = image.pixel_count();
        let mut count: usize = 0;
        let mut index: usize = 0;
        while index < total
            invariant
                total == image@.pixels.len(),
                index <= total,
                count <= index,
                count == dark_count(image@.pixels.take(index as int), 0),
            decreases total - index,
        {
            let pixel: Pixel = image.get_pixel(index);
            proof {
                lemma_dark_count_step(image@.pixels, 0, index as int);
            }
            if pixel.blue == 0 && pixel.green == 0 && pixel.red == 0 {
                count += 1;
            }
            index += 1;
        }
        assert(image@.pixels.take(total as int) =~= image@.pixels);
        count
    }

    /// The thresholding pass: turns every pixel of `image` whose blue, green
    /// and red all lie at or below `black_point` black, keeping its alpha, and
    /// leaves every other pixel as it is. Returns how many pixels there are
    /// and how many of them were dark.
    pub fn generate_black_image(image: &mut PixelBuffer, black_point: u8) -> (info: PixelInfo)
        ensures
            final(image)@ == old(image)@.thresholded(black_point),
            final(image).wf() == old(image).wf(),
            forall|i: int|
                0 <= i < old(image)@.pixels.len() ==> #[trigger] final(image)@.pixels[i] == (
                if old(image)@.pixels[i].is_dark(black_point) {
                    Pixel { blue: 0, green: 0, red: 0, alpha: old(image)@.pixels[i].alpha }
                } else {
                    old(image)@.pixels[i]
                }),
            info.pixels == old(image)@.pixels.len(),
            info.black_pixels == old(image)@.dark_count(black_point),
            info.black_pixels <= info.pixels,
    {
        let total: usize = image.pixel_count();
        let mut black_pixel_count: usize = 0;
        let mut pixel_count: usize = 0;
        while pixel_count < total
            invariant
                total == old(image)@.pixels.len(),
                pixel_count <= total,
                black_pixel_count <= pixel_count,
                image.wf() == old(image).wf(),
                image@.width == old(image)@.width,
                image@.height == old(image)@.height,
                image@.pixels.len() == total,
                black_pixel_count == dark_count(
                    old(image)@.pixels.take(pixel_count as int),
                    black_point,
                ),
                forall|i: int|
                    0 <= i < pixel_count ==> #[trigger] image@.pixels[i] == old(
                        image,
                    )@.pixels[i].thresholded(black_point),
                forall|i: int|
                    pixel_count <= i < total ==> #[trigger] image@.pixels[i] == old(
                        image,
                    )@.pixels[i],
            decreases total - pixel_count,
        {
            let index: usize = pixel_count;
            pixel_count += 1;
            let pixel: Pixel = image.get_pixel(index);
            proof {
                lemma_dark_count_step(old(image)@.pixels, black_point, index as int);
            }
            if pixel.blue > black_point {
                continue ;
            }
            if pixel.green > black_point {
                continue ;
            }
            if pixel.red > black_point {
                continue ;
            }
            black_pixel_count += 1;
            if pixel.red != 0 || pixel.green != 0 || pixel.blue != 0 {
                image.put_pixel(
                    index,
                    Pixel { blue: 0, green: 0, red: 0, alpha: pixel.alpha },
                );
            }
        }
        assert(old(image)@.pixels.take(total as int) =~= old(image)@.pixels);
        assert(image@.pixels =~= old(image)@.thresholded(black_point).pixels);
        PixelInfo { pixels: pixel_count, black_pixels: black_pixel_count }
    }

    /// An image can be converted if it has at least one pixel and its
    /// thumbnail can be sampled from it.
    pub open spec fn convertible(image: PixelGrid) -> bool {
        can_sample(
            image.width,
            image.height,
            width_bound(image.width),
            height_bound(image.height),
        )
    }

    /// Tells whether `image` can be handed to [`AmoledImageConverter::new`].
    ///
    /// It can unless it is empty, or so large that one pixel of its thumbnail
    /// would stand for more than `MAX_BLOCK_PIXELS` of its own.
    pub fn accepts(image: &PixelBuffer) -> (ok: bool)
        ensures
            ok == Self::convertible(image@),
    {
        if image.width() == 0 || image.height() == 0 {
            return false;
        }
        let nwidth: u32 = AmoledImageConverter::clamp(
            image.width() / 2,
            THUMBNAIL_MIN_WIDTH,
            THUMBNAIL_MAX_WIDTH,
        );
        let nheight: u32 = AmoledImageConverter::clamp(
            image.height() / 2,
            THUMBNAIL_MIN_HEIGHT,
            THUMBNAIL_MAX_HEIGHT,
        );
        let across: u64 = block_limit(image.width(), nwidth);
        let down: u64 = block_limit(image.height(), nheight);
        assert(across * down <= 0xffff_ffff * 0xffff_ffff) by (nonlinear_arith)
            requires
                0 <= across <= 0xffff_ffff,
                0 <= down <= 0xffff_ffff,
        ;
        across * down <= MAX_BLOCK_PIXELS
    }

    /// Makes a converter for `image` with a thumbnail that is already at
    /// hand, and converts both at `black_point`.
    pub fn from_buffers(image: PixelBuffer, thumbnail: PixelBuffer, black_point: u8) -> (converter:
        AmoledImageConverter)
        requires
            image.wf(),
            image@.non_empty(),
            thumbnail.wf(),
            thumbnail@.non_empty(),
        ensures
            converter.wf(),
            converter@ == (ConverterView { original: image@, thumbnail: thumbnail@, black_point }),
            converter@.black_pixel_percentage() <= 100,
            black_point == 255 ==> converter@.black_pixel_percentage() == 100,
    {
        proof {
            image.lemma_wf();
            thumbnail.lemma_wf();
            lemma_at_least_one_pixel(thumbnail@);
        }
        let mut converted_thumbnail = thumbnail.clone();
        let converted_info = AmoledImageConverter::generate_black_image(
            &mut converted_thumbnail,
            black_point,
        );
        let mut converted_image = image.clone();
        AmoledImageConverter::generate_black_image(&mut converted_image, black_point);
        proof {
            lemma_share_bound(converted_info.black_pixels as nat, converted_info.pixels as nat);
            lemma_black_pixel_percentage(
                ConverterView { original: image@, thumbnail: thumbnail@, black_point },
            );
        }
        AmoledImageConverter {
            width: image.width(),
            height: image.height(),
            image,
            converted_image,
            thumbnail,
            converted_thumbnail,
            black_point,
            converted_image_black_pixel_percentage:
                AmoledImageConverter::calc_black_pixel_percentage(
                converted_info.black_pixels,
                converted_info.pixels,
            ),
        }
    }

    /// Makes a converter for `image`: derives its thumbnail and converts
    /// image and thumbnail at `black_point`.
    ///
    /// The thumbnail is half as wide and half as high as the image, each
    /// side by itself held between 256 and 1024 pixels. A side of the image
    /// below 512 pixels therefore comes out at 256, scaled up where the image
    /// has fewer than that.
    pub fn new(image: PixelBuffer, black_point: u8) -> (converter: AmoledImageConverter)
        requires
            image.wf(),
            Self::convertible(image@),
        ensures
            converter.wf(),
            converter@ == (ConverterView {
                original: image@,
                thumbnail: default_thumbnail(image@),
                black_point,
            }),
            THUMBNAIL_MIN_WIDTH <= converter@.thumbnail.width <= THUMBNAIL_MAX_WIDTH,
            THUMBNAIL_MIN_HEIGHT <= converter@.thumbnail.height <= THUMBNAIL_MAX_HEIGHT,
            converter@.black_pixel_percentage() <= 100,
            black_point == 255 ==> converter@.black_pixel_percentage() == 100,
    {
        let nwidth: u32 = AmoledImageConverter::clamp(
            image.width() / 2,
            THUMBNAIL_MIN_WIDTH,
            THUMBNAIL_MAX_WIDTH,
        );
        let nheight: u32 = AmoledImageConverter::clamp(
            image.height() / 2,
            THUMBNAIL_MIN_HEIGHT,
            THUMBNAIL_MAX_HEIGHT,
        );
        let thumbnail: PixelBuffer = thumbnail(&image, nwidth, nheight);
        proof {
            assert(nwidth == width_bound(image@.width));
            assert(nheight == height_bound(image@.height));
        }
        AmoledImageConverter::from_buffers(image, thumbnail, black_point)
    }

    /// The width of the image, in pixels.
    pub fn get_width(&self) -> (width: u32)
        requires
            self.wf(),
        ensures
            width == self@.original.width,
    {
        self.width
    }

    /// The height of the image, in pixels.
    pub fn get_height(&self) -> (height: u32)
        requires
            self.wf(),
        ensures
            height == self@.original.height,
    {
        self.height
    }

    /// Changes the black point and converts image and thumbnail anew from
    /// their untouched originals, so that nothing of an earlier conversion
    /// remains.
    pub fn set_black_point(&mut self, black_point: u8)
        requires
            old(self).wf(),
        ensures
            final(self).wf(),
            final(self)@ == old(self)@.with_black_point(black_point),
            final(self)@.black_pixel_percentage() <= 100,
            black_point == 255 ==> final(self)@.black_pixel_percentage() == 100,
    {
        proof {
            self.thumbnail.lemma_wf();
            lemma_at_least_one_pixel(self.thumbnail@);
            lemma_black_pixel_percentage(self@.with_black_point(black_point));
        }
        self.black_point = black_point;
        self.converted_thumbnail = self.thumbnail.clone();
        let converted_image_info = AmoledImageConverter::generate_black_image(
            &mut self.converted_thumbnail,
            black_point,
        );
        proof {
            lemma_share_bound(
                converted_image_info.black_pixels as nat,
                converted_image_info.pixels as nat,
            );
        }
        self.converted_image_black_pixel_percentage =
            AmoledImageConverter::calc_black_pixel_percentage(
            converted_image_info.black_pixels,
            converted_image_info.pixels,
        );
        self.converted_image = self.image.clone();
        AmoledImageConverter::generate_black_image(&mut self.converted_image, black_point);
    }

    /// The black point in force.
    pub fn black_point(&self) -> (black_point: u8)
        ensures
            black_point == self@.black_point,
    {
        self.black_point
    }

    /// The image as it was given.
    pub fn image(&self) -> (image: &PixelBuffer)
        requires
            self.wf(),
        ensures
            image.wf(),
            image@ == self@.original,
    {
        &self.image
    }

    /// The thumbnail of the image as it was given.
    pub fn thumbnail(&self) -> (thumbnail: &PixelBuffer)
        requires
            self.wf(),
        ensures
            thumbnail.wf(),
            thumbnail@ == self@.thumbnail,
    {
        &self.thumbnail
    }

    /// The image converted at the black point in force.
    pub fn converted_image(&self) -> (image: &PixelBuffer)
        requires
            self.wf(),
        ensures
            image.wf(),
            image@ == self@.converted(),
    {
        &self.converted_image
    }

    /// The thumbnail converted at the black point in force.
    pub fn converted_thumbnail(&self) -> (thumbnail: &PixelBuffer)
        requires
            self.wf(),
        ensures
            thumbnail.wf(),
            thumbnail@ == self@.converted_thumbnail(),
    {
        &self.converted_thumbnail
    }

    /// The share of black pixels after conversion, in whole percent. It is
    /// measured on the thumbnail.
    pub fn black_pixel_percentage(&self) -> (percent: usize)
        requires
            self.wf(),
        ensures
            percent == self@.black_pixel_percentage(),
            percent <= 100,
    {
        proof {
            self.thumbnail.lemma_wf();
            lemma_at_least_one_pixel(self.thumbnail@);
            lemma_percentage_bound(self@.thumbnail.pixels, self.black_point);
        }
        self.converted_image_black_pixel_percentage
    }

    /// The share of pure black pixels before conversion, in whole percent.
    /// It is measured on the full image.
    pub fn original_black_pixel_percentage(&self) -> (percent: usize)
        requires
            self.wf(),
        ensures
            percent == self@.original_black_pixel_percentage(),
            percent <= 100,
    {
        proof {
            self.image.lemma_wf();
            lemma_at_least_one_pixel(self.image@);
        }
        let black_pixel_count: usize = AmoledImageConverter::count_black_pixels(&self.image);
        let pixel_count: usize = self.image.pixel_count();
        proof {
            lemma_share_bound(black_pixel_count as nat, pixel_count as nat);
        }
        AmoledImageConverter::calc_black_pixel_percentage(black_pixel_count, pixel_count)
    }

    /// The converted image at full size as bytes in red, green, blue, alpha
    /// order, ready to be encoded and saved.
    pub fn export_rgba(&self) -> (bytes: Vec<u8>)
        requires
            self.wf(),
        ensures
            bytes@ == self@.converted().rgba_bytes(),
    {
        self.converted_image.to_rgba()
    }
}

impl Clone for AmoledImageConverter {
    /// A second converter for the same image, thumbnail and black point.
    fn clone(&self) -> (copy: Self)
        ensures
            copy@ == self@,
            copy.wf() == self.wf(),
    {
        AmoledImageConverter {
            width: self.width,
            height: self.height,
            image: self.image.clone(),
            converted_image: self.converted_image.clone(),
            thumbnail: self.thumbnail.clone(),
            converted_thumbnail: self.converted_thumbnail.clone(),
            black_point: self.black_point,
            converted_image_black_pixel_percentage: self.converted_image_black_pixel_percentage,
        }
    }
}

/// A well-formed grid that is not empty holds at least one pixel.
pub proof fn lemma_at_least_one_pixel(grid: PixelGrid)
    requires
        grid.wf(),
        grid.non_empty(),
    ensures
        grid.pixels.len() >= 1,
{
    assert(grid.width * grid.height >= 1) by (nonlinear_arith)
        requires
            grid.width >= 1,
            grid.height >= 1,
    ;
}

/// Whatever the image, the percentage lies between 0 and 100; at the black
/// point 255 it is 100, and at the black point 0 it is 0 where the thumbnail
/// holds no pure black pixel.
pub proof fn lemma_black_pixel_percentage(view: ConverterView)
    requires
        view.wf(),
    ensures
        0 <= view.black_pixel_percentage() <= 100,
        0 <= view.original_black_pixel_percentage() <= 100,
        view.black_point == 255 ==> view.black_pixel_percentage() == 100,
        view.black_point == 0 && (forall|i: int|
            0 <= i < view.thumbnail.pixels.len() ==> !(
            #[trigger] view.thumbnail.pixels[i]).is_black())
            ==> view.black_pixel_percentage() == 0,
{
    lemma_at_least_one_pixel(view.thumbnail);
    lemma_at_least_one_pixel(view.original);
    lemma_percentage_bound(view.thumbnail.pixels, view.black_point);
    lemma_percentage_bound(view.original.pixels, 0);
    if view.black_point == 255 {
        lemma_percentage_at_max(view.thumbnail.pixels);
    }
    if view.black_point == 0 && (forall|i: int|
        0 <= i < view.thumbnail.pixels.len() ==> !(#[trigger] view.thumbnail.pixels[i]).is_black()) {
        lemma_percentage_at_zero(view.thumbnail.pixels);
    }
}

/// Every image that is not empty and measures up to four million pixels on
/// each side can be converted, and so can every strip of up to three pixels
/// in width or in height, however long.
pub proof fn lemma_convertible_sizes(image: PixelGrid)
    requires
        image.non_empty(),
        image.width <= u32::MAX,
        image.height <= u32::MAX,
        (image.width <= 4_000_000 && image.height <= 4_000_000) || image.width <= 3
            || image.height <= 3,
    ensures
        AmoledImageConverter::convertible(image),
{
    let across: int = block_side(image.width, width_bound(image.width)) as int;
    let down: int = block_side(image.height, height_bound(image.height)) as int;
    lemma_block_side_limit(image.width, width_bound(image.width));
    lemma_block_side_limit(image.height, height_bound(image.height));
    if image.width <= 4_000_000 && image.height <= 4_000_000 {
        assert(across <= 3910);
        assert(down <= 3910);
        assert(across * down <= 3910 * 3910) by (nonlinear_arith)
            requires
                0 <= across <= 3910,
                0 <= down <= 3910,
        ;
    } else if image.width <= 3 {
        assert(across <= 3);
        assert(down <= 4_196_353);
        assert(across * down <= 3 * 4_196_353) by (nonlinear_arith)
            requires
                0 <= across <= 3,
                0 <= down <= 4_196_353,
        ;
    } else {
        assert(down <= 3);
        assert(across <= 4_196_353);
        assert(across * down <= 4_196_353 * 3) by (nonlinear_arith)
            requires
                0 <= across <= 4_196_353,
                0 <= down <= 3,
        ;
    }
}

/// At the black point 255 everything is black, whatever the image and the
/// thumbnail measure and hold: the percentage is 100, and every pixel of the
/// converted image and of the converted thumbnail has the colour black and
/// the alpha it had.
pub proof fn lemma_all_black_at_max(view: ConverterView)
    requires
        view.wf(),
        view.black_point == 255,
    ensures
        view.black_pixel_percentage() == 100,
        view.converted().pixels.len() == view.original.pixels.len(),
        view.converted_thumbnail().pixels.len() == view.thumbnail.pixels.len(),
        forall|i: int|
            0 <= i < view.original.pixels.len() ==> (#[trigger] view.converted().pixels[i])
                == view.original.pixels[i].blackened(),
        forall|i: int|
            0 <= i < view.thumbnail.pixels.len() ==> (
            #[trigger] view.converted_thumbnail().pixels[i])
                == view.thumbnail.pixels[i].blackened(),
{
    lemma_black_pixel_percentage(view);
}

/// Setting another black point and then the first one again gives back the
/// converter as it was: the converted image, the converted thumbnail and the
/// percentage are those of the first conversion.
pub proof fn lemma_black_point_round_trip(view: ConverterView, other: u8)
    ensures
        view.with_black_point(other).with_black_point(view.black_point) == view,
        view.with_black_point(other).with_black_point(view.black_point).converted()
            == view.converted(),
        view.with_black_point(other).with_black_point(view.black_point).converted_thumbnail()
            == view.converted_thumbnail(),
        view.with_black_point(other).with_black_point(view.black_point).black_pixel_percentage()
            == view.black_pixel_percentage(),
{
}

} // verus!
