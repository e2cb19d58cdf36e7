//! A dense buffer of pixels, four bytes each, with its dimensions.

use vstd::prelude::*;
use crate::pixel::{lemma_bgra_bytes_of_pixels, pixels_of, rgba_bytes, Pixel, PixelGrid};

verus! {

/// An image of `width` by `height` pixels, stored row by row as bytes in blue,
/// green, red, alpha order.
///
/// A buffer made by [`PixelBuffer::new`] holds exactly four bytes for each
/// position, and no operation changes its length or its dimensions.
#[derive(Debug)]
pub struct PixelBuffer {
    pub(crate) width: u32,
    pub(crate) height: u32,
    pub(crate) data: Vec<u8>,
}

impl View for PixelBuffer {
    type V = PixelGrid;

    closed spec fn view(&self) -> PixelGrid {
        PixelGrid {
            width: self.width as nat,
            height: self.height as nat,
            pixels: pixels_of(self.data@),
        }
    }
}

impl PixelBuffer {
    /// The buffer holds exactly `4 * width * height` bytes.
    pub closed spec fn wf(&self) -> bool {
        self.data@.len() == 4 * (self.width as int) * (self.height as int)
    }

    /// What well-formedness says of the view: one pixel for each position,
    /// dimensions that fit 32 bits, and a byte count that fits `usize`.
    pub proof fn lemma_wf(&self)
        requires
            self.wf(),
        ensures
            self@.wf(),
            self@.width <= u32::MAX,
            self@.height <= u32::MAX,
            4 * self@.pixels.len() <= usize::MAX,
            self@.bytes().len() == 4 * self@.width * self@.height,
    {
        let w: int = self.width as int;
        let h: int = self.height as int;
        assert(4 * w * h == 4 * (w * h)) by (nonlinear_arith);
        assert(self.data@.len() == self.data.len());
    }

    /// Wraps `data` as an image of `width` by `height` pixels.
    ///
    /// Returns `None` unless `data` holds exactly four bytes for each pixel.
    pub fn new(width: u32, height: u32, data: Vec<u8>) -> (r: Option<PixelBuffer>)
        ensures
            r is Some <==> data@.len() == 4 * (width as int) * (height as int),
            r matches Some(buffer) ==> buffer.wf() && buffer@ == (PixelGrid {
                width: width as nat,
                height: height as nat,
                pixels: pixels_of(data@),
            }) && buffer@.bytes() == data@,
    {
        assert((width as int) * (height as int) <= 0xffff_ffff * 0xffff_ffff) by (nonlinear_arith)
            requires
                0 <= width <= 0xffff_ffff,
                0 <= height <= 0xffff_ffff,
        ;
        let pixels: u64 = (width as u64) * (height as u64);
        assert(4 * (width as int) * (height as int) == 4 * ((width as int) * (height as int)))
            by (nonlinear_arith);
        let needed: u128 = 4 * (pixels as u128);
        if data.len() as u128 == needed {
            proof {
                lemma_bgra_bytes_of_pixels(data@);
            }
            Some(PixelBuffer { width, height, data })
        } else {
            None
        }
    }

    /// The number of pixels in a row.
    pub fn width(&self) -> (w: u32)
        ensures
            w == self@.width,
    {
        self.width
    }

    /// The number of rows.
    pub fn height(&self) -> (h: u32)
        ensures
            h == self@.height,
    {
        self.height
    }

    /// The number of pixels.
    pub fn pixel_count(&self) -> (n: usize)
        ensures
            n == self@.pixels.len(),
    {
        self.data.len() / 4
    }

    /// The pixel at `index`, counting row by row from the top left.
    pub fn get_pixel(&self, index: usize) -> (pixel: Pixel)
        requires
            index < self@.pixels.len(),
        ensures
            pixel == self@.pixels[index as int],
    {
        assert(4 * index + 3 < self.data.len());
        let base: usize = 4 * index;
        Pixel {
            blue: self.data[base],
            green: self.data[base + 1],
            red: self.data[base + 2],
            alpha: self.data[base + 3],
        }
    }

    /// Replaces the pixel at `index` and leaves every other pixel as it was.
    pub fn put_pixel(&mut self, index: usize, pixel: Pixel)
        requires
            index < old(self)@.pixels.len(),
        ensures
            final(self)@ == (PixelGrid {
                width: old(self)@.width,
                height: old(self)@.height,
                pixels: old(self)@.pixels.update(index as int, pixel),
            }),
            final(self).wf() == old(self).wf(),
    {
        assert(4 * index + 3 < self.data.len());
        let base: usize = 4 * index;
        self.data.set(base, pixel.blue);
        self.data.set(base + 1, pixel.green);
        self.data.set(base + 2, pixel.red);
        self.data.set(base + 3, pixel.alpha);
        assert(pixels_of(self.data@) =~= pixels_of(old(self).data@).update(index as int, pixel));
    }

    /// The bytes of the image, in blue, green, red, alpha order.
    pub fn as_raw(&self) -> (bytes: &Vec<u8>)
        requires
            self.wf(),
        ensures
            bytes@ == self@.bytes(),
    {
        proof {
            self.lemma_wf();
            lemma_bgra_bytes_of_pixels(self.data@);
        }
        &self.data
    }

    /// Gives up the buffer for its bytes, in blue, green, red, alpha order.
    pub fn into_raw(self) -> (bytes: Vec<u8>)
        requires
            self.wf(),
        ensures
            bytes@ == self@.bytes(),
    {
        proof {
            self.lemma_wf();
            lemma_bgra_bytes_of_pixels(self.data@);
        }
        self.data
    }

    /// The bytes of the image in red, green, blue, alpha order, as image
    /// encoders expect them.
    pub fn to_rgba(&self) -> (bytes: Vec<u8>)
        ensures
            bytes@ == self@.rgba_bytes(),
    {
        let count: usize = self.pixel_count();
        let mut bytes: Vec<u8> = Vec::with_capacity(self.data.len());
        let mut index: usize = 0;
        while index < count
            invariant
                count == self@.pixels.len(),
                index <= count,
                bytes@ == rgba_bytes(self@.pixels.take(index as int)),
            decreases count - index,
        {
            let pixel = self.get_pixel(index);
            bytes.push(pixel.red);
            bytes.push(pixel.green);
            bytes.push(pixel.blue);
            bytes.push(pixel.alpha);
            index += 1;
            assert(bytes@ =~= rgba_bytes(self@.pixels.take(index as int)));
        }
        assert(self@.pixels.take(count as int) =~= self@.pixels);
        bytes
    }
}

impl Clone for PixelBuffer {
    /// A second buffer with the same dimensions and the same pixels.
    fn clone(&self) -> (copy: Self)
        ensures
            copy@ == self@,
            copy.wf() == self.wf(),
    {
        let data: Vec<u8> = self.data.clone();
        assert(data@ =~= self.data@);
        PixelBuffer { width: self.width, height: self.height, data }
    }
}

} // verus!
