//! Turns raster images into AMOLED-friendly ones: every pixel whose colour
//! channels all lie at or below a chosen black point becomes pure black, with
//! its alpha kept.
//!
//! The crate holds the pixel model, the thresholding pass and its statistics,
//! the converter that keeps an image, its thumbnail and their converted
//! counterparts in step with the black point, and the event logic of the
//! window that drives it. Decoding files and drawing widgets are left to the
//! program around it.

pub mod amoled;
pub mod amoled_image;
pub mod pixel;
pub mod pixel_buffer;
pub mod thumbnail;

pub use amoled::{Amoled, Effect, Message};
pub use amoled_image::{AmoledImageConverter, PixelInfo};
pub use pixel::Pixel;
pub use pixel_buffer::PixelBuffer;
