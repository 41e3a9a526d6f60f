//! An RGBA raster backed by `image::RgbaImage`, with its pixels modelled as
//! a row-major sequence.
//!
//! The image lives in the private field of `RgbaCanvas`, an opaque struct,
//! and is reached only through the functions of this module. Callers
//! outside the crate hand over and get back the image's raw buffer.

use vstd::prelude::*;
use image::{Rgba, RgbaImage};

verus! {

/// An `image::RgbaImage` held by value.
#[verifier::external_body]
pub struct RgbaCanvas {
    img: RgbaImage,
}

/// The pixels of the image in row-major order: the pixel at column `x` and
/// row `y` is entry `y * width + x`; its channels are R, G, B, A.
pub uninterp spec fn canvas_pixels(canvas: RgbaCanvas) -> Seq<[u8; 4]>;

/// The width and height that the image was made with.
pub uninterp spec fn canvas_dims(canvas: RgbaCanvas) -> (u32, u32);

/// Index of pixel `(x, y)` in the row-major sequence of an image `w` wide.
pub open spec fn pixel_index(w: u32, x: int, y: int) -> int {
    y * (w as int) + x
}

/// The first `n` pixels of a raw buffer of R, G, B, A bytes.
pub open spec fn pixels_of_bytes(bytes: Seq<u8>, n: nat) -> Seq<[u8; 4]> {
    Seq::new(n, |i: int| [bytes[4 * i], bytes[4 * i + 1], bytes[4 * i + 2], bytes[4 * i + 3]])
}

impl RgbaCanvas {
    /// `ImageBuffer::from_raw`: an image over the buffer `bytes`, or `None`
    /// when the buffer holds fewer than `4 * w * h` bytes.
    #[verifier::external_body]
    pub(crate) fn from_raw(w: u32, h: u32, bytes: Vec<u8>) -> (c: Option<RgbaCanvas>)
        ensures
            c is Some <==> 4 * (w as int) * (h as int) <= bytes@.len(),
            c matches Some(c) ==> {
                &&& canvas_dims(c) == (w, h)
                &&& canvas_pixels(c) == pixels_of_bytes(bytes@, w as nat * h as nat)
            },
    {
        match RgbaImage::from_raw(w, h, bytes) {
            Some(img) => Some(RgbaCanvas { img }),
            None => None,
        }
    }

    /// `ImageBuffer::into_raw`: the buffer under the image; its first
    /// `4 * w * h` bytes are the pixels. What follows them, if anything, is
    /// not described here.
    #[verifier::external_body]
    pub(crate) fn into_raw(self) -> (bytes: Vec<u8>)
        ensures
            bytes@.len() >= 4 * (canvas_dims(self).0 as int) * (canvas_dims(self).1 as int),
            pixels_of_bytes(bytes@, canvas_dims(self).0 as nat * canvas_dims(self).1 as nat)
                == canvas_pixels(self),
    {
        self.img.into_raw()
    }

    /// `ImageBuffer::dimensions`: width and height. The model holds one
    /// pixel per position.
    #[verifier::external_body]
    pub(crate) fn dimensions(&self) -> (d: (u32, u32))
        ensures
            d == canvas_dims(*self),
            canvas_pixels(*self).len() == d.0 as nat * d.1 as nat,
    {
        self.img.dimensions()
    }

    /// `ImageBuffer::get_pixel`: the channels of pixel `(x, y)`. It panics
    /// outside the image, which the bounds rule out.
    #[verifier::external_body]
    pub(crate) fn get_pixel(&self, x: u32, y: u32) -> (p: [u8; 4])
        requires
            x < canvas_dims(*self).0,
            y < canvas_dims(*self).1,
        ensures
            p == canvas_pixels(*self)[pixel_index(canvas_dims(*self).0, x as int, y as int)],
    {
        self.img.get_pixel(x, y).0
    }

    /// `ImageBuffer::put_pixel`: sets pixel `(x, y)` and leaves the other
    /// pixels and the dimensions as they were. It panics outside the image,
    /// which the bounds rule out.
    #[verifier::external_body]
    pub(crate) fn put_pixel(&mut self, x: u32, y: u32, p: [u8; 4])
        requires
            x < canvas_dims(*old(self)).0,
            y < canvas_dims(*old(self)).1,
        ensures
            canvas_dims(*final(self)) == canvas_dims(*old(self)),
            canvas_pixels(*final(self)) == canvas_pixels(*old(self)).update(
                pixel_index(canvas_dims(*old(self)).0, x as int, y as int),
                p,
            ),
    {
        self.img.put_pixel(x, y, Rgba(p))
    }
}

} // verus!
