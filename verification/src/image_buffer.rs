//! Image buffers of the image library (`RgbaImage`, `RgbImage`), as far as
//! the library fills them: created black and transparent, then written one
//! pixel at a time.

use vstd::prelude::*;

use image::{Rgb, Rgba, RgbImage, RgbaImage};

verus! {

/// An RGBA image buffer of 8-bit channels.
#[verifier::external_body]
pub struct RgbaCanvas {
    image: RgbaImage,
}

/// An RGB image buffer of 8-bit channels.
#[verifier::external_body]
pub struct RgbCanvas {
    image: RgbImage,
}

/// The samples of an RGBA buffer, row by row, four per pixel.
pub uninterp spec fn rgba_bytes(c: RgbaCanvas) -> Seq<u8>;

/// The width and height of an RGBA buffer.
pub uninterp spec fn rgba_dimensions(c: RgbaCanvas) -> (u32, u32);

/// The samples of an RGB buffer, row by row, three per pixel.
pub uninterp spec fn rgb_bytes(c: RgbCanvas) -> Seq<u8>;

/// The width and height of an RGB buffer.
pub uninterp spec fn rgb_dimensions(c: RgbCanvas) -> (u32, u32);

/// The samples of a buffer after the pixel at `(x, y)` of a `width` wide image
/// with `channels` samples per pixel was set to `px`.
pub open spec fn with_pixel(bytes: Seq<u8>, width: u32, channels: nat, x: u32, y: u32, px: Seq<u8>) -> Seq<u8> {
    let base = (y * width + x) * channels;
    Seq::new(bytes.len(), |i: int| if base <= i < base + channels { px[i - base] } else { bytes[i] })
}

/// `ImageBuffer::new` for RGBA: a buffer of `width * height` pixels whose
/// samples are all zero. It panics when the number of samples overflows
/// `usize`, which `requires` leaves out.
#[verifier::external_body]
pub(crate) fn rgba_canvas_new(width: u32, height: u32) -> (c: RgbaCanvas)
    requires
        width * height * 4 <= usize::MAX,
    ensures
        rgba_dimensions(c) == (width, height),
        rgba_bytes(c) == Seq::new((width * height * 4) as nat, |i: int| 0u8),
{
    RgbaCanvas { image: RgbaImage::new(width, height) }
}

/// `ImageBuffer::put_pixel` for RGBA: the four samples of the pixel at
/// `(x, y)`, at index `(y * width + x) * 4`, take the values of `px`; the
/// rest stays. It panics on a pixel outside the image, which `requires`
/// leaves out.
#[verifier::external_body]
pub(crate) fn rgba_canvas_put_pixel(c: &mut RgbaCanvas, x: u32, y: u32, px: [u8; 4])
    requires
        x < rgba_dimensions(*old(c)).0,
        y < rgba_dimensions(*old(c)).1,
    ensures
        rgba_dimensions(*final(c)) == rgba_dimensions(*old(c)),
        rgba_bytes(*final(c)) == with_pixel(rgba_bytes(*old(c)), rgba_dimensions(*old(c)).0, 4, x, y, px@),
{
    c.image.put_pixel(x, y, Rgba(px));
}

/// `ImageBuffer::new` for RGB: a buffer of `width * height` pixels whose
/// samples are all zero. It panics when the number of samples overflows
/// `usize`, which `requires` leaves out.
#[verifier::external_body]
pub(crate) fn rgb_canvas_new(width: u32, height: u32) -> (c: RgbCanvas)
    requires
        width * height * 3 <= usize::MAX,
    ensures
        rgb_dimensions(c) == (width, height),
        rgb_bytes(c) == Seq::new((width * height * 3) as nat, |i: int| 0u8),
{
    RgbCanvas { image: RgbImage::new(width, height) }
}

/// `ImageBuffer::put_pixel` for RGB: the three samples of the pixel at
/// `(x, y)`, at index `(y * width + x) * 3`, take the values of `px`; the
/// rest stays. It panics on a pixel outside the image, which `requires`
/// leaves out.
#[verifier::external_body]
pub(crate) fn rgb_canvas_put_pixel(c: &mut RgbCanvas, x: u32, y: u32, px: [u8; 3])
    requires
        x < rgb_dimensions(*old(c)).0,
        y < rgb_dimensions(*old(c)).1,
    ensures
        rgb_dimensions(*final(c)) == rgb_dimensions(*old(c)),
        rgb_bytes(*final(c)) == with_pixel(rgb_bytes(*old(c)), rgb_dimensions(*old(c)).0, 3, x, y, px@),
{
    c.image.put_pixel(x, y, Rgb(px));
}

/// `ImageBuffer::dimensions` for RGBA: the width and height of the buffer.
#[verifier::external_body]
pub(crate) fn rgba_canvas_dimensions(c: &RgbaCanvas) -> (r: (u32, u32))
    ensures
        r == rgba_dimensions(*c),
{
    c.image.dimensions()
}

/// `ImageBuffer::dimensions` for RGB: the width and height of the buffer.
#[verifier::external_body]
pub(crate) fn rgb_canvas_dimensions(c: &RgbCanvas) -> (r: (u32, u32))
    ensures
        r == rgb_dimensions(*c),
{
    c.image.dimensions()
}

/// `ImageBuffer::as_raw` for RGBA, copied: the samples of the buffer.
#[verifier::external_body]
pub(crate) fn rgba_canvas_samples(c: &RgbaCanvas) -> (r: Vec<u8>)
    ensures
        r@ == rgba_bytes(*c),
{
    c.image.as_raw().clone()
}

/// `ImageBuffer::as_raw` for RGB, copied: the samples of the buffer.
#[verifier::external_body]
pub(crate) fn rgb_canvas_samples(c: &RgbCanvas) -> (r: Vec<u8>)
    ensures
        r@ == rgb_bytes(*c),
{
    c.image.as_raw().clone()
}

} // verus!
