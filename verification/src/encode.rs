//! Encoding a captured frame into an image file format (PNG, JPEG, PNM)
//! with the image crate's encoders.

use vstd::prelude::*;

use image::ImageEncoder;

use crate::cli::EncodingFormat;
use crate::convert::ColorType;

verus! {

#[verifier::external_type_specification]
#[verifier::external_body]
pub struct ExImageError(image::ImageError);

#[verifier::external_type_specification]
#[verifier::external_body]
pub struct ExExtendedColorType(image::ExtendedColorType);

/// Bytes one pixel of a colour type takes.
pub open spec fn bytes_per_pixel(c: ColorType) -> nat {
    match c {
        ColorType::L8 => 1,
        ColorType::La8 => 2,
        ColorType::Rgb8 => 3,
        ColorType::Rgba8 => 4,
        ColorType::L16 => 2,
        ColorType::La16 => 4,
        ColorType::Rgb16 => 6,
        ColorType::Rgba16 => 8,
        ColorType::Rgb32F => 12,
        ColorType::Rgba32F => 16,
    }
}

/// Bytes one pixel of a colour type takes.
pub fn pixel_bytes(c: ColorType) -> (r: u8)
    ensures
        r as nat == bytes_per_pixel(c),
{
    match c {
        ColorType::L8 => 1,
        ColorType::La8 => 2,
        ColorType::Rgb8 => 3,
        ColorType::Rgba8 => 4,
        ColorType::L16 => 2,
        ColorType::La16 => 4,
        ColorType::Rgb16 => 6,
        ColorType::Rgba16 => 8,
        ColorType::Rgb32F => 12,
        ColorType::Rgba32F => 16,
    }
}

/// Whether a buffer of `len` bytes holds exactly the pixels of a `width` x
/// `height` image of colour type `c`, as the encoders demand.
pub fn holds_exact_image(len: usize, width: u32, height: u32, c: ColorType) -> (r: bool)
    ensures
        r == (len == width * height * bytes_per_pixel(c)),
{
    let bpp = pixel_bytes(c) as u128;
    let w = width as u128;
    let h = height as u128;
    assert(w * h <= 0xffff_ffff * 0xffff_ffff) by (nonlinear_arith)
        requires
            w <= 0xffff_ffff,
            h <= 0xffff_ffff,
    ;
    let pixels: u128 = w * h;
    assert(pixels * bpp <= 0xffff_ffff * 0xffff_ffff * 16) by (nonlinear_arith)
        requires
            pixels <= 0xffff_ffff * 0xffff_ffff,
            bpp <= 16,
    ;
    let expected: u128 = pixels * bpp;
    len as u128 == expected
}

/// What the PNG encoder writes for an image, `None` when it refuses it.
pub uninterp spec fn png_encoding(data: Seq<u8>, width: u32, height: u32, color: ColorType) -> Option<
    Seq<u8>,
>;

/// What the JPEG encoder writes for an image, `None` when it refuses it.
pub uninterp spec fn jpeg_encoding(data: Seq<u8>, width: u32, height: u32, color: ColorType) -> Option<
    Seq<u8>,
>;

/// What the PNM encoder writes for an image, `None` when it refuses it.
pub uninterp spec fn pnm_encoding(data: Seq<u8>, width: u32, height: u32, color: ColorType) -> Option<
    Seq<u8>,
>;

/// The image crate's colour type of the same name.
#[verifier::external_body]
fn image_color(c: ColorType) -> image::ExtendedColorType {
    match c {
        ColorType::L8 => image::ExtendedColorType::L8,
        ColorType::La8 => image::ExtendedColorType::La8,
        ColorType::Rgb8 => image::ExtendedColorType::Rgb8,
        ColorType::Rgba8 => image::ExtendedColorType::Rgba8,
        ColorType::L16 => image::ExtendedColorType::L16,
        ColorType::La16 => image::ExtendedColorType::La16,
        ColorType::Rgb16 => image::ExtendedColorType::Rgb16,
        ColorType::Rgba16 => image::ExtendedColorType::Rgba16,
        ColorType::Rgb32F => image::ExtendedColorType::Rgb32F,
        ColorType::Rgba32F => image::ExtendedColorType::Rgba32F,
    }
}

/// `PngEncoder::write_image` of the image crate, into a buffer in memory.
/// The bytes written, or the refusal, are named by `png_encoding`. The
/// encoder panics unless the buffer holds exactly the image's pixels.
#[verifier::external_body]
fn encode_png(data: &[u8], width: u32, height: u32, color: ColorType) -> (r: Result<
    Vec<u8>,
    image::ImageError,
>)
    requires
        data@.len() == width * height * bytes_per_pixel(color),
    ensures
        match r {
            Ok(b) => png_encoding(data@, width, height, color) == Some(b@),
            Err(_) => png_encoding(data@, width, height, color) is None,
        },
{
    let mut out: Vec<u8> = Vec::new();
    let res = image::codecs::png::PngEncoder::new(&mut out).write_image(
        data,
        width,
        height,
        image_color(color),
    );
    res.map(|_| out)
}

/// `JpegEncoder::write_image` of the image crate, into a buffer in memory.
/// The bytes written, or the refusal, are named by `jpeg_encoding`. The
/// encoder panics unless the buffer holds exactly the image's pixels.
#[verifier::external_body]
fn encode_jpeg(data: &[u8], width: u32, height: u32, color: ColorType) -> (r: Result<
    Vec<u8>,
    image::ImageError,
>)
    requires
        data@.len() == width * height * bytes_per_pixel(color),
    ensures
        match r {
            Ok(b) => jpeg_encoding(data@, width, height, color) == Some(b@),
            Err(_) => jpeg_encoding(data@, width, height, color) is None,
        },
{
    let mut out: Vec<u8> = Vec::new();
    let res = image::codecs::jpeg::JpegEncoder::new(&mut out).write_image(
        data,
        width,
        height,
        image_color(color),
    );
    res.map(|_| out)
}

/// `PnmEncoder::write_image` of the image crate, into a buffer in memory.
/// The bytes written, or the refusal, are named by `pnm_encoding`. The
/// encoder panics unless the buffer holds exactly the image's pixels.
#[verifier::external_body]
fn encode_pnm(data: &[u8], width: u32, height: u32, color: ColorType) -> (r: Result<
    Vec<u8>,
    image::ImageError,
>)
    requires
        data@.len() == width * height * bytes_per_pixel(color),
    ensures
        match r {
            Ok(b) => pnm_encoding(data@, width, height, color) == Some(b@),
            Err(_) => pnm_encoding(data@, width, height, color) is None,
        },
{
    let mut out: Vec<u8> = Vec::new();
    let res = image::codecs::pnm::PnmEncoder::new(&mut out).write_image(
        data,
        width,
        height,
        image_color(color),
    );
    res.map(|_| out)
}

/// The message of an encoder's error (`ImageError`'s `Display`).
#[verifier::external_body]
fn error_message(e: &image::ImageError) -> String {
    e.to_string()
}

/// An image the encoder refused, with the encoder's message.
#[derive(Debug)]
pub struct EncodeError {
    pub message: String,
}

/// The samples of RGBA pixels with the alpha channel left out: three
/// samples for each whole pixel of four.
pub open spec fn without_alpha(s: Seq<u8>) -> Seq<u8> {
    Seq::new(s.len() / 4 * 3, |i: int| s[(i / 3) * 4 + i % 3])
}

/// The RGB samples of RGBA pixels: the alpha channel of each pixel left out.
pub fn strip_alpha(data: &[u8]) -> (r: Vec<u8>)
    ensures
        r@ == without_alpha(data@),
{
    let len = data.len();
    let n = len / 4;
    assert(4 * n <= len);
    let mut out: Vec<u8> = Vec::new();
    let mut p: usize = 0;
    while p < n
        invariant
            n == data@.len() / 4,
            len == data@.len(),
            4 * n <= len,
            p <= n,
            out@.len() == 3 * p,
            forall|j: int| 0 <= j < out@.len() ==> out@[j] == #[trigger] without_alpha(data@)[j],
        decreases n - p,
    {
        let ghost before = out@;
        out.push(data[4 * p]);
        out.push(data[4 * p + 1]);
        out.push(data[4 * p + 2]);
        proof {
            assert forall|j: int| 0 <= j < out@.len() implies out@[j] == #[trigger] without_alpha(
                data@,
            )[j] by {
                if j >= 3 * p {
                    assert(j / 3 == p);
                    assert(j % 3 == j - 3 * p);
                }
            }
        }
        p = p + 1;
    }
    assert(out@ =~= without_alpha(data@));
    out
}

/// What encoding an image in a format gives: the file's bytes, or `None`
/// when the encoder refuses the image. JPEG has no alpha channel: RGBA
/// pixels are encoded as their RGB samples.
pub open spec fn encoded(format: EncodingFormat, data: Seq<u8>, width: u32, height: u32, color: ColorType) -> Option<
    Seq<u8>,
> {
    match format {
        EncodingFormat::Png => png_encoding(data, width, height, color),
        EncodingFormat::Jpg => if color == ColorType::Rgba8 {
            jpeg_encoding(without_alpha(data), width, height, ColorType::Rgb8)
        } else {
            jpeg_encoding(data, width, height, color)
        },
        EncodingFormat::Ppm => pnm_encoding(data, width, height, color),
    }
}

/// Encodes the pixels of a frame in the chosen format, giving the bytes of
/// the image file.
pub fn encode_frame(format: EncodingFormat, data: &[u8], width: u32, height: u32, color: ColorType) -> (r: Result<
    Vec<u8>,
    EncodeError,
>)
    requires
        data@.len() == width * height * bytes_per_pixel(color),
    ensures
        match r {
            Ok(b) => encoded(format, data@, width, height, color) == Some(b@),
            Err(_) => encoded(format, data@, width, height, color) is None,
        },
{
    let res = match format {
        EncodingFormat::Png => encode_png(data, width, height, color),
        EncodingFormat::Jpg => {
            if color == ColorType::Rgba8 {
                let rgb = strip_alpha(data);
                assert(data@.len() / 4 * 3 == width * height * 3) by (nonlinear_arith)
                    requires
                        data@.len() == width * height * 4,
                ;
                encode_jpeg(rgb.as_slice(), width, height, ColorType::Rgb8)
            } else {
                encode_jpeg(data, width, height, color)
            }
        },
        EncodingFormat::Ppm => encode_pnm(data, width, height, color),
    };
    match res {
        Ok(b) => Ok(b),
        Err(e) => Err(EncodeError { message: error_message(&e) }),
    }
}

} // verus!
