//! Frames copied from the compositor, and their conversion into images.

use vstd::prelude::*;

use vstd::arithmetic::div_mod::lemma_fundamental_div_mod_converse;

use crate::convert::{create_converter, converted, converter_for, ColorType, Convert, ShmFormat};
use crate::error::Error;
use crate::image_buffer::{
    rgb_bytes, rgb_canvas_dimensions, rgb_canvas_new, rgb_canvas_put_pixel, rgb_canvas_samples,
    rgb_dimensions, rgba_bytes, rgba_canvas_dimensions, rgba_canvas_new, rgba_canvas_samples,
    rgba_canvas_put_pixel, rgba_dimensions, with_pixel, RgbCanvas, RgbaCanvas,
};
use crate::output::Transform;
use crate::region::{LogicalRegion, Size};
use crate::text::{dec_nat, push_u64};

verus! {

/// Type of frame supported by the compositor.
///
/// See `zwlr_screencopy_frame_v1::Event::Buffer` as it's retrieved from there.
#[derive(Debug, Copy, Clone, PartialEq, Eq, Structural)]
pub struct FrameFormat {
    pub format: ShmFormat,
    /// Size of the frame in pixels. This will always be in "landscape" so a
    /// portrait 1080x1920 frame will be 1920x1080 and will need to be rotated!
    pub size: Size,
    /// Stride is the number of bytes between the start of a row and the start of the next row.
    pub stride: u32,
}

/// Type of DMABUF frame supported by the compositor.
///
/// See `zwlr_screencopy_frame_v1::Event::linux_dmabuf` as it's retrieved from there.
#[derive(Debug, Copy, Clone, PartialEq, Eq, Structural)]
pub struct DMAFrameFormat {
    pub format: u32,
    /// Size of the frame in pixels, always in "landscape".
    pub size: Size,
}

impl FrameFormat {
    /// Returns the size of the frame in bytes, which is the stride * height.
    pub fn byte_size(&self) -> (r: u64)
        ensures
            r == self.stride * self.size.height,
    {
        assert(self.stride * self.size.height <= u32::MAX * u32::MAX) by (nonlinear_arith)
            requires
                self.stride <= u32::MAX,
                self.size.height <= u32::MAX,
        ;
        self.stride as u64 * self.size.height as u64
    }
}

/// Width and height of the image that a `w` x `h` frame becomes under a transform.
pub open spec fn shape(t: Transform, w: int, h: int) -> (int, int) {
    if t.is_quarter_turn() {
        (h, w)
    } else {
        (w, h)
    }
}

/// Where, in the image, the pixel at column `col` and row `row` of a
/// `w` x `h` frame goes under a transform.
pub open spec fn dest(t: Transform, w: int, h: int, col: int, row: int) -> (int, int) {
    match t {
        Transform::Normal => (col, row),
        Transform::_90 => (h - row - 1, col),
        Transform::_180 => (w - col - 1, h - row - 1),
        Transform::_270 => (row, w - col - 1),
        Transform::Flipped => (w - col - 1, row),
        Transform::Flipped90 => (row, col),
        Transform::Flipped180 => (col, h - row - 1),
        Transform::Flipped270 => (h - row - 1, w - col - 1),
    }
}

/// Which column and row of a `w` x `h` frame end up at `(x, y)` of the image.
pub open spec fn source(t: Transform, w: int, h: int, x: int, y: int) -> (int, int) {
    match t {
        Transform::Normal => (x, y),
        Transform::_90 => (y, h - 1 - x),
        Transform::_180 => (w - 1 - x, h - 1 - y),
        Transform::_270 => (w - 1 - y, x),
        Transform::Flipped => (w - 1 - x, y),
        Transform::Flipped90 => (y, x),
        Transform::Flipped180 => (x, h - 1 - y),
        Transform::Flipped270 => (w - 1 - y, h - 1 - x),
    }
}

/// Under every transform, the pixels of a frame land inside the image, and
/// each pixel of the image comes from exactly one pixel of the frame: the
/// placement of pixels is a bijection between the frame and the image.
pub proof fn lemma_transform_is_bijection(t: Transform, w: int, h: int)
    ensures
        forall|col: int, row: int|
            0 <= col < w && 0 <= row < h ==> {
                let d = #[trigger] dest(t, w, h, col, row);
                &&& 0 <= d.0 < shape(t, w, h).0
                &&& 0 <= d.1 < shape(t, w, h).1
                &&& source(t, w, h, d.0, d.1) == (col, row)
            },
        forall|x: int, y: int|
            0 <= x < shape(t, w, h).0 && 0 <= y < shape(t, w, h).1 ==> {
                let s = #[trigger] source(t, w, h, x, y);
                &&& 0 <= s.0 < w
                &&& 0 <= s.1 < h
                &&& dest(t, w, h, s.0, s.1) == (x, y)
            },
{
}

/// Index of the frame pixel that is shown at pixel `p` (row-major) of the image.
pub open spec fn source_index(t: Transform, w: int, h: int, p: int) -> int {
    let width = shape(t, w, h).0;
    let s = source(t, w, h, p % width, p / width);
    s.1 * w + s.0
}

/// The samples of the image that the first `count` pixels of a `w` x `h`
/// frame with `channels` samples each make under a transform; pixels of the
/// image that no such frame pixel reaches stay zero.
pub open spec fn placed(t: Transform, w: int, h: int, data: Seq<u8>, channels: int, count: int) -> Seq<u8> {
    let sh = shape(t, w, h);
    Seq::new(
        (sh.0 * sh.1 * channels) as nat,
        |i: int|
            {
                let k = source_index(t, w, h, i / channels);
                if 0 <= k < count {
                    data[k * channels + i % channels]
                } else {
                    0u8
                }
            },
    )
}

/// Frame data copied from the compositor.
#[derive(Debug, Clone)]
pub enum FrameData {
    /// The bytes of a shared memory buffer.
    Memory(Vec<u8>),
}

/// An image made of a frame.
pub enum FrameImage {
    Rgb8(RgbCanvas),
    Rgba8(RgbaCanvas),
}

impl FrameImage {
    /// The width and height of the image.
    pub open spec fn dims(&self) -> (u32, u32) {
        match self {
            FrameImage::Rgb8(c) => rgb_dimensions(*c),
            FrameImage::Rgba8(c) => rgba_dimensions(*c),
        }
    }

    /// The width and height of the image.
    pub fn dimensions(&self) -> (r: (u32, u32))
        ensures
            r == self.dims(),
    {
        match self {
            FrameImage::Rgb8(c) => rgb_canvas_dimensions(c),
            FrameImage::Rgba8(c) => rgba_canvas_dimensions(c),
        }
    }

    /// The samples of the image, row by row.
    pub open spec fn samples_spec(&self) -> Seq<u8> {
        match self {
            FrameImage::Rgb8(c) => rgb_bytes(*c),
            FrameImage::Rgba8(c) => rgba_bytes(*c),
        }
    }

    /// The samples of the image, row by row: three per pixel for RGB8,
    /// four for RGBA8.
    pub fn samples(&self) -> (r: Vec<u8>)
        ensures
            r@ == self.samples_spec(),
    {
        match self {
            FrameImage::Rgb8(c) => rgb_canvas_samples(c),
            FrameImage::Rgba8(c) => rgba_canvas_samples(c),
        }
    }

    /// The width of the image.
    pub fn width(&self) -> (r: u32)
        ensures
            r == self.dims().0,
    {
        self.dimensions().0
    }

    /// The height of the image.
    pub fn height(&self) -> (r: u32)
        ensures
            r == self.dims().1,
    {
        self.dimensions().1
    }
}

/// The copied frame comprising of the FrameFormat, ColorType (Rgba8), and the
/// bytes of the shared memory buffer that holds the image data.
#[derive(Debug, Clone)]
pub struct FrameCopy {
    pub frame_format: FrameFormat,
    pub frame_color_type: ColorType,
    pub frame_data: FrameData,
    pub transform: Transform,
    /// Logical region with the transform already applied.
    pub logical_region: LogicalRegion,
    pub physical_size: Size,
    pub color_converted: bool,
}

impl FrameCopy {
    /// The bytes of the frame.
    pub open spec fn bytes(self) -> Seq<u8> {
        match self.frame_data {
            FrameData::Memory(v) => v@,
        }
    }

    /// Width and height of the frame in pixels.
    pub open spec fn dims(self) -> (int, int) {
        (self.frame_format.size.width as int, self.frame_format.size.height as int)
    }

    /// Whether the image of the frame can be made without a panic: whole
    /// pixels, no more of them than the frame holds, pixel indices that fit
    /// in a `u32`, and a number of samples that fits in `usize`.
    pub open spec fn image_fits(self, channels: int) -> bool {
        let (w, h) = self.dims();
        &&& (self.bytes().len() as int) % channels == 0
        &&& (self.bytes().len() as int) / channels <= w * h
        &&& w * h <= 0x1_0000_0000
        &&& w * h * 4 <= usize::MAX
    }

    /// The bytes of the frame.
    pub fn data(&self) -> (r: &[u8])
        ensures
            r@ == self.bytes(),
    {
        match &self.frame_data {
            FrameData::Memory(v) => v.as_slice(),
        }
    }

    /// Position, in the image, of the frame pixel at `index`.
    pub fn pixel_position(&self, index: usize) -> (r: (u32, u32))
        requires
            index < self.dims().0 * self.dims().1,
            self.dims().0 * self.dims().1 <= 0x1_0000_0000,
        ensures
            (r.0 as int, r.1 as int) == dest(
                self.transform,
                self.dims().0,
                self.dims().1,
                index as int % self.dims().0,
                index as int / self.dims().0,
            ),
    {
        let width = self.frame_format.size.width;
        let height = self.frame_format.size.height;
        proof {
            assert((index as int) / (width as int) < (height as int)) by (nonlinear_arith)
                requires
                    0 <= index < (width as int) * (height as int),
            ;
            assert((index as int) % (width as int) < (width as int)) by (nonlinear_arith)
                requires
                    0 <= index < (width as int) * (height as int),
            ;
        }
        let index = index as u32;
        match self.transform {
            Transform::Normal => (index % width, index / width),
            Transform::_90 => (height - index / width - 1, index % width),
            Transform::_180 => (width - index % width - 1, height - index / width - 1),
            Transform::_270 => (index / width, width - index % width - 1),
            Transform::Flipped => (width - index % width - 1, index / width),
            Transform::Flipped90 => (index / width, index % width),
            Transform::Flipped180 => (index % width, height - index / width - 1),
            Transform::Flipped270 => (height - index / width - 1, width - index % width - 1),
        }
    }

    /// Width and height of the image of the frame.
    pub fn image_shape(&self) -> (r: (u32, u32))
        ensures
            (r.0 as int, r.1 as int) == shape(self.transform, self.dims().0, self.dims().1),
    {
        match self.transform {
            Transform::Normal | Transform::_180 | Transform::Flipped | Transform::Flipped180 => {
                (self.frame_format.size.width, self.frame_format.size.height)
            },
            _ => (self.frame_format.size.height, self.frame_format.size.width),
        }
    }
}

/// Division by a positive number gives the quotient and remainder of any
/// decomposition `q * d + r` with `0 <= r < d`.
proof fn lemma_div_mod_of(x: int, d: int, q: int, r: int)
    requires
        d > 0,
        0 <= r < d,
        x == q * d + r,
    ensures
        x / d == q,
        x % d == r,
{
    lemma_fundamental_div_mod_converse(x, d, q, r);
}

/// A pixel index below `w * h` has a column below `w` and a row below `h`.
proof fn lemma_index_in_grid(p: int, w: int, h: int)
    requires
        w > 0,
        0 <= p < w * h,
    ensures
        0 <= p % w < w,
        0 <= p / w < h,
        p == (p / w) * w + p % w,
{
    assert(0 <= p / w < h) by (nonlinear_arith)
        requires
            w > 0,
            0 <= p < w * h,
    ;
    assert(p == (p / w) * w + p % w) by (nonlinear_arith)
        requires
            w > 0,
    ;
}

/// Writing frame pixel `j` where the transform sends it extends the image of
/// the first `j` pixels to that of the first `j + 1`.
proof fn lemma_place_step(t: Transform, w: int, h: int, data: Seq<u8>, c: int, j: int)
    requires
        w > 0,
        h > 0,
        0 <= j < w * h,
        1 <= c <= 4,
        data.len() >= (j + 1) * c,
        w <= u32::MAX,
        h <= u32::MAX,
    ensures
        ({
            let sh = shape(t, w, h);
            let d = dest(t, w, h, j % w, j / w);
            with_pixel(
                placed(t, w, h, data, c, j),
                sh.0 as u32,
                c as nat,
                d.0 as u32,
                d.1 as u32,
                data.subrange(j * c, j * c + c),
            ) == placed(t, w, h, data, c, j + 1)
        }),
{
    let sh = shape(t, w, h);
    let bw = sh.0;
    let bh = sh.1;
    lemma_index_in_grid(j, w, h);
    let col = j % w;
    let row = j / w;
    let d = dest(t, w, h, col, row);
    lemma_transform_is_bijection(t, w, h);
    assert(0 <= d.0 < bw && 0 <= d.1 < bh);
    assert(source(t, w, h, d.0, d.1) == (col, row));
    assert(bw * bh == w * h) by (nonlinear_arith)
        requires
            (bw == w && bh == h) || (bw == h && bh == w),
    ;
    assert((j + 1) * c == j * c + c) by (nonlinear_arith);
    assert(0 <= j * c) by (nonlinear_arith)
        requires
            0 <= j,
            0 <= c,
    ;
    let base = (d.1 * bw + d.0) * c;
    let before = placed(t, w, h, data, c, j);
    let after = placed(t, w, h, data, c, j + 1);
    let px = data.subrange(j * c, j * c + c);
    let written = with_pixel(before, bw as u32, c as nat, d.0 as u32, d.1 as u32, px);
    assert(written.len() == after.len());
    assert forall|i: int| 0 <= i < after.len() implies #[trigger] written[i] == after[i] by {
        assert(0 <= i < bw * bh * c);
        let p = i / c;
        assert(0 <= i % c < c);
        assert(i == p * c + i % c) by (nonlinear_arith)
            requires
                c > 0,
                p == i / c,
        ;
        assert(0 <= p < bw * bh) by (nonlinear_arith)
            requires
                c > 0,
                p == i / c,
                0 <= i < bw * bh * c,
        ;
        lemma_index_in_grid(p, bw, bh);
        let s = source(t, w, h, p % bw, p / bw);
        assert(0 <= s.0 < w && 0 <= s.1 < h);
        assert(dest(t, w, h, s.0, s.1) == (p % bw, p / bw));
        let k = s.1 * w + s.0;
        assert(source_index(t, w, h, p) == k);
        if base <= i < base + c {
            lemma_div_mod_of(i, c, d.1 * bw + d.0, i - base);
            assert(p == d.1 * bw + d.0);
            lemma_div_mod_of(p, bw, d.1, d.0);
            assert(s == (col, row));
            assert(k == j);
            assert(written[i] == px[i - base]);
            assert(i % c == i - base);
            assert(px[i - base] == data[j * c + i % c]);
        } else {
            if k == j {
                lemma_div_mod_of(j, w, s.1, s.0);
                assert(s == (col, row));
                assert((p % bw, p / bw) == d);
                assert(p == d.1 * bw + d.0);
                assert(base <= i < base + c) by (nonlinear_arith)
                    requires
                        base == p * c,
                        i == p * c + i % c,
                        0 <= i % c < c,
                ;
            }
            assert(k != j);
            assert(written[i] == before[i]);
        }
    }
    assert(written =~= after);
}

impl FrameCopy {
    /// An RGBA image of the frame: each four bytes of the frame form one pixel,
    /// placed where the transform sends it.
    fn allocate_image_rgba8(&self) -> (r: RgbaCanvas)
        requires
            self.image_fits(4),
        ensures
            (rgba_dimensions(r).0 as int, rgba_dimensions(r).1 as int) == shape(
                self.transform,
                self.dims().0,
                self.dims().1,
            ),
            rgba_bytes(r) == placed(
                self.transform,
                self.dims().0,
                self.dims().1,
                self.bytes(),
                4,
                self.bytes().len() as int / 4,
            ),
    {
        let (width, height) = self.image_shape();
        let ghost w = self.dims().0;
        let ghost h = self.dims().1;
        assert(width * height == w * h) by (nonlinear_arith)
            requires
                (width == w && height == h) || (width == h && height == w),
        ;
        let mut img = rgba_canvas_new(width, height);
        let data = self.data();
        let n = data.len() / 4;
        assert(rgba_bytes(img) =~= placed(self.transform, w, h, data@, 4, 0));
        let mut index: usize = 0;
        while index < n
            invariant
                self.image_fits(4),
                data@ == self.bytes(),
                n == data@.len() / 4,
                0 <= index <= n,
                w == self.dims().0,
                h == self.dims().1,
                (width as int, height as int) == shape(self.transform, w, h),
                rgba_dimensions(img) == (width, height),
                rgba_bytes(img) == placed(self.transform, w, h, data@, 4, index as int),
            decreases n - index,
        {
            assert(index < w * h);
            assert((index as int + 1) * 4 <= data@.len());
            let r = data[4 * index];
            let g = data[4 * index + 1];
            let b = data[4 * index + 2];
            let a = data[4 * index + 3];
            let (x, y) = self.pixel_position(index);
            proof {
                assert(w > 0) by (nonlinear_arith)
                    requires
                        0 <= index < w * h,
                        0 <= w,
                        0 <= h,
                ;
                lemma_transform_is_bijection(self.transform, w, h);
                lemma_index_in_grid(index as int, w, h);
            }
            let px: [u8; 4] = [r, g, b, a];
            rgba_canvas_put_pixel(&mut img, x, y, px);
            proof {
                lemma_place_step(self.transform, w, h, data@, 4, index as int);
                assert(px@ =~= data@.subrange(index * 4, index * 4 + 4));
            }
            index = index + 1;
        }
        img
    }

    /// An RGB image of the frame: each three bytes of the frame form one pixel,
    /// placed where the transform sends it.
    fn allocate_image_rgb8(&self) -> (r: RgbCanvas)
        requires
            self.image_fits(3),
        ensures
            (rgb_dimensions(r).0 as int, rgb_dimensions(r).1 as int) == shape(
                self.transform,
                self.dims().0,
                self.dims().1,
            ),
            rgb_bytes(r) == placed(
                self.transform,
                self.dims().0,
                self.dims().1,
                self.bytes(),
                3,
                self.bytes().len() as int / 3,
            ),
    {
        let (width, height) = self.image_shape();
        let ghost w = self.dims().0;
        let ghost h = self.dims().1;
        assert(width * height == w * h) by (nonlinear_arith)
            requires
                (width == w && height == h) || (width == h && height == w),
        ;
        let mut img = rgb_canvas_new(width, height);
        let data = self.data();
        let n = data.len() / 3;
        assert(rgb_bytes(img) =~= placed(self.transform, w, h, data@, 3, 0));
        let mut index: usize = 0;
        while index < n
            invariant
                self.image_fits(3),
                data@ == self.bytes(),
                n == data@.len() / 3,
                0 <= index <= n,
                w == self.dims().0,
                h == self.dims().1,
                (width as int, height as int) == shape(self.transform, w, h),
                rgb_dimensions(img) == (width, height),
                rgb_bytes(img) == placed(self.transform, w, h, data@, 3, index as int),
            decreases n - index,
        {
            assert(index < w * h);
            assert((index as int + 1) * 3 <= data@.len());
            let r = data[3 * index];
            let g = data[3 * index + 1];
            let b = data[3 * index + 2];
            let (x, y) = self.pixel_position(index);
            proof {
                assert(w > 0) by (nonlinear_arith)
                    requires
                        0 <= index < w * h,
                        0 <= w,
                        0 <= h,
                ;
                lemma_transform_is_bijection(self.transform, w, h);
                lemma_index_in_grid(index as int, w, h);
            }
            let px: [u8; 3] = [r, g, b];
            rgb_canvas_put_pixel(&mut img, x, y, px);
            proof {
                lemma_place_step(self.transform, w, h, data@, 3, index as int);
                assert(px@ =~= data@.subrange(index * 3, index * 3 + 3));
            }
            index = index + 1;
        }
        img
    }
}

/// What `FrameCopy::convert_color_inplace` does: a frame already converted
/// reports its colour type and stays as it is; otherwise the converter of its
/// format converts its bytes and the frame records the new colour type, and
/// a format without a converter is refused, the frame untouched.
pub open spec fn conversion_step(before: FrameCopy, r: Result<ColorType, Error>, after: FrameCopy) -> bool {
    if before.color_converted {
        r == Ok::<ColorType, Error>(before.frame_color_type) && after == before
    } else {
        match converter_for(before.frame_format.format) {
            None => r == Err::<ColorType, Error>(Error::NoSupportedBufferFormat) && after == before,
            Some(c) => {
                let (ct, bytes) = converted(c, before.bytes());
                &&& r == Ok::<ColorType, Error>(ct)
                &&& after.bytes() == bytes
                &&& after.frame_color_type == ct
                &&& after.color_converted
                &&& after.frame_format == before.frame_format
                &&& after.transform == before.transform
                &&& after.logical_region == before.logical_region
                &&& after.physical_size == before.physical_size
            },
        }
    }
}

/// What `FrameCopy::convert_color_inplace` returns for a frame.
pub open spec fn conversion_result(fc: FrameCopy) -> Result<ColorType, Error> {
    if fc.color_converted {
        Ok(fc.frame_color_type)
    } else {
        match converter_for(fc.frame_format.format) {
            Some(c) => Ok(converted(c, fc.bytes()).0),
            None => Err(Error::NoSupportedBufferFormat),
        }
    }
}

/// The colour type a frame has once converted.
pub open spec fn converted_color(fc: FrameCopy) -> ColorType {
    if fc.color_converted {
        fc.frame_color_type
    } else {
        match converter_for(fc.frame_format.format) {
            Some(c) => converted(c, fc.bytes()).0,
            None => fc.frame_color_type,
        }
    }
}

/// Whether an image of the given colour type can be made of a frame without a panic.
pub open spec fn image_fits_color(fc: FrameCopy, ct: ColorType) -> bool {
    &&& ct == ColorType::Rgba8 ==> fc.image_fits(4)
    &&& ct == ColorType::Rgb8 ==> fc.image_fits(3)
}

/// Whether an image holds what `FrameCopy::allocate_image` makes of a frame.
pub open spec fn image_of(fc: FrameCopy, img: FrameImage) -> bool {
    let (w, h) = fc.dims();
    match img {
        FrameImage::Rgba8(c) => {
            &&& fc.frame_color_type == ColorType::Rgba8
            &&& (rgba_dimensions(c).0 as int, rgba_dimensions(c).1 as int) == shape(fc.transform, w, h)
            &&& rgba_bytes(c) == placed(fc.transform, w, h, fc.bytes(), 4, fc.bytes().len() as int / 4)
        },
        FrameImage::Rgb8(c) => {
            &&& fc.frame_color_type == ColorType::Rgb8
            &&& (rgb_dimensions(c).0 as int, rgb_dimensions(c).1 as int) == shape(fc.transform, w, h)
            &&& rgb_bytes(c) == placed(fc.transform, w, h, fc.bytes(), 3, fc.bytes().len() as int / 3)
        },
    }
}

/// The outcome of making an image of a frame: an image of the frame for the
/// RGB8 and RGBA8 colour types, `InvalidColor` for any other.
pub open spec fn image_result(fc: FrameCopy, r: Result<FrameImage, Error>) -> bool {
    if fc.frame_color_type == ColorType::Rgba8 || fc.frame_color_type == ColorType::Rgb8 {
        r matches Ok(img) && image_of(fc, img)
    } else {
        r == Err::<FrameImage, Error>(Error::InvalidColor)
    }
}

/// Converting the colours of a frame a second time changes nothing: once a
/// conversion succeeded, the next one reports the same colour type and leaves
/// the frame as it was.
pub proof fn lemma_color_conversion_idempotent(
    a: FrameCopy,
    c: ColorType,
    b: FrameCopy,
    r2: Result<ColorType, Error>,
    b2: FrameCopy,
)
    requires
        conversion_step(a, Ok(c), b),
        conversion_step(b, r2, b2),
    ensures
        r2 == Ok::<ColorType, Error>(c),
        b2 == b,
        b.frame_color_type == c,
{
}

impl FrameCopy {
    /// Convert the bytes of the frame to the colour layout of an image, once.
    pub fn convert_color_inplace(&mut self) -> (r: Result<ColorType, Error>)
        ensures
            conversion_step(*old(self), r, *final(self)),
    {
        if self.color_converted {
            return Ok(self.frame_color_type);
        }
        let frame_color_type = match create_converter(self.frame_format.format) {
            Some(converter) => {
                match &mut self.frame_data {
                    FrameData::Memory(raw) => converter.convert_inplace(raw.as_mut_slice()),
                }
            },
            None => {
                return Err(Error::NoSupportedBufferFormat);
            },
        };
        self.frame_color_type = frame_color_type;
        self.color_converted = true;
        Ok(frame_color_type)
    }

    /// Whether an image of the frame's colour type can be made of it without
    /// a panic: see `image_fits`.
    pub fn can_allocate_image(&self) -> (r: bool)
        ensures
            r == image_fits_color(*self, self.frame_color_type),
    {
        let channels: u64 = match self.frame_color_type {
            ColorType::Rgba8 => 4,
            ColorType::Rgb8 => 3,
            _ => {
                return true;
            },
        };
        let len = self.data().len() as u64;
        let w = self.frame_format.size.width as u64;
        let h = self.frame_format.size.height as u64;
        assert(w * h <= 0xffff_ffff * 0xffff_ffff) by (nonlinear_arith)
            requires
                w <= 0xffff_ffff,
                h <= 0xffff_ffff,
        ;
        let pixels: u64 = w * h;
        if pixels > 0x1_0000_0000 {
            return false;
        }
        let samples: u64 = pixels * 4;
        samples as u128 <= usize::MAX as u128 && len % channels == 0 && len / channels <= pixels
    }

    /// An image of the frame, for the RGB8 and RGBA8 colour types.
    pub fn allocate_image(&self) -> (r: Result<FrameImage, Error>)
        requires
            image_fits_color(*self, self.frame_color_type),
        ensures
            image_result(*self, r),
    {
        match self.frame_color_type {
            ColorType::Rgb8 => Ok(FrameImage::Rgb8(self.allocate_image_rgb8())),
            ColorType::Rgba8 => Ok(FrameImage::Rgba8(self.allocate_image_rgba8())),
            _ => Err(Error::InvalidColor),
        }
    }

    /// Converts the colours of the frame, then makes an image of it.
    pub fn get_image(&mut self) -> (r: Result<FrameImage, Error>)
        requires
            image_fits_color(*old(self), converted_color(*old(self))),
        ensures
            conversion_step(*old(self), conversion_result(*old(self)), *final(self)),
            conversion_result(*old(self)) matches Err(e) ==> r == Err::<FrameImage, Error>(e),
            conversion_result(*old(self)) is Ok ==> image_result(*final(self), r),
    {
        let c = self.convert_color_inplace();
        match c {
            Err(e) => Err(e),
            Ok(_) => self.allocate_image(),
        }
    }
}

/// The name of the shared memory file of a capture: `/libwayshot-` and the
/// nanoseconds of the current second, or `unknown` when the clock could
/// not be read.
pub open spec fn mem_file_handle(nanos: Option<u32>) -> Seq<char> {
    match nanos {
        Some(n) => "/libwayshot-"@ + dec_nat(n as nat),
        None => "/libwayshot-unknown"@,
    }
}

/// The name of the shared memory file of a capture, from the nanoseconds of
/// the current second (`None` when the clock is before the Unix epoch).
pub fn get_mem_file_handle(nanos: Option<u32>) -> (r: String)
    ensures
        r@ == mem_file_handle(nanos),
{
    let mut s = String::new();
    match nanos {
        Some(n) => {
            s.append("/libwayshot-");
            push_u64(&mut s, n as u64);
        },
        None => s.append("/libwayshot-unknown"),
    }
    s
}

/// The placements are the rotations and reflections they are named after,
/// for every frame size and pixel:
/// - `Normal` leaves each pixel where it is;
/// - `_180` reflects a pixel through the centre of the frame;
/// - `_90` sends frame column `col` to image row `col`, and frame row `row`
///   to image column `h - 1 - row`: a quarter turn;
/// - turning by `_90` twice is `_180`, and `_90` after `_180` is `_270`, so
///   no plain rotation mirrors the image;
/// - `Flipped` mirrors the columns and keeps the rows;
/// - each flipped rotation is the rotation, then `Flipped` on the turned
///   image.
pub proof fn lemma_transforms_are_rotations_and_flips(w: int, h: int, col: int, row: int)
    ensures
        dest(Transform::Normal, w, h, col, row) == (col, row),
        dest(Transform::_180, w, h, col, row) == (w - 1 - col, h - 1 - row),
        dest(Transform::_90, w, h, col, row).1 == col,
        dest(Transform::_90, w, h, col, row).0 == h - 1 - row,
        ({
            let q = dest(Transform::_90, w, h, col, row);
            dest(Transform::_90, h, w, q.0, q.1) == dest(Transform::_180, w, h, col, row)
        }),
        ({
            let q = dest(Transform::_180, w, h, col, row);
            dest(Transform::_90, w, h, q.0, q.1) == dest(Transform::_270, w, h, col, row)
        }),
        dest(Transform::Flipped, w, h, col, row) == (w - 1 - col, row),
        ({
            let q = dest(Transform::_90, w, h, col, row);
            dest(Transform::Flipped90, w, h, col, row) == dest(Transform::Flipped, h, w, q.0, q.1)
        }),
        ({
            let q = dest(Transform::_180, w, h, col, row);
            dest(Transform::Flipped180, w, h, col, row) == dest(Transform::Flipped, w, h, q.0, q.1)
        }),
        ({
            let q = dest(Transform::_270, w, h, col, row);
            dest(Transform::Flipped270, w, h, col, row) == dest(Transform::Flipped, h, w, q.0, q.1)
        }),
{
}

} // verus!
