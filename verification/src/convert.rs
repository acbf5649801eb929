//! Conversion of raw frame bytes from the compositor's pixel formats into
//! the byte layout of RGB(A) images.

use vstd::prelude::*;

verus! {

/// Colour type of image bytes, as the image library names them.
#[derive(Debug, Copy, Clone, PartialEq, Eq, Hash, Structural)]
pub enum ColorType {
    L8,
    La8,
    Rgb8,
    Rgba8,
    L16,
    La16,
    Rgb16,
    Rgba16,
    Rgb32F,
    Rgba32F,
}

/// Pixel format of a shared memory buffer, as the compositor advertises it.
/// Formats that the library does not distinguish carry their wire code.
#[derive(Debug, Copy, Clone, PartialEq, Eq, Hash, Structural)]
pub enum ShmFormat {
    Argb8888,
    Xrgb8888,
    Abgr8888,
    Xbgr8888,
    Argb2101010,
    Xrgb2101010,
    Abgr2101010,
    Xbgr2101010,
    Bgr888,
    Rgb565,
    Other(u32),
}

/// Converter from a pixel format to image bytes, working in place.
#[derive(Debug, Copy, Clone, PartialEq, Eq, Structural)]
pub enum Converter {
    /// The bytes already are RGBA8.
    ConvertNone,
    /// Little-endian ARGB/XRGB: red and blue trade places.
    ConvertRGB8,
    /// 10 bits per channel, reduced to 8.
    ConvertBGR10,
    /// The bytes already are RGB8.
    ConvertBGR8,
}

/// Converter from a pixel format to image bytes, writing a new buffer.
#[derive(Debug, Copy, Clone, PartialEq, Eq, Structural)]
pub enum CopyConverter {
    /// 16-bit RGB 5:6:5, expanded to RGBA8.
    ConvertRGB565,
}

/// Number of bytes covered by whole chunks of `k` bytes.
pub open spec fn whole_chunks(len: nat, k: nat) -> nat
    recommends
        k > 0,
{
    (len / k * k) as nat
}

/// Red and blue swapped in every whole chunk of four bytes; trailing bytes untouched.
pub open spec fn rgb8_swapped(s: Seq<u8>) -> Seq<u8> {
    Seq::new(
        s.len(),
        |i: int|
            if i < whole_chunks(s.len(), 4) {
                if i % 4 == 0 {
                    s[i + 2]
                } else if i % 4 == 2 {
                    s[i - 2]
                } else {
                    s[i]
                }
            } else {
                s[i]
            },
    )
}

/// The 32-bit little-endian value of four bytes.
pub open spec fn le_u32(b0: u8, b1: u8, b2: u8, b3: u8) -> nat {
    (b0 + 0x100 * b1 + 0x1_0000 * b2 + 0x100_0000 * b3) as nat
}

/// The top eight bits of a 10-bit channel that starts at bit `shift` of a pixel.
pub open spec fn channel10_to_8(pixel: nat, shift: nat) -> u8 {
    ((pixel / vstd::arithmetic::power2::pow2(shift + 2)) % 0x100) as u8
}

/// Byte `k` (0 to 3) of the RGBA8 pixel that a 2:10:10:10 little-endian pixel
/// becomes: the channels at bits 0, 10 and 20, then an opaque alpha.
pub open spec fn bgr10_byte(b0: u8, b1: u8, b2: u8, b3: u8, k: int) -> u8 {
    let p = le_u32(b0, b1, b2, b3);
    if k == 0 {
        channel10_to_8(p, 0)
    } else if k == 1 {
        channel10_to_8(p, 10)
    } else if k == 2 {
        channel10_to_8(p, 20)
    } else {
        255
    }
}

/// Every whole chunk of four bytes converted from 2:10:10:10 to RGBA8.
pub open spec fn bgr10_converted(s: Seq<u8>) -> Seq<u8> {
    Seq::new(
        s.len(),
        |i: int|
            if i < whole_chunks(s.len(), 4) {
                let b = i - i % 4;
                bgr10_byte(s[b], s[b + 1], s[b + 2], s[b + 3], i % 4)
            } else {
                s[i]
            },
    )
}

/// A 5-bit channel widened to 8 bits by repeating its top bits.
pub open spec fn expand5(x: nat) -> u8 {
    (x * 8 + x / 4) as u8
}

/// A 6-bit channel widened to 8 bits by repeating its top bits.
pub open spec fn expand6(x: nat) -> u8 {
    (x * 4 + x / 16) as u8
}

/// Byte `k` (0 to 3) of the RGBA8 pixel that a little-endian RGB565 pixel becomes.
pub open spec fn rgb565_byte(lo: u8, hi: u8, k: int) -> u8 {
    let v = lo + 0x100 * hi;
    if k == 0 {
        expand5((v / 2048) as nat)
    } else if k == 1 {
        expand6(((v / 32) % 64) as nat)
    } else if k == 2 {
        expand5((v % 32) as nat)
    } else {
        255
    }
}

/// Every whole chunk of two bytes expanded from RGB565 to four RGBA8 bytes.
pub open spec fn rgb565_converted(s: Seq<u8>) -> Seq<u8> {
    Seq::new(
        s.len() / 2 * 4,
        |i: int|
            {
                let p = i / 4;
                rgb565_byte(s[2 * p], s[2 * p + 1], i % 4)
            },
    )
}

/// Simple conversion from 10 to 8 bits for one channel: bits 2 to 9 of `color`.
pub fn convert10_to_8(color: u32) -> (r: u8)
    ensures
        r as nat == (color as nat / 4) % 256,
{
    assert(((color >> 2u32) & 255u32) == (color / 4) % 256) by (bit_vector);
    ((color >> 2u32) & 255u32) as u8
}

/// What a converter does to a buffer: the colour type it reports and the new bytes.
pub open spec fn converted(c: Converter, s: Seq<u8>) -> (ColorType, Seq<u8>) {
    match c {
        Converter::ConvertNone => (ColorType::Rgba8, s),
        Converter::ConvertRGB8 => (ColorType::Rgba8, rgb8_swapped(s)),
        Converter::ConvertBGR10 => (ColorType::Rgba8, bgr10_converted(s)),
        Converter::ConvertBGR8 => (ColorType::Rgb8, s),
    }
}

/// The converter for a pixel format, if the library can convert it.
pub open spec fn converter_for(format: ShmFormat) -> Option<Converter> {
    match format {
        ShmFormat::Xbgr8888 | ShmFormat::Abgr8888 => Some(Converter::ConvertNone),
        ShmFormat::Xrgb8888 | ShmFormat::Argb8888 => Some(Converter::ConvertRGB8),
        ShmFormat::Xbgr2101010 | ShmFormat::Abgr2101010 => Some(Converter::ConvertBGR10),
        ShmFormat::Bgr888 => Some(Converter::ConvertBGR8),
        _ => None,
    }
}

/// Creates format converter based of input format, return None if conversion
/// isn't possible. Conversion is happening inplace.
pub fn create_converter(format: ShmFormat) -> (r: Option<Converter>)
    ensures
        r == converter_for(format),
{
    match format {
        ShmFormat::Xbgr8888 | ShmFormat::Abgr8888 => Some(Converter::ConvertNone),
        ShmFormat::Xrgb8888 | ShmFormat::Argb8888 => Some(Converter::ConvertRGB8),
        ShmFormat::Xbgr2101010 | ShmFormat::Abgr2101010 => Some(Converter::ConvertBGR10),
        ShmFormat::Bgr888 => Some(Converter::ConvertBGR8),
        _ => None,
    }
}

/// The in-place converter of the command line tool for a pixel format: it
/// converts the 8-bit and 10-bit four-byte formats.
pub open spec fn in_place_converter_for(format: ShmFormat) -> Option<Converter> {
    match format {
        ShmFormat::Xbgr8888 | ShmFormat::Abgr8888 => Some(Converter::ConvertNone),
        ShmFormat::Xrgb8888 | ShmFormat::Argb8888 => Some(Converter::ConvertRGB8),
        ShmFormat::Xbgr2101010 | ShmFormat::Abgr2101010 => Some(Converter::ConvertBGR10),
        _ => None,
    }
}

/// Creates an in-place format converter for the command line tool, None if
/// conversion isn't possible in place.
pub fn create_in_place_converter(format: ShmFormat) -> (r: Option<Converter>)
    ensures
        r == in_place_converter_for(format),
{
    match format {
        ShmFormat::Xbgr8888 | ShmFormat::Abgr8888 => Some(Converter::ConvertNone),
        ShmFormat::Xrgb8888 | ShmFormat::Argb8888 => Some(Converter::ConvertRGB8),
        ShmFormat::Xbgr2101010 | ShmFormat::Abgr2101010 => Some(Converter::ConvertBGR10),
        _ => None,
    }
}

/// Creates a copying format converter, None if the format has none.
pub fn create_copy_converter(format: ShmFormat) -> (r: Option<CopyConverter>)
    ensures
        r == (if format == ShmFormat::Rgb565 { Some(CopyConverter::ConvertRGB565) } else { None }),
{
    match format {
        ShmFormat::Rgb565 => Some(CopyConverter::ConvertRGB565),
        _ => None,
    }
}

/// Conversion of raw image data, in place.
pub trait Convert {
    /// What the conversion reports and leaves in the buffer.
    spec fn convert_spec(&self, data: Seq<u8>) -> (ColorType, Seq<u8>);

    /// Convert raw image data into output type, return said type.
    fn convert_inplace(&self, data: &mut [u8]) -> (c: ColorType)
        ensures
            (c, final(data)@) == self.convert_spec(old(data)@),
    ;
}

/// Conversion of raw image data, in place (the command line tool's name for it).
pub trait ConvertInPlace {
    /// What the conversion reports and leaves in the buffer.
    spec fn convert_in_place_spec(&self, data: Seq<u8>) -> (ColorType, Seq<u8>);

    /// Convert raw image data into output type, return said type.
    fn convert_in_place(&self, data: &mut [u8]) -> (c: ColorType)
        ensures
            (c, final(data)@) == self.convert_in_place_spec(old(data)@),
    ;
}

/// Conversion of raw image data into a new buffer.
pub trait ConvertCopy {
    /// What the conversion reports and returns.
    spec fn convert_copy_spec(&self, data: Seq<u8>) -> (ColorType, Seq<u8>);

    /// Convert raw image data into output type, return said type and the new bytes.
    fn convert_copy(&self, data: &[u8]) -> (r: (ColorType, Vec<u8>))
        ensures
            (r.0, r.1@) == self.convert_copy_spec(data@),
    ;
}

fn swap_rgb8(data: &mut [u8])
    ensures
        final(data)@ == rgb8_swapped(old(data)@),
{
    let n = data.len();
    let ghost s = data@;
    let end = n / 4 * 4;
    let mut i: usize = 0;
    while i < end
        invariant
            i % 4 == 0,
            i <= end,
            end == whole_chunks(s.len(), 4),
            n == s.len(),
            data@.len() == n,
            forall|j: int| 0 <= j < i ==> data@[j] == #[trigger] rgb8_swapped(s)[j],
            forall|j: int| i <= j < n ==> data@[j] == s[j],
        decreases end - i,
    {
        let t = data[i];
        data[i] = data[i + 2];
        data[i + 2] = t;
        i = i + 4;
    }
    assert(data@ =~= rgb8_swapped(s));
}

proof fn lemma_le_u32(b0: u8, b1: u8, b2: u8, b3: u8)
    ensures
        ((b3 as u32) << 24u32) | ((b2 as u32) << 16u32) | ((b1 as u32) << 8u32) | (b0 as u32)
            == le_u32(b0, b1, b2, b3),
{
    assert(((b3 as u32) << 24u32) | ((b2 as u32) << 16u32) | ((b1 as u32) << 8u32) | (b0 as u32)
        == b0 + 0x100 * b1 + 0x1_0000 * b2 + 0x100_0000 * b3) by (bit_vector);
}

proof fn lemma_shift_div(p: u32)
    ensures
        (p >> 20u32) as nat / 4 == p as nat / vstd::arithmetic::power2::pow2(22),
        (p >> 10u32) as nat / 4 == p as nat / vstd::arithmetic::power2::pow2(12),
        p as nat / 4 == p as nat / vstd::arithmetic::power2::pow2(2),
{
    vstd::arithmetic::power2::lemma2_to64();
    vstd::arithmetic::power2::lemma2_to64_rest();
    assert((p >> 20u32) / 4 == p / 0x40_0000) by (bit_vector);
    assert((p >> 10u32) / 4 == p / 0x1000) by (bit_vector);
}

fn convert_bgr10(data: &mut [u8])
    ensures
        final(data)@ == bgr10_converted(old(data)@),
{
    let n = data.len();
    let ghost s = data@;
    let end = n / 4 * 4;
    let mut i: usize = 0;
    while i < end
        invariant
            i % 4 == 0,
            i <= end,
            end == whole_chunks(s.len(), 4),
            n == s.len(),
            data@.len() == n,
            forall|j: int| 0 <= j < i ==> data@[j] == #[trigger] bgr10_converted(s)[j],
            forall|j: int| i <= j < n ==> data@[j] == s[j],
        decreases end - i,
    {
        let pixel: u32 = ((data[i + 3] as u32) << 24u32) | ((data[i + 2] as u32) << 16u32) | ((
        data[i + 1] as u32) << 8u32) | data[i] as u32;
        proof {
            lemma_le_u32(s[i as int], s[i + 1], s[i + 2], s[i + 3]);
            lemma_shift_div(pixel);
        }
        let r = convert10_to_8(pixel >> 20u32);
        let g = convert10_to_8(pixel >> 10u32);
        let b = convert10_to_8(pixel);
        proof {
            let p = le_u32(s[i as int], s[i + 1], s[i + 2], s[i + 3]);
            assert(pixel as nat == p);
            assert(b == bgr10_byte(s[i as int], s[i + 1], s[i + 2], s[i + 3], 0));
            assert(g == bgr10_byte(s[i as int], s[i + 1], s[i + 2], s[i + 3], 1));
            assert(r == bgr10_byte(s[i as int], s[i + 1], s[i + 2], s[i + 3], 2));
        }
        data[i] = b;
        data[i + 1] = g;
        data[i + 2] = r;
        data[i + 3] = 255;
        proof {
            assert forall|j: int| i <= j < i + 4 implies data@[j] == #[trigger] bgr10_converted(
                s,
            )[j] by {
                assert(j - j % 4 == i);
            }
        }
        i = i + 4;
    }
    assert(data@ =~= bgr10_converted(s));
}

impl Convert for Converter {
    open spec fn convert_spec(&self, data: Seq<u8>) -> (ColorType, Seq<u8>) {
        converted(*self, data)
    }

    fn convert_inplace(&self, data: &mut [u8]) -> (c: ColorType) {
        match self {
            Converter::ConvertNone => ColorType::Rgba8,
            Converter::ConvertRGB8 => {
                swap_rgb8(data);
                ColorType::Rgba8
            },
            Converter::ConvertBGR10 => {
                convert_bgr10(data);
                ColorType::Rgba8
            },
            Converter::ConvertBGR8 => ColorType::Rgb8,
        }
    }
}

impl ConvertInPlace for Converter {
    open spec fn convert_in_place_spec(&self, data: Seq<u8>) -> (ColorType, Seq<u8>) {
        converted(*self, data)
    }

    fn convert_in_place(&self, data: &mut [u8]) -> (c: ColorType) {
        self.convert_inplace(data)
    }
}

impl ConvertCopy for CopyConverter {
    open spec fn convert_copy_spec(&self, data: Seq<u8>) -> (ColorType, Seq<u8>) {
        (ColorType::Rgba8, rgb565_converted(data))
    }

    fn convert_copy(&self, data: &[u8]) -> (r: (ColorType, Vec<u8>)) {
        let n = data.len();
        let mut out: Vec<u8> = Vec::new();
        let mut i: usize = 0;
        while n - i >= 2
            invariant
                n == data@.len(),
                i % 2 == 0,
                i <= n,
                out@.len() == i / 2 * 4,
                forall|j: int| 0 <= j < out@.len() ==> out@[j] == #[trigger] rgb565_converted(data@)[j],
            decreases n - i,
        {
            let lo = data[i];
            let hi = data[i + 1];
            let src: u16 = ((hi as u16) << 8u16) | (lo as u16);
            assert(((src >> 11u16) & 0x1f) < 32 && ((src >> 5u16) & 0x3f) < 64 && (src & 0x1f) < 32) by (bit_vector);
            let r5: u8 = ((src >> 11u16) & 0x1f) as u8;
            let g6: u8 = ((src >> 5u16) & 0x3f) as u8;
            let b5: u8 = (src & 0x1f) as u8;
            proof {
                assert((((hi as u16) << 8u16) | (lo as u16)) == lo + 0x100 * hi) by (bit_vector);
                assert(((src >> 11u16) & 0x1f) == src / 2048) by (bit_vector);
                assert(((src >> 5u16) & 0x3f) == (src / 32) % 64) by (bit_vector);
                assert((src & 0x1f) == src % 32) by (bit_vector);
                assert(r5 < 32 && g6 < 64 && b5 < 32);
                assert(forall|x: u8| x < 32 ==> ((x << 3u8) | (x >> 2u8)) == x * 8 + x / 4) by (bit_vector);
                assert(forall|x: u8| x < 64 ==> ((x << 2u8) | (x >> 4u8)) == x * 4 + x / 16) by (bit_vector);
            }
            let r8: u8 = (r5 << 3u8) | (r5 >> 2u8);
            let g8: u8 = (g6 << 2u8) | (g6 >> 4u8);
            let b8: u8 = (b5 << 3u8) | (b5 >> 2u8);
            let ghost p = i / 2;
            out.push(r8);
            out.push(g8);
            out.push(b8);
            out.push(255);
            proof {
                assert forall|j: int| 0 <= j < out@.len() implies out@[j] == #[trigger] rgb565_converted(
                    data@,
                )[j] by {
                    if j >= p * 4 {
                        assert(j / 4 == p);
                        assert(j % 4 == j - p * 4);
                    }
                }
            }
            i = i + 2;
        }
        assert(out@ =~= rgb565_converted(data@));
        (ColorType::Rgba8, out)
    }
}

/// Swapping red and blue undoes itself: converting an ARGB/XRGB buffer twice
/// gives back the bytes it started from.
pub proof fn lemma_rgb8_swap_involution(s: Seq<u8>)
    ensures
        rgb8_swapped(rgb8_swapped(s)) == s,
{
    let t = rgb8_swapped(s);
    assert forall|i: int| 0 <= i < s.len() implies #[trigger] rgb8_swapped(t)[i] == s[i] by {
        if i < whole_chunks(s.len(), 4) {
            if i % 4 == 0 {
                assert(t[i + 2] == s[i]);
            } else if i % 4 == 2 {
                assert(t[i - 2] == s[i]);
            }
        }
    }
    assert(rgb8_swapped(t) =~= s);
}

/// Every in-place conversion keeps the length of the buffer.
pub proof fn lemma_converted_keeps_length(c: Converter, s: Seq<u8>)
    ensures
        converted(c, s).1.len() == s.len(),
{
}

/// Every converter of the command line tool is also a converter of the library,
/// for the same format.
pub proof fn lemma_in_place_converters_agree(format: ShmFormat)
    ensures
        in_place_converter_for(format) is Some ==> in_place_converter_for(format) == converter_for(format),
{
}

/// The widening of 5-bit and 6-bit channels keeps black black and full
/// intensity at 255, and never lowers a brighter channel below a darker one.
pub proof fn lemma_rgb565_expansion_range(x: nat, y: nat)
    ensures
        expand5(0) == 0 && expand5(31) == 255,
        expand6(0) == 0 && expand6(63) == 255,
        x <= y < 32 ==> expand5(x) <= expand5(y),
        x <= y < 64 ==> expand6(x) <= expand6(y),
{
    if x <= y < 32 {
        assert(x * 8 + x / 4 <= y * 8 + y / 4 <= 255) by (nonlinear_arith)
            requires x <= y < 32;
    }
    if x <= y < 64 {
        assert(x * 4 + x / 16 <= y * 4 + y / 16 <= 255) by (nonlinear_arith)
            requires x <= y < 64;
    }
}

} // verus!
