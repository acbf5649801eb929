//! The decisions of a capture: which buffer format to use, how a frame
//! becomes a `FrameCopy`, which outputs a region touches, when a copy has
//! finished and what error its failure gives.

use vstd::prelude::*;

use crate::convert::{create_converter, converted, converter_for, ColorType, Convert, ShmFormat};
use crate::dispatch::FrameState;
use crate::error::{Error, FailureCode, FailureReason};
use crate::output::{OutputInfo, Transform};
use crate::region::{
    embed_in_range, embed_spec, logical_in_range, logical_spec, EmbeddedRegion, LogicalRegion,
    Position, Region, Size,
};
use crate::screencopy::{DMAFrameFormat, FrameCopy, FrameData, FrameFormat};
use crate::text::{dec_nat, push_u64};

verus! {

/// Whether the cursor is painted into a capture (`NoCursors` leaves it out).
#[derive(Debug, Clone, Copy, PartialEq, Eq, Structural)]
pub enum CaptureOption {
    PaintCursors,
    NoCursors,
}

impl CaptureOption {
    /// Whether the cursor is painted into the capture.
    pub fn paints_cursors(&self) -> (r: bool)
        ensures
            r == (*self == CaptureOption::PaintCursors),
    {
        match self {
            CaptureOption::PaintCursors => true,
            CaptureOption::NoCursors => false,
        }
    }
}

/// The shared memory formats that a wlr-screencopy capture can use.
pub open spec fn shm_capture_format(f: ShmFormat) -> bool {
    f == ShmFormat::Xbgr2101010 || f == ShmFormat::Abgr2101010 || f == ShmFormat::Argb8888
        || f == ShmFormat::Xrgb8888 || f == ShmFormat::Xbgr8888 || f == ShmFormat::Bgr888
}

/// The shared memory formats that an ext-image-copy capture can use.
pub open spec fn ext_capture_format(f: ShmFormat) -> bool {
    f == ShmFormat::Xbgr2101010 || f == ShmFormat::Abgr2101010 || f == ShmFormat::Argb8888
        || f == ShmFormat::Xrgb8888 || f == ShmFormat::Xbgr8888
}

/// Whether a wlr-screencopy capture can use a shared memory format.
pub fn is_shm_capture_format(f: ShmFormat) -> (r: bool)
    ensures
        r == shm_capture_format(f),
{
    match f {
        ShmFormat::Xbgr2101010 | ShmFormat::Abgr2101010 | ShmFormat::Argb8888 | ShmFormat::Xrgb8888
        | ShmFormat::Xbgr8888 | ShmFormat::Bgr888 => true,
        _ => false,
    }
}

/// Whether an ext-image-copy capture can use a shared memory format.
pub fn is_ext_capture_format(f: ShmFormat) -> (r: bool)
    ensures
        r == ext_capture_format(f),
{
    match f {
        ShmFormat::Xbgr2101010 | ShmFormat::Abgr2101010 | ShmFormat::Argb8888 | ShmFormat::Xrgb8888
        | ShmFormat::Xbgr8888 => true,
        _ => false,
    }
}

/// The format an ext-image-copy session announced, if a capture can use it;
/// `NotSupportFormat` for a code the protocol does not define or a format
/// the capture cannot use.
pub fn ext_frame_format(format: Option<ShmFormat>) -> (r: Result<ShmFormat, Error>)
    ensures
        match format {
            Some(f) => if ext_capture_format(f) {
                r == Ok::<ShmFormat, Error>(f)
            } else {
                r == Err::<ShmFormat, Error>(Error::NotSupportFormat)
            },
            None => r == Err::<ShmFormat, Error>(Error::NotSupportFormat),
        },
{
    match format {
        Some(f) => {
            if is_ext_capture_format(f) {
                Ok(f)
            } else {
                Err(Error::NotSupportFormat)
            }
        },
        None => Err(Error::NotSupportFormat),
    }
}

/// The format of an ext-image-copy capture: the last shared memory format
/// the session announced, if the capture can use it; `NotSupportFormat` when
/// none was announced or the capture cannot use the last one.
pub fn ext_session_format(formats: &[FrameFormat]) -> (r: Result<ShmFormat, Error>)
    ensures
        formats@.len() == 0 ==> r == Err::<ShmFormat, Error>(Error::NotSupportFormat),
        formats@.len() > 0 ==> {
            let f = formats@.last().format;
            &&& ext_capture_format(f) ==> r == Ok::<ShmFormat, Error>(f)
            &&& !ext_capture_format(f) ==> r == Err::<ShmFormat, Error>(Error::NotSupportFormat)
        },
{
    let n = formats.len();
    if n == 0 {
        return Err(Error::NotSupportFormat);
    }
    ext_frame_format(Some(formats[n - 1].format))
}

/// Whether `i` is the first index of `s` whose format a wlr-screencopy
/// capture can use.
pub open spec fn first_capture_index(s: Seq<FrameFormat>, i: int) -> bool {
    &&& 0 <= i < s.len()
    &&& shm_capture_format(s[i].format)
    &&& forall|j: int| 0 <= j < i ==> !shm_capture_format(#[trigger] s[j].format)
}

/// Whether `i` is the first index of `s` whose format is `want`.
pub open spec fn first_index_of_format(s: Seq<FrameFormat>, want: ShmFormat, i: int) -> bool {
    &&& 0 <= i < s.len()
    &&& s[i].format == want
    &&& forall|j: int| 0 <= j < i ==> (#[trigger] s[j]).format != want
}

/// The first advertised format that a wlr-screencopy capture can use;
/// `NoSupportedBufferFormat` when there is none.
pub fn select_frame_format(formats: &[FrameFormat]) -> (r: Result<FrameFormat, Error>)
    ensures
        match r {
            Ok(f) => exists|i: int|
                first_capture_index(formats@, i) && formats@[i]
                    == f,
            Err(e) => e == Error::NoSupportedBufferFormat && forall|j: int|
                0 <= j < formats@.len() ==> !shm_capture_format(#[trigger] formats@[j].format),
        },
{
    let n = formats.len();
    let mut i: usize = 0;
    while i < n
        invariant
            n == formats@.len(),
            i <= n,
            forall|j: int| 0 <= j < i ==> !shm_capture_format(#[trigger] formats@[j].format),
        decreases n - i,
    {
        if is_shm_capture_format(formats[i].format) {
            assert(first_capture_index(formats@, i as int));
            return Ok(formats[i]);
        }
        i = i + 1;
    }
    Err(Error::NoSupportedBufferFormat)
}

/// The format of a screencast buffer: the first advertised entry of the
/// requested shared memory format, or the first entry of all when none is
/// requested; `NoSupportedBufferFormat` when there is no such entry.
pub fn select_screencast_format(formats: &[FrameFormat], shm_format: Option<ShmFormat>) -> (r: Result<
    FrameFormat,
    Error,
>)
    ensures
        match shm_format {
            Some(want) => match r {
                Ok(f) => exists|i: int|
                    first_index_of_format(formats@, want, i) && formats@[i] == f,
                Err(e) => e == Error::NoSupportedBufferFormat && forall|j: int|
                    0 <= j < formats@.len() ==> (#[trigger] formats@[j]).format != want,
            },
            None => if formats@.len() > 0 {
                r == Ok::<FrameFormat, Error>(formats@[0])
            } else {
                r == Err::<FrameFormat, Error>(Error::NoSupportedBufferFormat)
            },
        },
{
    match shm_format {
        Some(want) => {
            let n = formats.len();
            let mut i: usize = 0;
            while i < n
                invariant
                    n == formats@.len(),
                    i <= n,
                    forall|j: int| 0 <= j < i ==> (#[trigger] formats@[j]).format != want,
                    shm_format == Some(want),
                decreases n - i,
            {
                if formats[i].format == want {
                    assert(first_index_of_format(formats@, want, i as int));
                    return Ok(formats[i]);
                }
                i = i + 1;
            }
            Err(Error::NoSupportedBufferFormat)
        },
        None => {
            if formats.len() > 0 {
                Ok(formats[0])
            } else {
                Err(Error::NoSupportedBufferFormat)
            }
        },
    }
}

/// The first advertised dmabuf format; `NoSupportedBufferFormat` when there is none.
pub fn first_dmabuf_format(formats: &[DMAFrameFormat]) -> (r: Result<DMAFrameFormat, Error>)
    ensures
        formats@.len() > 0 ==> r == Ok::<DMAFrameFormat, Error>(formats@[0]),
        formats@.len() == 0 ==> r == Err::<DMAFrameFormat, Error>(Error::NoSupportedBufferFormat),
{
    if formats.len() > 0 {
        Ok(formats[0])
    } else {
        Err(Error::NoSupportedBufferFormat)
    }
}

/// Size of the shared memory pool of a frame, as the protocol's `i32`;
/// `BufferTooSmall` when the frame's bytes do not fit in one.
pub fn pool_size(frame_format: &FrameFormat) -> (r: Result<i32, Error>)
    ensures
        frame_format.stride * frame_format.size.height <= i32::MAX ==> r == Ok::<i32, Error>(
            (frame_format.stride * frame_format.size.height) as i32,
        ),
        frame_format.stride * frame_format.size.height > i32::MAX ==> r == Err::<i32, Error>(
            Error::BufferTooSmall,
        ),
{
    let bytes = frame_format.byte_size();
    if bytes <= 0x7fff_ffff {
        Ok(bytes as i32)
    } else {
        Err(Error::BufferTooSmall)
    }
}

/// What the state of a wlr-screencopy copy means for the waiting loop:
/// nothing yet, a finished copy, or the error of a failed one.
pub open spec fn copy_outcome_spec(state: Option<FrameState>) -> Option<Result<(), Error>> {
    match state {
        None => None,
        Some(FrameState::Finished) => Some(Ok(())),
        Some(FrameState::Failed) => Some(Err(Error::FramecopyFailed)),
        Some(FrameState::FailedWithReason(c)) => Some(Err(Error::FramecopyFailedWithReason(c))),
    }
}

/// What the state of a wlr-screencopy copy means for the waiting loop.
pub fn copy_outcome(state: Option<FrameState>) -> (r: Option<Result<(), Error>>)
    ensures
        r == copy_outcome_spec(state),
{
    match state {
        None => None,
        Some(FrameState::Finished) => Some(Ok(())),
        Some(FrameState::Failed) => Some(Err(Error::FramecopyFailed)),
        Some(FrameState::FailedWithReason(c)) => Some(Err(Error::FramecopyFailedWithReason(c))),
    }
}

/// The message of a failed ext-image-copy capture.
pub open spec fn capture_failure_text(reason: Option<FailureCode>) -> Seq<char> {
    match reason {
        Some(FailureCode::Value(FailureReason::Stopped)) => "Stopped"@,
        Some(FailureCode::Value(FailureReason::BufferConstraints)) => "BufferConstraints"@,
        Some(FailureCode::Value(FailureReason::Unknown)) => "Unknown"@,
        Some(FailureCode::Unknown(code)) => "Unknown reason, code : "@ + dec_nat(code as nat),
        None => "No failure reason provided"@,
    }
}

/// The error of a failed ext-image-copy capture: `CaptureFailed` with the
/// reason the compositor gave.
pub fn capture_failure_error(reason: Option<FailureCode>) -> (r: Error)
    ensures
        r matches Error::CaptureFailed(m) && m@ == capture_failure_text(reason),
{
    let mut m = String::new();
    match reason {
        Some(FailureCode::Value(FailureReason::Stopped)) => m.append("Stopped"),
        Some(FailureCode::Value(FailureReason::BufferConstraints)) => m.append("BufferConstraints"),
        Some(FailureCode::Value(FailureReason::Unknown)) => m.append("Unknown"),
        Some(FailureCode::Unknown(code)) => {
            m.append("Unknown reason, code : ");
            push_u64(&mut m, code as u64);
        },
        None => m.append("No failure reason provided"),
    }
    Error::CaptureFailed(m)
}

/// What the state of an ext-image-copy capture means for the waiting loop:
/// nothing yet, a finished capture, or the error of a failed one.
pub fn ext_capture_outcome(state: Option<FrameState>) -> (r: Option<Result<(), Error>>)
    ensures
        state is None ==> r is None,
        state == Some(FrameState::Finished) ==> r == Some(Ok::<(), Error>(())),
        state == Some(FrameState::Failed) ==> (r matches Some(Err(Error::CaptureFailed(m))) && m@
            == capture_failure_text(None)),
        state matches Some(FrameState::FailedWithReason(c)) ==> (r matches Some(
            Err(Error::CaptureFailed(m)),
        ) && m@ == capture_failure_text(Some(c))),
{
    match state {
        None => None,
        Some(FrameState::Finished) => Some(Ok(())),
        Some(FrameState::Failed) => Some(Err(capture_failure_error(None))),
        Some(FrameState::FailedWithReason(c)) => Some(Err(capture_failure_error(Some(c)))),
    }
}

/// Layout of the shared memory buffer of an ext-image-copy capture of
/// `width` x `height` pixels: four bytes per pixel, rows without padding.
/// Returns the number of bytes and the stride.
pub fn ext_buffer_layout(width: u32, height: u32) -> (r: (u32, u32))
    requires
        4 * height * width <= u32::MAX,
        4 * width <= u32::MAX,
    ensures
        r.0 == 4 * height * width,
        r.1 == 4 * width,
{
    if width == 0 {
        return (0, 0);
    }
    assert(4 * height <= 4 * height * width) by (nonlinear_arith)
        requires
            width >= 1,
            height >= 0,
    ;
    let frame_bytes: u32 = 4 * height * width;
    let stride: u32 = 4 * width;
    (frame_bytes, stride)
}

/// The high and low halves of a 64-bit format modifier.
pub fn split_modifier(modifier: u64) -> (r: (u32, u32))
    ensures
        r.0 == modifier / 0x1_0000_0000,
        r.1 == modifier % 0x1_0000_0000,
{
    assert((modifier >> 32u64) == modifier / 0x1_0000_0000) by (bit_vector);
    assert((modifier & 0xffff_ffffu64) == modifier % 0x1_0000_0000) by (bit_vector);
    ((modifier >> 32u64) as u32, (modifier & 0xffff_ffffu64) as u32)
}

/// The two halves of a modifier put back together give the modifier.
pub proof fn lemma_split_modifier_recombines(modifier: u64)
    ensures
        (modifier / 0x1_0000_0000) * 0x1_0000_0000 + modifier % 0x1_0000_0000 == modifier,
{
}

/// The physical size of a frame once turned by the output's transform.
pub fn rotated_physical_size(transform: Transform, size: Size) -> (r: Size)
    ensures
        transform.is_quarter_turn() ==> r == (Size { width: size.height, height: size.width }),
        !transform.is_quarter_turn() ==> r == size,
{
    if transform.swaps_axes() {
        Size { width: size.height, height: size.width }
    } else {
        size
    }
}

/// The logical region a captured frame shows: that of the captured part, or
/// of the whole output.
pub fn frame_logical_region(capture_region: Option<EmbeddedRegion>, output_region: LogicalRegion) -> (r:
    LogicalRegion)
    requires
        capture_region matches Some(c) ==> logical_in_range(c),
    ensures
        capture_region matches Some(c) ==> r == logical_spec(c),
        capture_region is None ==> r == output_region,
{
    match capture_region {
        Some(c) => c.logical(),
        None => output_region,
    }
}

/// A captured frame, its colours converted: the frame of an output (or of
/// part of it), with the output's transform, the region it shows and its
/// physical size once turned. `NoSupportedBufferFormat` when the format has
/// no converter.
pub fn frame_copy_from_capture(
    frame_format: FrameFormat,
    data: Vec<u8>,
    output_info: &OutputInfo,
    capture_region: Option<EmbeddedRegion>,
) -> (r: Result<FrameCopy, Error>)
    requires
        capture_region matches Some(c) ==> logical_in_range(c),
    ensures
        match converter_for(frame_format.format) {
            None => r == Err::<FrameCopy, Error>(Error::NoSupportedBufferFormat),
            Some(c) => r matches Ok(fc) && {
                &&& fc.frame_format == frame_format
                &&& (fc.frame_color_type, fc.bytes()) == converted(c, data@)
                &&& fc.transform == output_info.transform
                &&& fc.logical_region == match capture_region {
                    Some(e) => logical_spec(e),
                    None => output_info.logical_region,
                }
                &&& fc.transform.is_quarter_turn() ==> fc.physical_size == (Size {
                    width: frame_format.size.height,
                    height: frame_format.size.width,
                })
                &&& !fc.transform.is_quarter_turn() ==> fc.physical_size == frame_format.size
                &&& fc.color_converted
            },
        },
{
    let mut data = data;
    let frame_color_type = match create_converter(frame_format.format) {
        Some(converter) => converter.convert_inplace(data.as_mut_slice()),
        None => {
            return Err(Error::NoSupportedBufferFormat);
        },
    };
    let physical_size = rotated_physical_size(output_info.transform, frame_format.size);
    let logical_region = frame_logical_region(capture_region, output_info.logical_region);
    Ok(
        FrameCopy {
            frame_format,
            frame_color_type,
            frame_data: FrameData::Memory(data),
            transform: output_info.transform,
            logical_region,
            physical_size,
            color_converted: true,
        },
    )
}

/// The outputs that a region touches, each with the part of the region
/// inside it: the indices, in order, of the outputs for which
/// `EmbeddedRegion::new` gives a region, and that region.
pub fn capture_regions(outputs: &[OutputInfo], capture_region: LogicalRegion) -> (r: Vec<(usize, EmbeddedRegion)>)
    requires
        forall|i: int| 0 <= i < outputs@.len() ==> embed_in_range(capture_region, #[trigger] outputs@[i].logical_region),
    ensures
        forall|k: int| 0 <= k < r@.len() ==> {
            let (i, e) = #[trigger] r@[k];
            &&& i < outputs@.len()
            &&& embed_spec(capture_region, outputs@[i as int].logical_region) == Some(e)
        },
        forall|k1: int, k2: int| 0 <= k1 < k2 < r@.len() ==> (#[trigger] r@[k1]).0 < (#[trigger] r@[k2]).0,
        forall|i: int| 0 <= i < outputs@.len() && (embed_spec(capture_region, #[trigger] outputs@[i].logical_region) is Some)
            ==> exists|k: int| 0 <= k < r@.len() && (#[trigger] r@[k]).0 == i,
{
    let n = outputs.len();
    let mut r: Vec<(usize, EmbeddedRegion)> = Vec::new();
    let mut i: usize = 0;
    while i < n
        invariant
            n == outputs@.len(),
            i <= n,
            forall|j: int| 0 <= j < outputs@.len() ==> embed_in_range(capture_region, #[trigger] outputs@[j].logical_region),
            forall|k: int| 0 <= k < r@.len() ==> {
                let (j, e) = #[trigger] r@[k];
                &&& j < i
                &&& embed_spec(capture_region, outputs@[j as int].logical_region) == Some(e)
            },
            forall|k1: int, k2: int| 0 <= k1 < k2 < r@.len() ==> (#[trigger] r@[k1]).0 < (#[trigger] r@[k2]).0,
            forall|j: int| 0 <= j < i && (embed_spec(capture_region, #[trigger] outputs@[j].logical_region) is Some)
                ==> exists|k: int| 0 <= k < r@.len() && (#[trigger] r@[k]).0 == j,
        decreases n - i,
    {
        let o = &outputs[i];
        let relative_to = LogicalRegion::from(o);
        match EmbeddedRegion::new(capture_region, relative_to) {
            Some(e) => {
                let ghost before = r@;
                r.push((i, e));
                proof {
                    assert forall|j: int| 0 <= j < i + 1 && (embed_spec(capture_region, #[trigger] outputs@[j].logical_region) is Some)
                        implies exists|k: int| 0 <= k < r@.len() && (#[trigger] r@[k]).0 == j by {
                        if j < i {
                            let k = choose|k: int| 0 <= k < before.len() && (#[trigger] before[k]).0 == j;
                            assert(r@[k] == before[k]);
                        } else {
                            assert(r@[before.len() as int].0 == j);
                        }
                    }
                }
            },
            None => {},
        }
        i = i + 1;
    }
    r
}

/// What is known of an output's capture when a region is picked on it.
#[derive(Debug, Clone, Copy)]
pub struct AreaShotInfo {
    pub logical_region: LogicalRegion,
    pub physical_size: Size,
}

impl AreaShotInfo {
    /// Whether the top left corner of a region lies on this output: at or
    /// after its position and at most its physical size further.
    pub fn in_this_screen(&self, region: Region) -> (r: bool)
        ensures
            r == on_screen(*self, region),
    {
        let point = region.position;
        let x = self.logical_region.inner.position.x as i64;
        let y = self.logical_region.inner.position.y as i64;
        let px = point.x as i64;
        let py = point.y as i64;
        if py < y || px < x || px > x + self.physical_size.width as i64 || py > y
            + self.physical_size.height as i64 {
            return false;
        }
        true
    }
}

/// The region, once the user has picked it, lies on the first output whose
/// screen holds its top left corner.
pub open spec fn on_screen(info: AreaShotInfo, region: Region) -> bool {
    let p = region.position;
    let s = info.logical_region.inner.position;
    !(p.y < s.y || p.x < s.x || p.x > s.x + info.physical_size.width || p.y > s.y
        + info.physical_size.height)
}

/// The index of the first output whose screen holds the top left corner of
/// `region`; `CaptureFailed("not in region")` when none does.
pub fn find_screen(infos: &[AreaShotInfo], region: Region) -> (r: Result<usize, Error>)
    ensures
        match r {
            Ok(i) => {
                &&& i < infos@.len()
                &&& on_screen(infos@[i as int], region)
                &&& forall|j: int| 0 <= j < i ==> !on_screen(#[trigger] infos@[j], region)
            },
            Err(e) => {
                &&& e matches Error::CaptureFailed(m) && m@ == "not in region"@
                &&& forall|j: int| 0 <= j < infos@.len() ==> !on_screen(#[trigger] infos@[j], region)
            },
        },
{
    let n = infos.len();
    let mut i: usize = 0;
    while i < n
        invariant
            n == infos@.len(),
            i <= n,
            forall|j: int| 0 <= j < i ==> !on_screen(#[trigger] infos@[j], region),
        decreases n - i,
    {
        if infos[i].in_this_screen(region) {
            return Ok(i);
        }
        i = i + 1;
    }
    Err(Error::CaptureFailed("not in region".to_owned()))
}

/// A screen holds a region's top left corner exactly when the corner lies
/// in the closed box from the screen's logical position to that position
/// plus its physical width across and its physical height down.
pub proof fn lemma_on_screen_is_corner_in_box(info: AreaShotInfo, region: Region)
    ensures
        on_screen(info, region) <==> {
            &&& info.logical_region.inner.position.x <= region.position.x
            &&& region.position.x <= info.logical_region.inner.position.x + info.physical_size.width
            &&& info.logical_region.inner.position.y <= region.position.y
            &&& region.position.y <= info.logical_region.inner.position.y + info.physical_size.height
        },
{
}

/// A wlr-screencopy capture accepts exactly the formats the library can
/// convert, except ABGR8888; an ext-image-copy capture accepts those except
/// BGR888 too. In particular the common ARGB8888 and XRGB8888 are accepted.
pub proof fn lemma_capture_formats_are_the_convertible_ones(f: ShmFormat)
    ensures
        shm_capture_format(f) <==> (converter_for(f) is Some && f != ShmFormat::Abgr8888),
        ext_capture_format(f) <==> (converter_for(f) is Some && f != ShmFormat::Abgr8888 && f
            != ShmFormat::Bgr888),
        shm_capture_format(ShmFormat::Argb8888),
        shm_capture_format(ShmFormat::Xrgb8888),
        ext_capture_format(ShmFormat::Argb8888),
{
}

} // verus!
