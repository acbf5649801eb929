use libwayshot::capture::{
    capture_failure_error, capture_regions, ext_frame_format, ext_session_format, copy_outcome, ext_buffer_layout, ext_capture_outcome,
    find_screen, first_dmabuf_format, frame_copy_from_capture, frame_logical_region, is_ext_capture_format,
    is_shm_capture_format, pool_size, rotated_physical_size, select_frame_format, select_screencast_format,
    split_modifier, AreaShotInfo, CaptureOption,
};
use libwayshot::convert::{ColorType, ShmFormat};
use libwayshot::dispatch::FrameState;
use libwayshot::error::{Error, FailureCode, FailureReason};
use libwayshot::output::{OutputInfo, Transform};
use libwayshot::region::{EmbeddedRegion, LogicalRegion, Position, Region, Size};
use libwayshot::screencopy::{DMAFrameFormat, FrameFormat};
use std::mem;
use wayland_backend::client::Backend;
use wayland_client::protocol::wl_output::WlOutput;
use wayland_client::Proxy;


/// A client backend over a file that no compositor listens on: enough to
/// make inert protocol objects.
fn dummy_backend() -> Backend {
    let fd = rustix::fs::memfd_create("wayshot-test", rustix::fs::MemfdFlags::CLOEXEC).expect("memfd");
    Backend::connect(fd.into()).expect("backend")
}

fn dummy_wl_output() -> WlOutput {
    let backend = dummy_backend();
    let weak = backend.downgrade();
    Box::leak(Box::new(backend));
    WlOutput::inert(weak)
}

fn logical(x: i32, y: i32, width: u32, height: u32) -> LogicalRegion {
    LogicalRegion { inner: Region { position: Position { x, y }, size: Size { width, height } } }
}

fn output(x: i32, y: i32, width: u32, height: u32, transform: Transform) -> OutputInfo {
    OutputInfo {
        wl_output: dummy_wl_output(),
        name: "out".to_string(),
        description: "desc".to_string(),
        transform,
        physical_size: Size { width, height },
        logical_region: logical(x, y, width, height),
    }
}

fn format(format: ShmFormat) -> FrameFormat {
    FrameFormat { format, size: Size { width: 2, height: 1 }, stride: 8 }
}

#[test]
fn capture_option_paints_cursors() {
    assert!(CaptureOption::PaintCursors.paints_cursors());
    assert!(!CaptureOption::NoCursors.paints_cursors());
}

#[test]
fn capture_formats() {
    assert!(is_shm_capture_format(ShmFormat::Bgr888));
    assert!(!is_ext_capture_format(ShmFormat::Bgr888));
    assert!(is_ext_capture_format(ShmFormat::Xbgr2101010));
    assert!(!is_shm_capture_format(ShmFormat::Rgb565));
    assert!(!is_shm_capture_format(ShmFormat::Abgr8888));
}

#[test]
fn frame_format_selection_takes_the_first_usable() {
    let formats = [format(ShmFormat::Rgb565), format(ShmFormat::Xrgb8888), format(ShmFormat::Argb8888)];
    assert_eq!(select_frame_format(&formats), Ok(formats[1]));
    assert_eq!(select_frame_format(&formats[..1]), Err(Error::NoSupportedBufferFormat));
    assert_eq!(select_frame_format(&[]), Err(Error::NoSupportedBufferFormat));
}

#[test]
fn screencast_format_selection() {
    let formats = [format(ShmFormat::Rgb565), format(ShmFormat::Xrgb8888)];
    assert_eq!(select_screencast_format(&formats, None), Ok(formats[0]));
    assert_eq!(select_screencast_format(&formats, Some(ShmFormat::Xrgb8888)), Ok(formats[1]));
    assert_eq!(
        select_screencast_format(&formats, Some(ShmFormat::Bgr888)),
        Err(Error::NoSupportedBufferFormat)
    );
    assert_eq!(select_screencast_format(&[], None), Err(Error::NoSupportedBufferFormat));
}

#[test]
fn dmabuf_format_selection() {
    let dma = [DMAFrameFormat { format: 1, size: Size { width: 1, height: 1 } }];
    assert_eq!(first_dmabuf_format(&dma), Ok(dma[0]));
    assert_eq!(first_dmabuf_format(&[]), Err(Error::NoSupportedBufferFormat));
}

#[test]
fn pool_sizes() {
    let f = FrameFormat { format: ShmFormat::Argb8888, size: Size { width: 100, height: 200 }, stride: 400 };
    assert_eq!(pool_size(&f), Ok(80000));
    let big = FrameFormat { format: ShmFormat::Argb8888, size: Size { width: 1, height: 65536 }, stride: 65536 };
    assert_eq!(pool_size(&big), Err(Error::BufferTooSmall));
}

#[test]
fn copy_outcomes() {
    assert_eq!(copy_outcome(None), None);
    assert_eq!(copy_outcome(Some(FrameState::Finished)), Some(Ok(())));
    assert_eq!(copy_outcome(Some(FrameState::Failed)), Some(Err(Error::FramecopyFailed)));
    let reason = FailureCode::Value(FailureReason::Stopped);
    assert_eq!(
        copy_outcome(Some(FrameState::FailedWithReason(reason))),
        Some(Err(Error::FramecopyFailedWithReason(reason)))
    );
}

#[test]
fn ext_capture_outcomes() {
    assert_eq!(ext_capture_outcome(None), None);
    assert_eq!(ext_capture_outcome(Some(FrameState::Finished)), Some(Ok(())));
    assert_eq!(
        ext_capture_outcome(Some(FrameState::Failed)),
        Some(Err(Error::CaptureFailed("No failure reason provided".to_string())))
    );
    assert_eq!(
        ext_capture_outcome(Some(FrameState::FailedWithReason(FailureCode::Unknown(9)))),
        Some(Err(Error::CaptureFailed("Unknown reason, code : 9".to_string())))
    );
    assert_eq!(
        capture_failure_error(Some(FailureCode::Value(FailureReason::BufferConstraints))),
        Error::CaptureFailed("BufferConstraints".to_string())
    );
    assert_eq!(
        capture_failure_error(Some(FailureCode::Value(FailureReason::Unknown))).to_string(),
        "Capture failed: Unknown"
    );
}

#[test]
fn ext_buffer_layouts() {
    assert_eq!(ext_buffer_layout(1920, 1080), (4 * 1920 * 1080, 4 * 1920));
    assert_eq!(ext_buffer_layout(0, 5), (0, 0));
    assert_eq!(ext_buffer_layout(5, 0), (0, 20));
}

#[test]
fn modifiers_split_into_halves() {
    assert_eq!(split_modifier(0x0123_4567_89ab_cdef), (0x0123_4567, 0x89ab_cdef));
    assert_eq!(split_modifier(u64::MAX), (u32::MAX, u32::MAX));
    let modifier: u64 = 0x00ff_0000_0000_0a0b;
    let (hi, lo) = split_modifier(modifier);
    assert_eq!(((hi as u64) << 32) | lo as u64, modifier);
}

#[test]
fn rotated_sizes() {
    let s = Size { width: 1920, height: 1080 };
    assert_eq!(rotated_physical_size(Transform::_90, s), Size { width: 1080, height: 1920 });
    assert_eq!(rotated_physical_size(Transform::Flipped180, s), s);
}

#[test]
fn frame_logical_regions() {
    let out = logical(100, 0, 1920, 1080);
    assert_eq!(frame_logical_region(None, out), out);
    let e = EmbeddedRegion { relative_to: out, inner: Region { position: Position { x: 5, y: 6 }, size: Size { width: 7, height: 8 } } };
    assert_eq!(frame_logical_region(Some(e), out), logical(105, 6, 7, 8));
}

#[test]
fn frame_copy_from_a_capture() {
    let info = output(0, 0, 2, 1, Transform::_90);
    let fc = frame_copy_from_capture(format(ShmFormat::Xrgb8888), vec![1, 2, 3, 4, 5, 6, 7, 8], &info, None)
        .unwrap();
    assert_eq!(fc.frame_color_type, ColorType::Rgba8);
    assert_eq!(fc.data(), &[3, 2, 1, 4, 7, 6, 5, 8]);
    assert_eq!(fc.physical_size, Size { width: 1, height: 2 });
    assert_eq!(fc.transform, Transform::_90);
    assert_eq!(fc.logical_region, info.logical_region);
    assert!(fc.color_converted);
    assert!(frame_copy_from_capture(format(ShmFormat::Rgb565), vec![0; 8], &info, None).is_err());
    mem::forget(info);
}

#[test]
fn capture_regions_of_outputs() {
    let outputs = vec![
        output(0, 0, 1920, 1080, Transform::Normal),
        output(1920, 0, 1280, 1024, Transform::Normal),
        output(0, 2000, 100, 100, Transform::Normal),
    ];
    let regions = capture_regions(&outputs, logical(1900, 10, 100, 50));
    assert_eq!(regions.len(), 2);
    assert_eq!(regions[0].0, 0);
    assert_eq!(regions[0].1.inner, Region { position: Position { x: 1900, y: 10 }, size: Size { width: 20, height: 50 } });
    assert_eq!(regions[1].0, 1);
    assert_eq!(regions[1].1.inner, Region { position: Position { x: 0, y: 10 }, size: Size { width: 80, height: 50 } });
    for o in outputs {
        mem::forget(o);
    }
}

#[test]
fn area_shot_screens() {
    let infos = [
        AreaShotInfo { logical_region: logical(0, 0, 1920, 1080), physical_size: Size { width: 1920, height: 1080 } },
        AreaShotInfo { logical_region: logical(1920, 0, 1280, 1024), physical_size: Size { width: 2560, height: 2048 } },
    ];
    let at = |x: i32, y: i32| Region { position: Position { x, y }, size: Size { width: 10, height: 10 } };
    assert!(infos[0].in_this_screen(at(0, 0)));
    assert!(infos[0].in_this_screen(at(1920, 1080)));
    assert!(!infos[0].in_this_screen(at(-1, 0)));
    assert_eq!(find_screen(&infos, at(100, 100)), Ok(0));
    assert_eq!(find_screen(&infos, at(4000, 100)), Ok(1));
    assert_eq!(find_screen(&infos, at(5000, 100)), Err(Error::CaptureFailed("not in region".to_string())));
}

#[test]
fn ext_frame_formats() {
    assert_eq!(ext_frame_format(Some(ShmFormat::Xbgr8888)), Ok(ShmFormat::Xbgr8888));
    assert_eq!(ext_frame_format(Some(ShmFormat::Bgr888)), Err(Error::NotSupportFormat));
    assert_eq!(ext_frame_format(None), Err(Error::NotSupportFormat));
}

#[test]
fn ext_session_format_takes_the_last_announced() {
    let formats = [format(ShmFormat::Bgr888), format(ShmFormat::Xrgb8888)];
    assert_eq!(ext_session_format(&formats), Ok(ShmFormat::Xrgb8888));
    let formats = [format(ShmFormat::Xrgb8888), format(ShmFormat::Bgr888)];
    assert_eq!(ext_session_format(&formats), Err(Error::NotSupportFormat));
    assert_eq!(ext_session_format(&[]), Err(Error::NotSupportFormat));
}
