use libwayshot::output::{bounds_computable, OutputInfo, ToOutputInfo, Transform};
use libwayshot::region::{LogicalRegion, Position, Region, Size};
use std::mem;
use wayland_backend::client::Backend;
use wayland_client::protocol::wl_output::WlOutput;
use wayland_client::Proxy;


/// A client backend over a file that no compositor listens on: enough to
/// make inert protocol objects.
fn dummy_backend() -> Backend {
    let fd = rustix::fs::memfd_create("wayshot-test", rustix::fs::MemfdFlags::CLOEXEC).expect("memfd");
    Backend::connect(fd.into()).expect("backend")
}

fn make_output_info(
    name: &str,
    description: &str,
    physical_size: Size,
    logical_region: LogicalRegion,
) -> OutputInfo {
    OutputInfo {
        wl_output: dummy_wl_output(),
        name: name.to_string(),
        description: description.to_string(),
        transform: Transform::Normal,
        physical_size,
        logical_region,
    }
}

fn dummy_wl_output() -> WlOutput {
    let backend = dummy_backend();
    let weak = backend.downgrade();
    Box::leak(Box::new(backend));
    WlOutput::inert(weak)
}

fn region_at(x: i32, y: i32, width: u32, height: u32) -> LogicalRegion {
    LogicalRegion {
        inner: Region {
            position: Position { x, y },
            size: Size { width, height },
        },
    }
}

#[test]
fn output_display_formats_name_and_description() {
    let output_info = make_output_info(
        "HDMI-A-1",
        "Main Display",
        Size { width: 1920, height: 1080 },
        region_at(0, 0, 1920, 1080),
    );
    assert_eq!(output_info.to_string(), "HDMI-A-1 (Main Display)");
    mem::forget(output_info);
}

#[test]
fn output_display_formats_empty_name_and_description() {
    let output_info = make_output_info(
        "",
        "",
        Size { width: 1920, height: 1080 },
        region_at(0, 0, 1920, 1080),
    );
    assert_eq!(output_info.to_string(), " ()");
    mem::forget(output_info);
}

#[test]
fn output_debug_format() {
    let output_info = make_output_info(
        "HDMI-1",
        "Debug Display",
        Size { width: 800, height: 600 },
        region_at(0, 0, 800, 600),
    );
    let debug_str = format!("{:?}", output_info);
    assert!(debug_str.contains("OutputInfo"));
    assert!(debug_str.contains("HDMI-1"));
    assert!(debug_str.contains("Debug Display"));
    assert!(debug_str.contains("800"));
    assert!(debug_str.contains("600"));
    mem::forget(output_info);
}

#[test]
fn output_clone_and_partial_eq() {
    let o1 = make_output_info(
        "HDMI-1",
        "Clone Display",
        Size { width: 1024, height: 768 },
        region_at(0, 0, 1024, 768),
    );
    let o2 = o1.clone();
    assert_eq!(o1, o2);
    assert_eq!(o1.name, o2.name);
    assert_eq!(o1.description, o2.description);
    assert_eq!(o1.physical_size, o2.physical_size);
    assert_eq!(o1.logical_region, o2.logical_region);
    mem::forget(o1);
    mem::forget(o2);
}

#[test]
fn output_physical_size_returns_physical_size() {
    let output_info = make_output_info(
        "DP-1",
        "Display",
        Size { width: 3840, height: 2160 },
        region_at(100, 50, 1920, 1080),
    );
    let phys = output_info.physical_size();
    assert_eq!(phys.width, 3840);
    assert_eq!(phys.height, 2160);
    mem::forget(output_info);
}

#[test]
fn output_logical_size_returns_logical_size() {
    let output_info = make_output_info(
        "eDP-1",
        "Display",
        Size { width: 1920, height: 1080 },
        region_at(0, 0, 960, 540),
    );
    let log_size = output_info.logical_size();
    assert_eq!(log_size.width, 960);
    assert_eq!(log_size.height, 540);
    mem::forget(output_info);
}

#[test]
fn output_logical_position_returns_position() {
    let output_info = make_output_info(
        "HDMI-1",
        "Display",
        Size { width: 1920, height: 1080 },
        region_at(-100, 200, 1920, 1080),
    );
    let pos = output_info.logical_position();
    assert_eq!(pos.x, -100);
    assert_eq!(pos.y, 200);
    mem::forget(output_info);
}

#[test]
fn output_output_info_as_ref_returns_wl_output() {
    let output_info = make_output_info(
        "HDMI-1",
        "Display",
        Size { width: 1920, height: 1080 },
        region_at(0, 0, 1920, 1080),
    );
    let wl_ref: &WlOutput = output_info.as_ref();
    assert!(std::ptr::eq(wl_ref, &output_info.wl_output));
    mem::forget(output_info);
}

#[test]
fn tests_display_formats_name_and_description() {
    let output_info = make_output_info(
        "HDMI-A-1",
        "Main Display",
        Size { width: 1920, height: 1080 },
        region_at(0, 0, 1920, 1080),
    );
    assert_eq!(output_info.to_string(), "HDMI-A-1 (Main Display)");
    mem::forget(output_info);
}

#[test]
fn tests_display_formats_empty_name_and_description() {
    let output_info = make_output_info(
        "",
        "",
        Size { width: 1920, height: 1080 },
        region_at(0, 0, 1920, 1080),
    );
    assert_eq!(output_info.to_string(), " ()");
    mem::forget(output_info);
}

#[test]
fn tests_debug_format() {
    let output_info = make_output_info(
        "HDMI-1",
        "Debug Display",
        Size { width: 800, height: 600 },
        region_at(0, 0, 800, 600),
    );
    let debug_str = format!("{:?}", output_info);
    assert!(debug_str.contains("OutputInfo"));
    assert!(debug_str.contains("HDMI-1"));
    assert!(debug_str.contains("Debug Display"));
    assert!(debug_str.contains("800"));
    assert!(debug_str.contains("600"));
    mem::forget(output_info);
}

#[test]
fn tests_clone_and_partial_eq() {
    let o1 = make_output_info(
        "HDMI-1",
        "Clone Display",
        Size { width: 1024, height: 768 },
        region_at(0, 0, 1024, 768),
    );
    let o2 = o1.clone();
    assert_eq!(o1, o2);
    assert_eq!(o1.name, o2.name);
    assert_eq!(o1.description, o2.description);
    assert_eq!(o1.physical_size, o2.physical_size);
    assert_eq!(o1.logical_region, o2.logical_region);
    mem::forget(o1);
    mem::forget(o2);
}

#[test]
fn tests_physical_size_returns_physical_size() {
    let output_info = make_output_info(
        "DP-1",
        "Display",
        Size { width: 3840, height: 2160 },
        region_at(100, 50, 1920, 1080),
    );
    let phys = output_info.physical_size();
    assert_eq!(phys.width, 3840);
    assert_eq!(phys.height, 2160);
    mem::forget(output_info);
}

#[test]
fn tests_logical_size_returns_logical_size() {
    let output_info = make_output_info(
        "eDP-1",
        "Display",
        Size { width: 1920, height: 1080 },
        region_at(0, 0, 960, 540),
    );
    let log_size = output_info.logical_size();
    assert_eq!(log_size.width, 960);
    assert_eq!(log_size.height, 540);
    mem::forget(output_info);
}

#[test]
fn tests_logical_position_returns_position() {
    let output_info = make_output_info(
        "HDMI-1",
        "Display",
        Size { width: 1920, height: 1080 },
        region_at(-100, 200, 1920, 1080),
    );
    let pos = output_info.logical_position();
    assert_eq!(pos.x, -100);
    assert_eq!(pos.y, 200);
    mem::forget(output_info);
}

#[test]
fn tests_output_info_as_ref_returns_wl_output() {
    let output_info = make_output_info(
        "HDMI-1",
        "Display",
        Size { width: 1920, height: 1080 },
        region_at(0, 0, 1920, 1080),
    );
    let wl_ref: &WlOutput = output_info.as_ref();
    assert!(std::ptr::eq(wl_ref, &output_info.wl_output));
    mem::forget(output_info);
}

#[test]
fn output_info_new_has_default_fields() {
    let info = OutputInfo::new(dummy_wl_output());
    assert!(info.name.is_empty());
    assert!(info.description.is_empty());
    assert_eq!(info.transform, Transform::Normal);
    assert_eq!(info.physical_size, Size::default());
    assert_eq!(info.logical_region, LogicalRegion::default());
    let turned = info.transform(Transform::_270);
    assert_eq!(turned.transform, Transform::_270);
    mem::forget(turned);
}

#[test]
fn to_output_info_of_handle_and_of_info() {
    let handle = dummy_wl_output();
    let from_ref = (&handle).output_info();
    assert_eq!(from_ref.wl_output, handle);
    assert!(from_ref.name.is_empty());
    let info = make_output_info("A", "B", Size { width: 1, height: 2 }, region_at(3, 4, 5, 6));
    let same = (&info).output_info();
    assert_eq!(same, info);
    let moved = info.output_info();
    assert_eq!(moved.to_string(), "A (B)");
    mem::forget(from_ref);
    mem::forget(same);
    mem::forget(moved);
    mem::forget(handle);
}

#[test]
fn transform_swaps_axes_on_quarter_turns() {
    assert!(!Transform::Normal.swaps_axes());
    assert!(Transform::_90.swaps_axes());
    assert!(!Transform::_180.swaps_axes());
    assert!(Transform::_270.swaps_axes());
    assert!(!Transform::Flipped.swaps_axes());
    assert!(Transform::Flipped90.swaps_axes());
    assert!(!Transform::Flipped180.swaps_axes());
    assert!(Transform::Flipped270.swaps_axes());
}

#[test]
fn display_info_lists_sizes_and_position() {
    let output_info = make_output_info(
        "DP-1",
        "Office",
        Size { width: 3840, height: 2160 },
        region_at(-1920, 40, 1920, 1080),
    );
    assert_eq!(
        output_info.display_info(),
        "DP-1\ndescription: Office\n    Size: 3840,2160\n    LogicSize: 1920, 1080\n    Position: -1920, 40\n"
    );
    mem::forget(output_info);
}

#[test]
fn bounds_computable_spots_overflow() {
    let a = make_output_info("A", "", Size { width: 10, height: 10 }, region_at(i32::MAX - 5, 0, 10, 10));
    let b = make_output_info("B", "", Size { width: 10, height: 10 }, region_at(0, 0, 10, 10));
    let c = make_output_info("C", "", Size { width: 10, height: 10 }, region_at(i32::MIN, 0, 10, 10));
    let d = make_output_info("D", "", Size { width: 10, height: 10 }, region_at(i32::MAX - 20, 0, 10, 10));
    assert!(bounds_computable(&[]));
    assert!(bounds_computable(std::slice::from_ref(&b)));
    assert!(!bounds_computable(std::slice::from_ref(&a)));
    let wide = vec![b, c, d];
    assert!(!bounds_computable(&wide));
    for o in wide {
        mem::forget(o);
    }
    mem::forget(a);
}
