use libwayshot::convert::ShmFormat;
use libwayshot::dispatch::{
    should_bind_output, CaptureFrameState, ExtFrameEvent, FrameState, OutputCaptureState,
    OutputEvent, ScreencopyEvent, SessionEvent, ToplevelEvent, XdgOutputEvent,
};
use libwayshot::error::{FailureCode, FailureReason};
use libwayshot::output::Transform;
use libwayshot::region::{Position, Size};
use libwayshot::screencopy::{DMAFrameFormat, FrameFormat};
use libwayshot::toplevel::TopLevel;
use wayland_backend::client::Backend;
use wayland_client::protocol::wl_output::WlOutput;
use wayland_client::{Connection, Proxy};
use wayland_protocols::ext::foreign_toplevel_list::v1::client::ext_foreign_toplevel_handle_v1::ExtForeignToplevelHandleV1;


/// A client backend over a file that no compositor listens on: enough to
/// make inert protocol objects.
fn dummy_backend() -> Backend {
    let fd = rustix::fs::memfd_create("wayshot-test", rustix::fs::MemfdFlags::CLOEXEC).expect("memfd");
    Backend::connect(fd.into()).expect("backend")
}

fn dummy_conn() -> Connection {
    let backend = dummy_backend();
    Connection::from_backend(backend)
}

fn inert<T: Proxy>(conn: &Connection) -> T {
    T::inert(conn.backend().downgrade())
}

fn state_with_one_output() -> OutputCaptureState {
    let conn = dummy_conn();
    let wl_output: WlOutput = inert(&conn);
    let mut state = OutputCaptureState::new();
    state.register_output(wl_output);
    std::mem::forget(conn);
    state
}

/// What the registry handler does with a global: bind it as an output when
/// the library wants it.
fn announce_global(state: &mut OutputCaptureState, interface: &str, version: u32) {
    if should_bind_output(interface, version) {
        let conn = dummy_conn();
        state.register_output(inert(&conn));
        std::mem::forget(conn);
    }
}

#[test]
fn tests_capture_frame_state_new_with_gbm() {
    let state = CaptureFrameState::new(true);
    assert!(state.formats.is_empty());
    assert!(state.dmabuf_formats.is_empty());
    assert!(state.find_gbm);
}

#[test]
fn tests_capture_frame_state_new_without_gbm() {
    let state = CaptureFrameState::new(false);
    assert!(state.formats.is_empty());
    assert!(state.dmabuf_formats.is_empty());
    assert!(!state.find_gbm);
}

#[test]
fn dispatch_capture_frame_state_new_with_gbm() {
    let state = CaptureFrameState::new(true);
    assert!(state.formats.is_empty());
    assert!(state.dmabuf_formats.is_empty());
}

#[test]
fn dispatch_capture_frame_state_new_without_gbm() {
    let state = CaptureFrameState::new(false);
    assert!(state.formats.is_empty());
    assert!(state.dmabuf_formats.is_empty());
}

#[test]
fn capture_frame_state_initial_state_is_none() {
    let state = CaptureFrameState::new(false);
    assert!(state.state.is_none());
    assert!(state.toplevels.is_empty());
}

#[test]
fn frame_state_variants_and_equality() {
    assert_eq!(FrameState::Failed, FrameState::Failed);
    assert_eq!(FrameState::Finished, FrameState::Finished);
    assert_ne!(FrameState::Failed, FrameState::Finished);

    let reason = FailureCode::Unknown(42);
    let s1 = FrameState::FailedWithReason(reason);
    let s2 = FrameState::FailedWithReason(FailureCode::Unknown(42));
    assert_eq!(s1, s2);
    assert_ne!(s1, FrameState::Failed);
}

#[test]
fn registry_global_wl_output_v4_registers_output() {
    let mut state = OutputCaptureState::new();
    announce_global(&mut state, "wl_output", 4);
    assert_eq!(state.outputs.len(), 1);
    std::mem::forget(state);
}

#[test]
fn registry_global_wl_output_below_v4_is_ignored() {
    let mut state = OutputCaptureState::new();
    announce_global(&mut state, "wl_output", 3);
    assert!(state.outputs.is_empty());
}

#[test]
fn registry_global_other_interface_is_ignored() {
    let mut state = OutputCaptureState::new();
    announce_global(&mut state, "wl_seat", 7);
    assert!(state.outputs.is_empty());
}

#[test]
fn wl_output_event_for_unregistered_output_is_ignored() {
    let mut state = OutputCaptureState::new();
    state.output_event(0, OutputEvent::Name { name: "eDP-1".to_string() });
    assert!(state.outputs.is_empty());
}

#[test]
fn wl_output_name_event_sets_name() {
    let mut state = state_with_one_output();
    state.output_event(0, OutputEvent::Name { name: "eDP-1".to_string() });
    assert_eq!(state.outputs[0].name, "eDP-1");
    std::mem::forget(state);
}

#[test]
fn wl_output_description_event_sets_description() {
    let mut state = state_with_one_output();
    state.output_event(0, OutputEvent::Description { description: "Laptop screen".to_string() });
    assert_eq!(state.outputs[0].description, "Laptop screen");
    std::mem::forget(state);
}

#[test]
fn wl_output_mode_event_sets_physical_size() {
    let mut state = state_with_one_output();
    state.output_event(0, OutputEvent::Mode { width: 1920, height: 1080 });
    assert_eq!(state.outputs[0].physical_size.width, 1920);
    assert_eq!(state.outputs[0].physical_size.height, 1080);
    std::mem::forget(state);
}

#[test]
fn wl_output_geometry_event_sets_transform() {
    let mut state = state_with_one_output();
    state.output_event(0, OutputEvent::Geometry { transform: Some(Transform::_90) });
    assert_eq!(state.outputs[0].transform, Transform::_90);
    std::mem::forget(state);
}

#[test]
fn wl_output_geometry_unknown_transform_is_ignored() {
    let mut state = state_with_one_output();
    state.output_event(0, OutputEvent::Geometry { transform: None });
    assert_eq!(state.outputs[0].transform, Transform::Normal);
    std::mem::forget(state);
}

#[test]
fn wl_output_scale_and_done_events_are_noop() {
    let mut state = state_with_one_output();
    state.output_event(0, OutputEvent::Scale { factor: 2 });
    state.output_event(0, OutputEvent::Done);
    assert_eq!(state.outputs.len(), 1);
    assert!(state.outputs[0].name.is_empty());
    assert_eq!(state.outputs[0].physical_size, Size::default());
    std::mem::forget(state);
}

#[test]
fn zxdg_output_event_for_unregistered_index_is_ignored() {
    let mut state = OutputCaptureState::new();
    state.xdg_output_event(0, XdgOutputEvent::LogicalPosition { x: 1, y: 2 });
    assert!(state.outputs.is_empty());
}

#[test]
fn zxdg_output_logical_position_sets_position() {
    let mut state = state_with_one_output();
    state.xdg_output_event(0, XdgOutputEvent::LogicalPosition { x: 10, y: -5 });
    assert_eq!(state.outputs[0].logical_region.inner.position, Position { x: 10, y: -5 });
    std::mem::forget(state);
}

#[test]
fn zxdg_output_logical_size_sets_size() {
    let mut state = state_with_one_output();
    state.xdg_output_event(0, XdgOutputEvent::LogicalSize { width: 1920, height: 1080 });
    assert_eq!(state.outputs[0].logical_region.inner.size, Size { width: 1920, height: 1080 });
    std::mem::forget(state);
}

#[test]
fn zxdg_output_done_name_description_are_noop() {
    let mut state = state_with_one_output();
    for event in [XdgOutputEvent::Done, XdgOutputEvent::Name, XdgOutputEvent::Description] {
        state.xdg_output_event(0, event);
    }
    assert_eq!(state.outputs.len(), 1);
    assert_eq!(state.outputs[0].logical_region, Default::default());
    std::mem::forget(state);
}

#[test]
fn ext_frame_ready_sets_finished() {
    let mut state = CaptureFrameState::new(false);
    state.ext_frame_event(ExtFrameEvent::Ready);
    assert!(state.buffer_done);
    assert_eq!(state.state, Some(FrameState::Finished));
}

#[test]
fn ext_frame_failed_sets_failed_with_reason() {
    let mut state = CaptureFrameState::new(false);
    state.ext_frame_event(ExtFrameEvent::Failed {
        reason: FailureCode::Value(FailureReason::BufferConstraints),
    });
    assert!(state.buffer_done);
    assert_eq!(
        state.state,
        Some(FrameState::FailedWithReason(FailureCode::Value(FailureReason::BufferConstraints)))
    );
}

#[test]
fn ext_frame_transform_sets_transform() {
    let mut state = CaptureFrameState::new(false);
    state.ext_frame_event(ExtFrameEvent::Transform { transform: Some(Transform::Flipped180) });
    assert_eq!(state.transform, Some(Transform::Flipped180));
}

#[test]
fn ext_frame_transform_unknown_is_ignored() {
    let mut state = CaptureFrameState::new(false);
    state.ext_frame_event(ExtFrameEvent::Transform { transform: None });
    assert_eq!(state.transform, None);
}

#[test]
fn ext_frame_damage_is_noop() {
    let mut state = CaptureFrameState::new(false);
    state.ext_frame_event(ExtFrameEvent::Damage);
    state.ext_frame_event(ExtFrameEvent::PresentationTime);
    assert!(state.state.is_none());
    assert!(!state.buffer_done);
}

#[test]
fn session_buffer_size_updates_formats_and_dmabuf_formats() {
    let mut state = CaptureFrameState::new(false);
    state.formats.push(FrameFormat {
        format: ShmFormat::Argb8888,
        size: Size::default(),
        stride: 0,
    });
    state.dmabuf_formats.push(DMAFrameFormat {
        format: 0,
        size: Size::default(),
    });
    state.session_event(SessionEvent::BufferSize { width: 1920, height: 1080 });
    assert_eq!(state.formats[0].size, Size { width: 1920, height: 1080 });
    assert_eq!(state.formats[0].stride, 4 * 1920);
    assert_eq!(state.dmabuf_formats[0].size, Size { width: 1920, height: 1080 });
}

#[test]
fn session_shm_format_pushes_format() {
    let mut state = CaptureFrameState::new(false);
    state.session_event(SessionEvent::ShmFormat { format: Some(ShmFormat::Xbgr8888) });
    assert_eq!(state.formats.len(), 1);
    assert_eq!(state.formats[0].format, ShmFormat::Xbgr8888);
}

#[test]
fn session_shm_format_unknown_is_ignored() {
    let mut state = CaptureFrameState::new(false);
    state.session_event(SessionEvent::ShmFormat { format: None });
    assert!(state.formats.is_empty());
}

#[test]
fn session_dmabuf_format_pushes_dma_format() {
    let mut state = CaptureFrameState::new(false);
    state.session_event(SessionEvent::DmabufFormat { format: 0x34325241 });
    assert_eq!(state.dmabuf_formats.len(), 1);
    assert_eq!(state.dmabuf_formats[0].format, 0x34325241);
}

#[test]
fn session_done_sets_session_done() {
    let mut state = CaptureFrameState::new(false);
    state.session_event(SessionEvent::Done);
    assert!(state.session_done);
    assert!(state.state.is_none());
}

#[test]
fn session_stopped_sets_failed() {
    let mut state = CaptureFrameState::new(false);
    state.session_event(SessionEvent::Stopped);
    assert!(state.session_done);
    assert_eq!(state.state, Some(FrameState::Failed));
}

#[test]
fn session_formats_after_buffer_size_take_that_size() {
    let mut state = CaptureFrameState::new(false);
    state.session_event(SessionEvent::BufferSize { width: 640, height: 480 });
    state.session_event(SessionEvent::ShmFormat { format: Some(ShmFormat::Argb8888) });
    state.session_event(SessionEvent::DmabufFormat { format: 7 });
    assert_eq!(
        state.formats[0],
        FrameFormat { format: ShmFormat::Argb8888, size: Size { width: 640, height: 480 }, stride: 2560 }
    );
    assert_eq!(state.dmabuf_formats[0].size, Size { width: 640, height: 480 });
}

#[test]
fn toplevel_list_toplevel_event_pushes_toplevel() {
    let conn = dummy_conn();
    let handle: ExtForeignToplevelHandleV1 = inert(&conn);
    let mut state = CaptureFrameState::new(false);
    state.toplevel_added(handle);
    assert_eq!(state.toplevels.len(), 1);
    assert!(state.toplevels[0].active);
    std::mem::forget(state);
}

#[test]
fn toplevel_handle_event_for_unregistered_toplevel_is_ignored() {
    let mut state = CaptureFrameState::new(false);
    state.toplevel_event(0, ToplevelEvent::Title { title: "My App".to_string() });
    assert!(state.toplevels.is_empty());
}

#[test]
fn toplevel_handle_events_update_matching_toplevel() {
    let conn = dummy_conn();
    let handle: ExtForeignToplevelHandleV1 = inert(&conn);
    let mut state = CaptureFrameState::new(false);
    state.toplevels.push(TopLevel::new(handle.clone()));
    state.toplevel_event(0, ToplevelEvent::Title { title: "My App".to_string() });
    state.toplevel_event(0, ToplevelEvent::AppId { app_id: "com.example.app".to_string() });
    state.toplevel_event(0, ToplevelEvent::Identifier { identifier: "id-1".to_string() });
    assert_eq!(state.toplevels[0].title, "My App");
    assert_eq!(state.toplevels[0].app_id, "com.example.app");
    assert_eq!(state.toplevels[0].identifier, "id-1");
    assert!(state.toplevels[0].active);
    state.toplevel_event(0, ToplevelEvent::Closed);
    assert!(!state.toplevels[0].active);
    std::mem::forget(state);
    std::mem::forget(handle);
}

#[test]
fn toplevel_handle_done_event_is_noop() {
    let conn = dummy_conn();
    let handle: ExtForeignToplevelHandleV1 = inert(&conn);
    let mut state = CaptureFrameState::new(false);
    state.toplevels.push(TopLevel::new(handle.clone()));
    state.toplevel_event(0, ToplevelEvent::Done);
    assert!(state.toplevels[0].active);
    assert!(state.toplevels[0].title.is_empty());
    std::mem::forget(state);
    std::mem::forget(handle);
}

#[test]
fn screencopy_frame_buffer_event_pushes_format() {
    let mut state = CaptureFrameState::new(false);
    state.screencopy_event(ScreencopyEvent::Buffer {
        format: Some(ShmFormat::Argb8888),
        width: 100,
        height: 200,
        stride: 400,
    });
    assert_eq!(state.formats.len(), 1);
    assert_eq!(state.formats[0].format, ShmFormat::Argb8888);
}

#[test]
fn screencopy_frame_buffer_unknown_format_is_ignored() {
    let mut state = CaptureFrameState::new(false);
    state.screencopy_event(ScreencopyEvent::Buffer {
        format: None,
        width: 100,
        height: 200,
        stride: 400,
    });
    assert!(state.formats.is_empty());
}

#[test]
fn screencopy_frame_ready_sets_finished() {
    let mut state = CaptureFrameState::new(false);
    state.screencopy_event(ScreencopyEvent::Ready);
    assert_eq!(state.state, Some(FrameState::Finished));
}

#[test]
fn screencopy_frame_failed_sets_failed() {
    let mut state = CaptureFrameState::new(false);
    state.screencopy_event(ScreencopyEvent::Failed);
    assert_eq!(state.state, Some(FrameState::Failed));
}

#[test]
fn screencopy_frame_damage_is_noop() {
    let mut state = CaptureFrameState::new(false);
    state.screencopy_event(ScreencopyEvent::Damage);
    state.screencopy_event(ScreencopyEvent::Flags);
    assert!(state.state.is_none());
}

#[test]
fn screencopy_frame_linux_dmabuf_pushes_dma_format() {
    let mut state = CaptureFrameState::new(false);
    state.screencopy_event(ScreencopyEvent::LinuxDmabuf {
        format: 0x34325241,
        width: 1920,
        height: 1080,
    });
    assert_eq!(state.dmabuf_formats.len(), 1);
    assert_eq!(state.dmabuf_formats[0].format, 0x34325241);
}

#[test]
fn screencopy_frame_buffer_done_sets_flag() {
    let mut state = CaptureFrameState::new(false);
    state.screencopy_event(ScreencopyEvent::BufferDone);
    assert!(state.buffer_done);
}

#[test]
fn done_flags_stay_set() {
    let mut state = CaptureFrameState::new(false);
    state.screencopy_event(ScreencopyEvent::BufferDone);
    state.screencopy_event(ScreencopyEvent::Buffer {
        format: Some(ShmFormat::Xrgb8888),
        width: 1,
        height: 1,
        stride: 4,
    });
    state.screencopy_event(ScreencopyEvent::Failed);
    state.ext_frame_event(ExtFrameEvent::Damage);
    assert!(state.buffer_done);
    assert_eq!(state.formats.len(), 1);
    state.session_event(SessionEvent::Done);
    state.session_event(SessionEvent::ShmFormat { format: None });
    state.screencopy_event(ScreencopyEvent::Ready);
    assert!(state.session_done);
    assert!(state.buffer_done);
    assert_eq!(state.formats.len(), 1);
}

#[test]
fn oversized_buffer_widths_are_refused_before_use() {
    let state = CaptureFrameState::new(false);
    assert!(state.accepts_session_event(&SessionEvent::BufferSize { width: 0x3fff_ffff, height: 1 }));
    assert!(!state.accepts_session_event(&SessionEvent::BufferSize { width: 0x4000_0000, height: 1 }));
    assert!(state.accepts_session_event(&SessionEvent::Done));
}

fn state_with_a_format(find_gbm: bool) -> CaptureFrameState {
    let mut state = CaptureFrameState::new(find_gbm);
    state.session_event(SessionEvent::BufferSize { width: 8, height: 4 });
    state.session_event(SessionEvent::ShmFormat { format: Some(ShmFormat::Xrgb8888) });
    state
}

fn assert_same_capture(a: &CaptureFrameState, b: &CaptureFrameState) {
    assert_eq!(a.formats, b.formats);
    assert_eq!(a.dmabuf_formats, b.dmabuf_formats);
    assert_eq!(a.state, b.state);
    assert_eq!(a.buffer_done, b.buffer_done);
    assert_eq!(a.session_done, b.session_done);
    assert_eq!(a.transform, b.transform);
    assert_eq!(a.buffer_size, b.buffer_size);
    assert_eq!(a.toplevels.len(), b.toplevels.len());
    assert_eq!(a.find_gbm, b.find_gbm);
}

#[test]
fn session_dmabuf_device_without_find_gbm_is_noop() {
    let mut state = state_with_a_format(false);
    let before = state_with_a_format(false);
    state.session_event(SessionEvent::DmabufDevice);
    assert_same_capture(&state, &before);
}

#[test]
fn session_dmabuf_device_with_invalid_length_is_ignored() {
    // the device's bytes are not carried: an ill-formed device changes nothing
    let mut state = state_with_a_format(true);
    let before = state_with_a_format(true);
    state.session_event(SessionEvent::DmabufDevice);
    assert_same_capture(&state, &before);
}

#[test]
fn session_dmabuf_device_with_unknown_drm_node_is_ignored() {
    let mut state = CaptureFrameState::new(true);
    let before = CaptureFrameState::new(true);
    state.session_event(SessionEvent::DmabufDevice);
    assert_same_capture(&state, &before);
    assert!(state.formats.is_empty());
}
