//! The decisions taken on protocol events: what each event of a frame
//! capture, of a capture session, of an output or of a toplevel changes in
//! the state the library keeps.

use vstd::prelude::*;

use wayland_client::protocol::wl_output::WlOutput;
use wayland_protocols::ext::foreign_toplevel_list::v1::client::ext_foreign_toplevel_handle_v1::ExtForeignToplevelHandleV1;

use crate::convert::ShmFormat;
use crate::error::FailureCode;
use crate::output::{OutputInfo, Transform};
use crate::region::{Position, Size};
use crate::screencopy::{DMAFrameFormat, FrameFormat};
use crate::toplevel::TopLevel;

verus! {

/// The state of the registry queue: the library reads nothing from it.
pub struct WayshotState {}


/// State of the frame after attempting to copy its data to a buffer.
#[derive(Debug, Copy, Clone, PartialEq, Eq, Structural)]
pub enum FrameState {
    /// Compositor returned a failed event on calling `frame.copy`.
    Failed,
    /// Compositor returned a failed event with a reason.
    FailedWithReason(FailureCode),
    /// Compositor sent a Ready event on calling `frame.copy`.
    Finished,
}

/// Events of a wlr-screencopy frame.
#[derive(Debug, Copy, Clone, PartialEq, Eq, Structural)]
#[allow(inconsistent_fields)]
pub enum ScreencopyEvent {
    /// A buffer type the compositor supports; `format` is `None` for a code
    /// that the protocol does not define.
    Buffer { format: Option<ShmFormat>, width: u32, height: u32, stride: u32 },
    Flags,
    Ready,
    Failed,
    Damage,
    LinuxDmabuf { format: u32, width: u32, height: u32 },
    BufferDone,
}

/// Events of an ext-image-copy-capture frame.
#[derive(Debug, Copy, Clone, PartialEq, Eq, Structural)]
pub enum ExtFrameEvent {
    /// `transform` is `None` for a code that the protocol does not define.
    Transform { transform: Option<Transform> },
    Damage,
    PresentationTime,
    Ready,
    Failed { reason: FailureCode },
}

/// Events of an ext-image-copy-capture session.
#[derive(Debug, Copy, Clone, PartialEq, Eq, Structural)]
#[allow(inconsistent_fields)]
pub enum SessionEvent {
    BufferSize { width: u32, height: u32 },
    /// `format` is `None` for a code that the protocol does not define.
    ShmFormat { format: Option<ShmFormat> },
    DmabufDevice,
    DmabufFormat { format: u32 },
    Done,
    Stopped,
}

/// Events of a toplevel handle.
#[derive(Debug, Clone)]
pub enum ToplevelEvent {
    Closed,
    Done,
    Title { title: String },
    AppId { app_id: String },
    Identifier { identifier: String },
}

/// What the library learns while capturing one frame.
pub struct CaptureFrameState {
    pub formats: Vec<FrameFormat>,
    pub dmabuf_formats: Vec<DMAFrameFormat>,
    pub state: Option<FrameState>,
    pub buffer_done: bool,
    pub session_done: bool,
    pub transform: Option<Transform>,
    /// The buffer size that the capture session announced, if any.
    pub buffer_size: Option<Size>,
    pub toplevels: Vec<TopLevel>,
    /// Whether a GBM device should be looked for from the session's dmabuf device.
    pub find_gbm: bool,
}

/// The mathematical view of a [CaptureFrameState].
pub struct CaptureFrameView {
    pub formats: Seq<FrameFormat>,
    pub dmabuf_formats: Seq<DMAFrameFormat>,
    pub state: Option<FrameState>,
    pub buffer_done: bool,
    pub session_done: bool,
    pub transform: Option<Transform>,
    pub buffer_size: Option<Size>,
    pub toplevels: Seq<TopLevel>,
    pub find_gbm: bool,
}

impl View for CaptureFrameState {
    type V = CaptureFrameView;

    open spec fn view(&self) -> CaptureFrameView {
        CaptureFrameView {
            formats: self.formats@,
            dmabuf_formats: self.dmabuf_formats@,
            state: self.state,
            buffer_done: self.buffer_done,
            session_done: self.session_done,
            transform: self.transform,
            buffer_size: self.buffer_size,
            toplevels: self.toplevels@,
            find_gbm: self.find_gbm,
        }
    }
}

/// What a wlr-screencopy frame event changes.
pub open spec fn screencopy_step(v: CaptureFrameView, e: ScreencopyEvent) -> CaptureFrameView {
    match e {
        ScreencopyEvent::Buffer { format, width, height, stride } => match format {
            Some(f) => CaptureFrameView {
                formats: v.formats.push(
                    FrameFormat { format: f, size: Size { width, height }, stride },
                ),
                ..v
            },
            None => v,
        },
        ScreencopyEvent::Ready => CaptureFrameView { state: Some(FrameState::Finished), ..v },
        ScreencopyEvent::Failed => CaptureFrameView { state: Some(FrameState::Failed), ..v },
        ScreencopyEvent::LinuxDmabuf { format, width, height } => CaptureFrameView {
            dmabuf_formats: v.dmabuf_formats.push(
                DMAFrameFormat { format, size: Size { width, height } },
            ),
            ..v
        },
        ScreencopyEvent::BufferDone => CaptureFrameView { buffer_done: true, ..v },
        ScreencopyEvent::Flags | ScreencopyEvent::Damage => v,
    }
}

/// What an ext-image-copy-capture frame event changes.
pub open spec fn ext_frame_step(v: CaptureFrameView, e: ExtFrameEvent) -> CaptureFrameView {
    match e {
        ExtFrameEvent::Ready => CaptureFrameView {
            buffer_done: true,
            state: Some(FrameState::Finished),
            ..v
        },
        ExtFrameEvent::Failed { reason } => CaptureFrameView {
            buffer_done: true,
            state: Some(FrameState::FailedWithReason(reason)),
            ..v
        },
        ExtFrameEvent::Transform { transform } => match transform {
            Some(t) => CaptureFrameView { transform: Some(t), ..v },
            None => v,
        },
        ExtFrameEvent::Damage | ExtFrameEvent::PresentationTime => v,
    }
}

/// The size and stride that a shared memory format of a session takes:
/// the announced buffer size, four bytes per pixel; zero before any size.
pub open spec fn session_format(v: CaptureFrameView, f: ShmFormat) -> FrameFormat {
    match v.buffer_size {
        Some(s) => FrameFormat { format: f, size: s, stride: (4 * s.width) as u32 },
        None => FrameFormat { format: f, size: Size { width: 0, height: 0 }, stride: 0 },
    }
}

/// What an ext-image-copy-capture session event changes. The announced size
/// applies to every format, known and to come.
pub open spec fn session_step(v: CaptureFrameView, e: SessionEvent) -> CaptureFrameView {
    match e {
        SessionEvent::BufferSize { width, height } => CaptureFrameView {
            formats: v.formats.map_values(
                |f: FrameFormat|
                    FrameFormat {
                        size: Size { width, height },
                        stride: (4 * width) as u32,
                        ..f
                    },
            ),
            dmabuf_formats: v.dmabuf_formats.map_values(
                |f: DMAFrameFormat| DMAFrameFormat { size: Size { width, height }, ..f },
            ),
            buffer_size: Some(Size { width, height }),
            ..v
        },
        SessionEvent::ShmFormat { format } => match format {
            Some(f) => CaptureFrameView { formats: v.formats.push(session_format(v, f)), ..v },
            None => v,
        },
        SessionEvent::DmabufFormat { format } => CaptureFrameView {
            dmabuf_formats: v.dmabuf_formats.push(
                DMAFrameFormat {
                    format,
                    size: match v.buffer_size {
                        Some(s) => s,
                        None => Size { width: 0, height: 0 },
                    },
                },
            ),
            ..v
        },
        SessionEvent::Done => CaptureFrameView { session_done: true, ..v },
        SessionEvent::Stopped => CaptureFrameView {
            session_done: true,
            state: Some(FrameState::Failed),
            ..v
        },
        SessionEvent::DmabufDevice => v,
    }
}

/// What a toplevel handle event changes in the toplevel it is about.
pub open spec fn toplevel_updated(t: TopLevel, e: ToplevelEvent) -> TopLevel {
    match e {
        ToplevelEvent::Closed => TopLevel { active: false, ..t },
        ToplevelEvent::Done => t,
        ToplevelEvent::Title { title } => TopLevel { title, ..t },
        ToplevelEvent::AppId { app_id } => TopLevel { app_id, ..t },
        ToplevelEvent::Identifier { identifier } => TopLevel { identifier, ..t },
    }
}

/// Whether a session event can be applied without an arithmetic overflow.
pub open spec fn session_event_in_range(v: CaptureFrameView, e: SessionEvent) -> bool {
    &&& e matches SessionEvent::BufferSize { width, .. } ==> 4 * width <= u32::MAX
    &&& v.buffer_size matches Some(s) ==> 4 * s.width <= u32::MAX
}

impl CaptureFrameState {
    /// A state with nothing learnt yet.
    pub fn new(find_gbm: bool) -> (r: Self)
        ensures
            r@.formats == Seq::<FrameFormat>::empty(),
            r@.dmabuf_formats == Seq::<DMAFrameFormat>::empty(),
            r@.state is None,
            !r@.buffer_done,
            !r@.session_done,
            r@.transform is None,
            r@.buffer_size is None,
            r@.toplevels == Seq::<TopLevel>::empty(),
            r@.find_gbm == find_gbm,
    {
        CaptureFrameState {
            formats: Vec::new(),
            dmabuf_formats: Vec::new(),
            state: None,
            buffer_done: false,
            session_done: false,
            transform: None,
            buffer_size: None,
            toplevels: Vec::new(),
            find_gbm,
        }
    }

    /// Applies an event of a wlr-screencopy frame.
    pub fn screencopy_event(&mut self, event: ScreencopyEvent)
        ensures
            final(self)@ == screencopy_step(old(self)@, event),
    {
        match event {
            ScreencopyEvent::Buffer { format, width, height, stride } => {
                if let Some(f) = format {
                    self.formats.push(FrameFormat { format: f, size: Size { width, height }, stride });
                }
            },
            ScreencopyEvent::Ready => {
                self.state = Some(FrameState::Finished);
            },
            ScreencopyEvent::Failed => {
                self.state = Some(FrameState::Failed);
            },
            ScreencopyEvent::LinuxDmabuf { format, width, height } => {
                self.dmabuf_formats.push(DMAFrameFormat { format, size: Size { width, height } });
            },
            ScreencopyEvent::BufferDone => {
                self.buffer_done = true;
            },
            ScreencopyEvent::Flags | ScreencopyEvent::Damage => {},
        }
    }

    /// Applies an event of an ext-image-copy-capture frame.
    pub fn ext_frame_event(&mut self, event: ExtFrameEvent)
        ensures
            final(self)@ == ext_frame_step(old(self)@, event),
    {
        match event {
            ExtFrameEvent::Ready => {
                self.buffer_done = true;
                self.state = Some(FrameState::Finished);
            },
            ExtFrameEvent::Failed { reason } => {
                self.buffer_done = true;
                self.state = Some(FrameState::FailedWithReason(reason));
            },
            ExtFrameEvent::Transform { transform } => {
                if let Some(t) = transform {
                    self.transform = Some(t);
                }
            },
            ExtFrameEvent::Damage | ExtFrameEvent::PresentationTime => {},
        }
    }

    /// Whether `session_event` can apply an event without an arithmetic
    /// overflow in the stride of a format: four times the width of a buffer
    /// must fit in a `u32`.
    pub fn accepts_session_event(&self, event: &SessionEvent) -> (r: bool)
        ensures
            r == session_event_in_range(self@, *event),
    {
        let event_ok = match event {
            SessionEvent::BufferSize { width, .. } => *width <= 0x3fff_ffff,
            _ => true,
        };
        let size_ok = match self.buffer_size {
            Some(s) => s.width <= 0x3fff_ffff,
            None => true,
        };
        event_ok && size_ok
    }

    /// Applies an event of an ext-image-copy-capture session.
    pub fn session_event(&mut self, event: SessionEvent)
        requires
            session_event_in_range(old(self)@, event),
        ensures
            final(self)@ == session_step(old(self)@, event),
    {
        match event {
            SessionEvent::BufferSize { width, height } => {
                let ghost old_formats = self.formats@;
                let ghost old_dma = self.dmabuf_formats@;
                let ghost before = self@;
                let n = self.formats.len();
                let mut i: usize = 0;
                while i < n
                    invariant
                        n == self.formats@.len(),
                        n == old_formats.len(),
                        self.dmabuf_formats@ == old_dma,
                        self@ == (CaptureFrameView { formats: self@.formats, dmabuf_formats: self@.dmabuf_formats, ..before }),
                        i <= n,
                        4 * width <= u32::MAX,
                        forall|j: int|
                            0 <= j < i ==> self.formats@[j] == (FrameFormat {
                                size: Size { width, height },
                                stride: (4 * width) as u32,
                                ..old_formats[j]
                            }),
                        forall|j: int| i <= j < n ==> self.formats@[j] == old_formats[j],
                    decreases n - i,
                {
                    let f = self.formats[i];
                    self.formats.set(
                        i,
                        FrameFormat { format: f.format, size: Size { width, height }, stride: 4 * width },
                    );
                    i = i + 1;
                }
                let ghost new_formats = self.formats@;
                assert(new_formats =~= old_formats.map_values(
                    |f: FrameFormat|
                        FrameFormat {
                            size: Size { width, height },
                            stride: (4 * width) as u32,
                            ..f
                        },
                ));
                let m = self.dmabuf_formats.len();
                let mut k: usize = 0;
                while k < m
                    invariant
                        m == self.dmabuf_formats@.len(),
                        m == old_dma.len(),
                        self.formats@ == new_formats,
                        self@ == (CaptureFrameView { formats: self@.formats, dmabuf_formats: self@.dmabuf_formats, ..before }),
                        k <= m,
                        forall|j: int|
                            0 <= j < k ==> self.dmabuf_formats@[j] == (DMAFrameFormat {
                                size: Size { width, height },
                                ..old_dma[j]
                            }),
                        forall|j: int| k <= j < m ==> self.dmabuf_formats@[j] == old_dma[j],
                    decreases m - k,
                {
                    let f = self.dmabuf_formats[k];
                    self.dmabuf_formats.set(k, DMAFrameFormat { format: f.format, size: Size { width, height } });
                    k = k + 1;
                }
                self.buffer_size = Some(Size { width, height });
                assert(self.dmabuf_formats@ =~= old_dma.map_values(
                    |f: DMAFrameFormat| DMAFrameFormat { size: Size { width, height }, ..f },
                ));
            },
            SessionEvent::ShmFormat { format } => {
                if let Some(f) = format {
                    let entry = match self.buffer_size {
                        Some(s) => FrameFormat { format: f, size: s, stride: 4 * s.width },
                        None => FrameFormat { format: f, size: Size { width: 0, height: 0 }, stride: 0 },
                    };
                    self.formats.push(entry);
                }
            },
            SessionEvent::DmabufFormat { format } => {
                let size = match self.buffer_size {
                    Some(s) => s,
                    None => Size { width: 0, height: 0 },
                };
                self.dmabuf_formats.push(DMAFrameFormat { format, size });
            },
            SessionEvent::Done => {
                self.session_done = true;
            },
            SessionEvent::Stopped => {
                self.session_done = true;
                self.state = Some(FrameState::Failed);
            },
            SessionEvent::DmabufDevice => {},
        }
    }

    /// Records a toplevel that the toplevel list announced.
    pub fn toplevel_added(&mut self, handle: ExtForeignToplevelHandleV1)
        ensures
            final(self)@.toplevels.len() == old(self)@.toplevels.len() + 1,
            final(self)@.toplevels.drop_last() == old(self)@.toplevels,
            final(self)@.toplevels.last() == (TopLevel {
                handle,
                title: final(self)@.toplevels.last().title,
                app_id: final(self)@.toplevels.last().app_id,
                identifier: final(self)@.toplevels.last().identifier,
                active: true,
            }),
            final(self)@.toplevels.last().title@ == Seq::<char>::empty(),
            final(self)@.toplevels.last().app_id@ == Seq::<char>::empty(),
            final(self)@.toplevels.last().identifier@ == Seq::<char>::empty(),
            final(self)@ == (CaptureFrameView { toplevels: final(self)@.toplevels, ..old(self)@ }),
    {
        self.toplevels.push(TopLevel::new(handle));
        assert(self@.toplevels.drop_last() =~= old(self)@.toplevels);
    }

    /// Applies an event of the toplevel at `index`; an index of no recorded
    /// toplevel changes nothing.
    pub fn toplevel_event(&mut self, index: usize, event: ToplevelEvent)
        ensures
            index < old(self)@.toplevels.len() ==> final(self)@ == (CaptureFrameView {
                toplevels: old(self)@.toplevels.update(
                    index as int,
                    toplevel_updated(old(self)@.toplevels[index as int], event),
                ),
                ..old(self)@
            }),
            index >= old(self)@.toplevels.len() ==> final(self)@ == old(self)@,
    {
        if index >= self.toplevels.len() {
            return;
        }
        match event {
            ToplevelEvent::Closed => {
                self.toplevels[index].active = false;
            },
            ToplevelEvent::Done => {},
            ToplevelEvent::Title { title } => {
                self.toplevels[index].title = title;
            },
            ToplevelEvent::AppId { app_id } => {
                self.toplevels[index].app_id = app_id;
            },
            ToplevelEvent::Identifier { identifier } => {
                self.toplevels[index].identifier = identifier;
            },
        }
        assert(self@.toplevels =~= old(self)@.toplevels.update(
            index as int,
            toplevel_updated(old(self)@.toplevels[index as int], event),
        ));
    }
}

/// Events of an output.
#[derive(Debug, Clone)]
pub enum OutputEvent {
    Name { name: String },
    Description { description: String },
    Mode { width: i32, height: i32 },
    /// `transform` is `None` for a code that the protocol does not define.
    Geometry { transform: Option<Transform> },
    Scale { factor: i32 },
    Done,
}

/// Events of the xdg-output of an output.
#[derive(Debug, Clone)]
pub enum XdgOutputEvent {
    LogicalPosition { x: i32, y: i32 },
    LogicalSize { width: i32, height: i32 },
    Done,
    Name,
    Description,
}

/// What an output event changes in the output it is about.
pub open spec fn output_updated(o: OutputInfo, e: OutputEvent) -> OutputInfo {
    match e {
        OutputEvent::Name { name } => OutputInfo { name, ..o },
        OutputEvent::Description { description } => OutputInfo { description, ..o },
        OutputEvent::Mode { width, height } => OutputInfo {
            physical_size: Size { width: width as u32, height: height as u32 },
            ..o
        },
        OutputEvent::Geometry { transform } => match transform {
            Some(t) => OutputInfo { transform: t, ..o },
            None => o,
        },
        OutputEvent::Scale { .. } | OutputEvent::Done => o,
    }
}

/// What an xdg-output event changes in the output it is about.
pub open spec fn xdg_output_updated(o: OutputInfo, e: XdgOutputEvent) -> OutputInfo {
    match e {
        XdgOutputEvent::LogicalPosition { x, y } => OutputInfo {
            logical_region: logical_region_at(Position { x, y }, o.logical_region.inner.size),
            ..o
        },
        XdgOutputEvent::LogicalSize { width, height } => OutputInfo {
            logical_region: logical_region_at(
                o.logical_region.inner.position,
                Size { width: width as u32, height: height as u32 },
            ),
            ..o
        },
        XdgOutputEvent::Done | XdgOutputEvent::Name | XdgOutputEvent::Description => o,
    }
}

/// A logical region with the given position and size.
pub open spec fn logical_region_at(p: Position, s: Size) -> crate::region::LogicalRegion {
    crate::region::LogicalRegion { inner: crate::region::Region { position: p, size: s } }
}

/// The outputs that the compositor announced, as their events arrive.
pub struct OutputCaptureState {
    pub outputs: Vec<OutputInfo>,
}

/// Whether a global of the registry is an output that the library binds:
/// a `wl_output` of version 4 or later.
pub open spec fn binds_output(interface: Seq<char>, version: u32) -> bool {
    interface == "wl_output"@ && version >= 4
}

/// Whether `s` holds exactly the characters of `t`.
fn str_equals(s: &str, t: &str) -> (r: bool)
    ensures
        r == (s@ == t@),
{
    let n = s.unicode_len();
    if n != t.unicode_len() {
        return false;
    }
    let mut i: usize = 0;
    while i < n
        invariant
            n == s@.len(),
            n == t@.len(),
            i <= n,
            forall|j: int| 0 <= j < i ==> s@[j] == t@[j],
        decreases n - i,
    {
        if s.get_char(i) != t.get_char(i) {
            return false;
        }
        i = i + 1;
    }
    assert(s@ =~= t@);
    true
}

/// Whether a registry global should be bound as an output.
pub fn should_bind_output(interface: &str, version: u32) -> (r: bool)
    ensures
        r == binds_output(interface@, version),
{
    str_equals(interface, "wl_output") && version >= 4
}

impl OutputCaptureState {
    /// No output announced yet.
    pub fn new() -> (r: Self)
        ensures
            r.outputs@ == Seq::<OutputInfo>::empty(),
    {
        OutputCaptureState { outputs: Vec::new() }
    }

    /// Records an output that was just bound, with default fields.
    pub fn register_output(&mut self, output: WlOutput)
        ensures
            final(self).outputs@.len() == old(self).outputs@.len() + 1,
            final(self).outputs@.drop_last() == old(self).outputs@,
            final(self).outputs@.last().wl_output == output,
            crate::output::has_default_fields(final(self).outputs@.last()),
    {
        self.outputs.push(OutputInfo::new(output));
        assert(self.outputs@.drop_last() =~= old(self).outputs@);
    }

    /// Applies an event of the output at `index`; an index of no recorded
    /// output changes nothing.
    pub fn output_event(&mut self, index: usize, event: OutputEvent)
        ensures
            index < old(self).outputs@.len() ==> final(self).outputs@ == old(self).outputs@.update(
                index as int,
                output_updated(old(self).outputs@[index as int], event),
            ),
            index >= old(self).outputs@.len() ==> final(self).outputs@ == old(self).outputs@,
    {
        if index >= self.outputs.len() {
            return;
        }
        match event {
            OutputEvent::Name { name } => {
                self.outputs[index].name = name;
            },
            OutputEvent::Description { description } => {
                self.outputs[index].description = description;
            },
            OutputEvent::Mode { width, height } => {
                self.outputs[index].physical_size = Size {
                    width: #[verifier::truncate] (width as u32),
                    height: #[verifier::truncate] (height as u32),
                };
            },
            OutputEvent::Geometry { transform } => {
                if let Some(t) = transform {
                    self.outputs[index].transform = t;
                }
            },
            OutputEvent::Scale { .. } | OutputEvent::Done => {},
        }
        assert(self.outputs@ =~= old(self).outputs@.update(
            index as int,
            output_updated(old(self).outputs@[index as int], event),
        ));
    }

    /// Applies an xdg-output event of the output at `index`; an index of no
    /// recorded output changes nothing.
    pub fn xdg_output_event(&mut self, index: usize, event: XdgOutputEvent)
        ensures
            index < old(self).outputs@.len() ==> final(self).outputs@ == old(self).outputs@.update(
                index as int,
                xdg_output_updated(old(self).outputs@[index as int], event),
            ),
            index >= old(self).outputs@.len() ==> final(self).outputs@ == old(self).outputs@,
    {
        if index >= self.outputs.len() {
            return;
        }
        match event {
            XdgOutputEvent::LogicalPosition { x, y } => {
                self.outputs[index].logical_region.inner.position = Position { x, y };
            },
            XdgOutputEvent::LogicalSize { width, height } => {
                self.outputs[index].logical_region.inner.size = Size {
                    width: #[verifier::truncate] (width as u32),
                    height: #[verifier::truncate] (height as u32),
                };
            },
            XdgOutputEvent::Done | XdgOutputEvent::Name | XdgOutputEvent::Description => {},
        }
        assert(self.outputs@ =~= old(self).outputs@.update(
            index as int,
            xdg_output_updated(old(self).outputs@[index as int], event),
        ));
    }
}

/// Whether a window configure event with the proposed size should be applied
/// to a window of the current size: a zero width or height is not respected,
/// and an unchanged size needs nothing.
pub fn should_apply_configure(current: (i32, i32), proposed: (i32, i32)) -> (r: bool)
    ensures
        r == (proposed.0 != 0 && proposed.1 != 0 && (proposed.0 != current.0 || proposed.1 != current.1)),
{
    if proposed.0 == 0 || proposed.1 == 0 {
        return false;
    }
    current.0 != proposed.0 || current.1 != proposed.1
}

/// Once the compositor has said that the buffers are announced, or that the
/// session is done, no event takes it back; and no wlr-screencopy frame event
/// removes a format that was announced.
pub proof fn lemma_capture_flags_stay(v: CaptureFrameView, s: ScreencopyEvent, x: ExtFrameEvent, e: SessionEvent)
    ensures
        v.buffer_done ==> screencopy_step(v, s).buffer_done,
        v.buffer_done ==> ext_frame_step(v, x).buffer_done,
        v.buffer_done ==> session_step(v, e).buffer_done,
        v.session_done ==> screencopy_step(v, s).session_done,
        v.session_done ==> ext_frame_step(v, x).session_done,
        v.session_done ==> session_step(v, e).session_done,
        v.formats.is_prefix_of(screencopy_step(v, s).formats),
        v.dmabuf_formats.is_prefix_of(screencopy_step(v, s).dmabuf_formats),
{
    assert(v.formats.is_prefix_of(v.formats));
    assert(v.dmabuf_formats.is_prefix_of(v.dmabuf_formats));
}

/// A wlr-screencopy buffer event of a known format records one more frame
/// format, at the end, with exactly the event's format, width, height and
/// stride, and keeps what was recorded before; a dmabuf event does the same
/// for dmabuf formats. Neither touches anything else.
pub proof fn lemma_buffer_events_record_their_sizes(
    v: CaptureFrameView,
    f: ShmFormat,
    width: u32,
    height: u32,
    stride: u32,
    code: u32,
)
    ensures
        ({
            let n = screencopy_step(v, ScreencopyEvent::Buffer { format: Some(f), width, height, stride });
            &&& n.formats.len() == v.formats.len() + 1
            &&& n.formats.take(v.formats.len() as int) == v.formats
            &&& n.formats.last().format == f
            &&& n.formats.last().size.width == width
            &&& n.formats.last().size.height == height
            &&& n.formats.last().stride == stride
            &&& n.dmabuf_formats == v.dmabuf_formats
            &&& n.state == v.state
            &&& n.buffer_done == v.buffer_done
        }),
        ({
            let n = screencopy_step(v, ScreencopyEvent::LinuxDmabuf { format: code, width, height });
            &&& n.dmabuf_formats.len() == v.dmabuf_formats.len() + 1
            &&& n.dmabuf_formats.take(v.dmabuf_formats.len() as int) == v.dmabuf_formats
            &&& n.dmabuf_formats.last().format == code
            &&& n.dmabuf_formats.last().size.width == width
            &&& n.dmabuf_formats.last().size.height == height
            &&& n.formats == v.formats
        }),
        screencopy_step(v, ScreencopyEvent::Buffer { format: None, width, height, stride }) == v,
{
    let n = screencopy_step(v, ScreencopyEvent::Buffer { format: Some(f), width, height, stride });
    assert(n.formats.take(v.formats.len() as int) =~= v.formats);
    let d = screencopy_step(v, ScreencopyEvent::LinuxDmabuf { format: code, width, height });
    assert(d.dmabuf_formats.take(v.dmabuf_formats.len() as int) =~= v.dmabuf_formats);
}

} // verus!
