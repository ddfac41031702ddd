//! Windows and displays: handles, the messages sent to the main thread on their
//! behalf, window size limits and present mode selection

use vstd::prelude::*;

pub mod manager;

use crate::input::WindowIdentifier;

verus! {

/// The handle to a window. Never zero
#[derive(Debug, Clone, Copy, PartialEq, Eq, Structural, Hash)]
pub struct Window(pub u32);

/// The handle to a display. Never zero
#[derive(Debug, Clone, Copy, PartialEq, Eq, Structural, Hash)]
pub struct Display(pub u32);

/// The cursor icon type of the windowing system
#[verifier::external_type_specification]
#[verifier::external_body]
pub struct ExCursorIcon(cursor_icon::CursorIcon);

/// The window icon type of the windowing system
#[verifier::external_type_specification]
#[verifier::external_body]
pub struct ExWindowIcon(winit::window::Icon);

/// Target display for borderless fullscreen
#[derive(Debug, Clone, Copy, PartialEq, Eq, Structural)]
pub enum BorderlessTarget {
    /// The display the window is currently (or initially) on
    Current,
    /// The primary display
    Primary,
    /// A specific display
    Specific(Display),
}

/// An event sent to the main thread that updates a window
pub enum WindowUpdateEvent {
    /// Update the title string
    UpdateTitle(String),
    /// Update the cursor
    UpdateCursor(cursor_icon::CursorIcon),
    /// Sets the cursor to visible (true) or invisible (false)
    CursorVisibility(bool),
    /// Update the icon of the window
    UpdateIcon(winit::window::Icon),
}

/// A request for the main thread, which owns the native windows and the event loop
pub enum MainThreadEvent {
    /// Exit the runtime; forced when `true`
    RuntimeExitRequested(bool),
    /// Wake the main thread to run a frame
    Wake,
    /// Close the window
    CloseWindow(Window),
    /// Update the window
    UpdateWindow(Window, WindowUpdateEvent),
    /// Reconfigure the surface of the window
    ForceSurfaceReconfigure(Window),
    /// Lock (true) or unlock (false) the mouse cursor
    CursorLock(bool),
}

/// The queue of requests for the main thread, and whether the runtime is running
pub struct MainThreadQueue {
    /// Whether the runtime is running
    pub running: bool,
    /// The requests, oldest first
    pub events: Vec<MainThreadEvent>,
}

impl MainThreadQueue {
    /// An empty queue
    pub fn new(running: bool) -> (r: Self)
        ensures
            r.running == running,
            r.events@.len() == 0,
    {
        MainThreadQueue { running, events: Vec::new() }
    }

    /// Appends a request
    pub fn send(&mut self, event: MainThreadEvent)
        ensures
            final(self).running == old(self).running,
            final(self).events@ == old(self).events@.push(event),
    {
        self.events.push(event);
    }
}

/// Requests that the runtime stops cleanly. The on-exit handlers will be run, and will have
/// a chance to stop the exit process. Does nothing when the runtime is not running
pub fn exit(queue: &mut MainThreadQueue)
    ensures
        final(queue).running == old(queue).running,
        final(queue).events@ == if old(queue).running {
            old(queue).events@.push(MainThreadEvent::RuntimeExitRequested(false))
        } else {
            old(queue).events@
        },
{
    request_exit(queue, false);
}

/// Instructs the runtime to stop cleanly. The on-exit handlers will be run, but will not be
/// able to stop the exit process. Does nothing when the runtime is not running
pub fn force_exit(queue: &mut MainThreadQueue)
    ensures
        final(queue).running == old(queue).running,
        final(queue).events@ == if old(queue).running {
            old(queue).events@.push(MainThreadEvent::RuntimeExitRequested(true))
        } else {
            old(queue).events@
        },
{
    request_exit(queue, true);
}

fn request_exit(queue: &mut MainThreadQueue, force: bool)
    ensures
        final(queue).running == old(queue).running,
        final(queue).events@ == if old(queue).running {
            old(queue).events@.push(MainThreadEvent::RuntimeExitRequested(force))
        } else {
            old(queue).events@
        },
{
    if !queue.running {
        return;
    }
    queue.send(MainThreadEvent::RuntimeExitRequested(force));
}

/// Requests a frame, for frame frequencies that do not run continuously
pub fn request_frame(queue: &mut MainThreadQueue)
    ensures
        final(queue).running == old(queue).running,
        final(queue).events@ == old(queue).events@.push(MainThreadEvent::Wake),
{
    queue.send(MainThreadEvent::Wake);
}

/// Sets the lock state of the mouse cursor
pub fn set_lock(lock_cursor: bool, queue: &mut MainThreadQueue)
    ensures
        final(queue).running == old(queue).running,
        final(queue).events@ == old(queue).events@.push(MainThreadEvent::CursorLock(lock_cursor)),
{
    queue.send(MainThreadEvent::CursorLock(lock_cursor));
}

/// Locks the mouse cursor
pub fn lock(queue: &mut MainThreadQueue)
    ensures
        final(queue).running == old(queue).running,
        final(queue).events@ == old(queue).events@.push(MainThreadEvent::CursorLock(true)),
{
    set_lock(true, queue);
}

/// Unlocks the mouse cursor
pub fn unlock(queue: &mut MainThreadQueue)
    ensures
        final(queue).running == old(queue).running,
        final(queue).events@ == old(queue).events@.push(MainThreadEvent::CursorLock(false)),
{
    set_lock(false, queue);
}

/// The larger of two integers
pub open spec fn max_u32(a: u32, b: u32) -> u32 {
    if a >= b { a } else { b }
}

/// The smaller of two integers
pub open spec fn min_u32(a: u32, b: u32) -> u32 {
    if a <= b { a } else { b }
}

/// Clamps a minimum window size to at least one pixel on both axes
pub fn clamp_min_size(min_size: (u32, u32)) -> (r: (u32, u32))
    ensures
        r == (max_u32(min_size.0, 1), max_u32(min_size.1, 1)),
{
    (if min_size.0 >= 1 { min_size.0 } else { 1 }, if min_size.1 >= 1 { min_size.1 } else { 1 })
}

/// Clamps a maximum window size to at least the minimum size on both axes
pub fn clamp_max_size(min_size: (u32, u32), max_size: (u32, u32)) -> (r: (u32, u32))
    ensures
        r == (max_u32(max_size.0, min_size.0), max_u32(max_size.1, min_size.1)),
{
    (
        if max_size.0 >= min_size.0 { max_size.0 } else { min_size.0 },
        if max_size.1 >= min_size.1 { max_size.1 } else { min_size.1 },
    )
}

/// The size limits of a new window, and its initial inner size
#[derive(Debug, Clone, Copy)]
pub struct WindowSizing {
    /// The minimum inner size, at least 1x1
    pub min_size: (u32, u32),
    /// The maximum inner size, if any, at least the minimum size
    pub max_size: Option<(u32, u32)>,
    /// The initial inner size, within the limits
    pub inner_size: (u32, u32),
}

/// Computes the size limits and the initial inner size of a new window from the requested
/// size, minimum size and optional maximum size. Invalid limits are clamped: the minimum
/// to at least 1x1, the maximum to at least the minimum
pub fn window_sizing(size: (u32, u32), min_size: (u32, u32), max_size: Option<(u32, u32)>) -> (r: WindowSizing)
    ensures
        r.min_size == (max_u32(min_size.0, 1), max_u32(min_size.1, 1)),
        r.max_size == match max_size {
            Some(m) => Some((max_u32(m.0, r.min_size.0), max_u32(m.1, r.min_size.1))),
            None => None::<(u32, u32)>,
        },
        r.inner_size == match r.max_size {
            Some(m) => (
                min_u32(max_u32(size.0, r.min_size.0), m.0),
                min_u32(max_u32(size.1, r.min_size.1), m.1),
            ),
            None => (max_u32(size.0, r.min_size.0), max_u32(size.1, r.min_size.1)),
        },
        r.min_size.0 <= r.inner_size.0 && r.min_size.1 <= r.inner_size.1,
        r.max_size matches Some(m) ==> r.inner_size.0 <= m.0 && r.inner_size.1 <= m.1,
{
    let min_clamped = clamp_min_size(min_size);
    let mut inner = (
        if size.0 >= min_clamped.0 { size.0 } else { min_clamped.0 },
        if size.1 >= min_clamped.1 { size.1 } else { min_clamped.1 },
    );
    let max_clamped = match max_size {
        Some(m) => {
            let mc = clamp_max_size(min_clamped, m);
            inner = (
                if inner.0 <= mc.0 { inner.0 } else { mc.0 },
                if inner.1 <= mc.1 { inner.1 } else { mc.1 },
            );
            Some(mc)
        },
        None => None,
    };
    WindowSizing { min_size: min_clamped, max_size: max_clamped, inner_size: inner }
}

/// Presentation modes of a window surface
#[derive(Debug, Clone, Copy, PartialEq, Eq, Structural)]
pub enum PresentMode {
    /// Vsync when available, else no vsync
    AutoVsync,
    /// No vsync when available, else vsync
    AutoNoVsync,
    /// Classic vsync
    Fifo,
    /// Vsync, but late frames are presented at once
    FifoRelaxed,
    /// No vsync, with tearing
    Immediate,
    /// No vsync, without tearing
    Mailbox,
}

/// Whether the mode is one of the capabilities
pub fn present_mode_supported(capabilities: &Vec<PresentMode>, mode: PresentMode) -> (r: bool)
    ensures
        r == capabilities@.contains(mode),
{
    let mut i: usize = 0;
    while i < capabilities.len()
        invariant
            0 <= i <= capabilities@.len(),
            forall|j: int| 0 <= j < i ==> capabilities@[j] != mode,
        decreases capabilities.len() - i,
    {
        if capabilities[i] == mode {
            return true;
        }
        i += 1;
    }
    false
}

/// The present mode chosen for a window: with vsync, relaxed FIFO if supported, else FIFO;
/// without, mailbox if supported, else immediate if supported, else FIFO
pub open spec fn best_present_mode(wants_vsync: bool, capabilities: Seq<PresentMode>) -> PresentMode {
    if wants_vsync {
        if capabilities.contains(PresentMode::FifoRelaxed) {
            PresentMode::FifoRelaxed
        } else {
            PresentMode::Fifo
        }
    } else if capabilities.contains(PresentMode::Mailbox) {
        PresentMode::Mailbox
    } else if capabilities.contains(PresentMode::Immediate) {
        PresentMode::Immediate
    } else {
        PresentMode::Fifo
    }
}

/// Picks the present mode for a window surface
pub fn get_best_present_mode(wants_vsync: bool, capabilities: &Vec<PresentMode>) -> (r: PresentMode)
    ensures
        r == best_present_mode(wants_vsync, capabilities@),
{
    if wants_vsync {
        if present_mode_supported(capabilities, PresentMode::FifoRelaxed) {
            PresentMode::FifoRelaxed
        } else {
            PresentMode::Fifo
        }
    } else {
        if present_mode_supported(capabilities, PresentMode::Mailbox) {
            PresentMode::Mailbox
        } else if present_mode_supported(capabilities, PresentMode::Immediate) {
            PresentMode::Immediate
        } else {
            PresentMode::Fifo
        }
    }
}

/// What the present mode choice promises: with vsync a synchronised FIFO mode, relaxed when
/// supported; without vsync never a synchronised mode when mailbox or immediate is
/// supported, mailbox whenever it is supported, whatever else is; and never a mode other than
/// FIFO (which every surface supports) that the surface does not support
pub proof fn lemma_present_mode_choice(wants_vsync: bool, capabilities: Seq<PresentMode>)
    ensures
        wants_vsync ==> (best_present_mode(wants_vsync, capabilities) == PresentMode::FifoRelaxed
            <==> capabilities.contains(PresentMode::FifoRelaxed)),
        wants_vsync ==> (best_present_mode(wants_vsync, capabilities) == PresentMode::FifoRelaxed
            || best_present_mode(wants_vsync, capabilities) == PresentMode::Fifo),
        !wants_vsync && capabilities.contains(PresentMode::Mailbox) ==> best_present_mode(wants_vsync, capabilities)
            == PresentMode::Mailbox,
        !wants_vsync && !capabilities.contains(PresentMode::Mailbox) && capabilities.contains(PresentMode::Immediate)
            ==> best_present_mode(wants_vsync, capabilities) == PresentMode::Immediate,
        !wants_vsync && !capabilities.contains(PresentMode::Mailbox) && !capabilities.contains(PresentMode::Immediate)
            ==> best_present_mode(wants_vsync, capabilities) == PresentMode::Fifo,
        best_present_mode(wants_vsync, capabilities) != PresentMode::Fifo ==> capabilities.contains(
            best_present_mode(wants_vsync, capabilities),
        ),
{
}

/// The maximum frame latency requested for a window surface: two frames with triple
/// buffering, else one
pub fn desired_maximum_frame_latency(triple_buffering: bool) -> (r: u32)
    ensures
        r == if triple_buffering { 2u32 } else { 1u32 },
{
    if triple_buffering { 2 } else { 1 }
}

impl Window {
    /// The input identifier of this window
    pub fn to_identifier(self) -> (r: WindowIdentifier)
        ensures
            r.0 == self.0 as u64,
    {
        WindowIdentifier::new(self.0 as u64)
    }

    /// The window with the given input identifier. Fails, returning the raw identifier,
    /// when it does not fit a nonzero 32-bit handle
    pub fn try_from_identifier(value: WindowIdentifier) -> (r: Result<Window, u64>)
        ensures
            match r {
                Ok(w) => 0 < value.0 <= u32::MAX && w.0 == value.0,
                Err(raw) => (value.0 == 0 || value.0 > u32::MAX) && raw == value.0,
            },
    {
        let raw = value.raw();
        if raw == 0 || raw > 0xffff_ffff {
            Err(raw)
        } else {
            Ok(Window(raw as u32))
        }
    }

    /// Closes the window, if it is not already closed
    pub fn destroy(self, queue: &mut MainThreadQueue)
        ensures
            final(queue).running == old(queue).running,
            final(queue).events@ == old(queue).events@.push(MainThreadEvent::CloseWindow(self)),
    {
        queue.send(MainThreadEvent::CloseWindow(self));
    }

    /// Sets the cursor icon for this window
    pub fn set_cursor(self, cursor: cursor_icon::CursorIcon, queue: &mut MainThreadQueue)
        ensures
            final(queue).running == old(queue).running,
            final(queue).events@ == old(queue).events@.push(
                MainThreadEvent::UpdateWindow(self, WindowUpdateEvent::UpdateCursor(cursor)),
            ),
    {
        queue.send(MainThreadEvent::UpdateWindow(self, WindowUpdateEvent::UpdateCursor(cursor)));
    }

    /// Updates the icon of the window. `icon` is the icon converted for the windowing
    /// system, or [None] where it could not be converted; nothing is requested then
    pub fn set_icon(self, icon: Option<winit::window::Icon>, queue: &mut MainThreadQueue)
        ensures
            final(queue).running == old(queue).running,
            final(queue).events@ == match icon {
                Some(native) => old(queue).events@.push(
                    MainThreadEvent::UpdateWindow(self, WindowUpdateEvent::UpdateIcon(native)),
                ),
                None => old(queue).events@,
            },
    {
        if let Some(native) = icon {
            queue.send(MainThreadEvent::UpdateWindow(self, WindowUpdateEvent::UpdateIcon(native)));
        }
    }

    /// Sets the visibility of the cursor
    pub fn set_cursor_visible(self, visible: bool, queue: &mut MainThreadQueue)
        ensures
            final(queue).running == old(queue).running,
            final(queue).events@ == old(queue).events@.push(
                MainThreadEvent::UpdateWindow(self, WindowUpdateEvent::CursorVisibility(visible)),
            ),
    {
        queue.send(MainThreadEvent::UpdateWindow(self, WindowUpdateEvent::CursorVisibility(visible)));
    }

    /// Hides the cursor
    pub fn hide_cursor(self, queue: &mut MainThreadQueue)
        ensures
            final(queue).running == old(queue).running,
            final(queue).events@ == old(queue).events@.push(
                MainThreadEvent::UpdateWindow(self, WindowUpdateEvent::CursorVisibility(false)),
            ),
    {
        self.set_cursor_visible(false, queue);
    }

    /// Shows the cursor
    pub fn show_cursor(self, queue: &mut MainThreadQueue)
        ensures
            final(queue).running == old(queue).running,
            final(queue).events@ == old(queue).events@.push(
                MainThreadEvent::UpdateWindow(self, WindowUpdateEvent::CursorVisibility(true)),
            ),
    {
        self.set_cursor_visible(true, queue);
    }

    /// Forces reconfiguration of the window surface. Should usually not be called,
    /// except when vsync or frame settings have recently been changed
    pub fn force_reconfigure(self, queue: &mut MainThreadQueue)
        ensures
            final(queue).running == old(queue).running,
            final(queue).events@ == old(queue).events@.push(MainThreadEvent::ForceSurfaceReconfigure(self)),
    {
        queue.send(MainThreadEvent::ForceSurfaceReconfigure(self));
    }

    /// Updates the title of the window
    pub fn set_title(self, title: String, queue: &mut MainThreadQueue)
        ensures
            final(queue).running == old(queue).running,
            final(queue).events@ == old(queue).events@.push(
                MainThreadEvent::UpdateWindow(self, WindowUpdateEvent::UpdateTitle(title)),
            ),
    {
        queue.send(MainThreadEvent::UpdateWindow(self, WindowUpdateEvent::UpdateTitle(title)));
    }
}

/// Whether a change of the configuration value with the key affects window surfaces
/// (vsync or triple buffering), so that all of them must be reconfigured
pub fn config_change_reconfigures(key: &str) -> (r: bool)
    ensures
        r == (key@ == "wutengine.window.vsync"@ || key@ == "wutengine.window.triple_buffering"@),
{
    crate::logger::str_eq(key, "wutengine.window.vsync") || crate::logger::str_eq(key, "wutengine.window.triple_buffering")
}

/// What acquiring the texture of a window surface gave
#[derive(Debug, Clone, Copy, PartialEq, Eq, Structural)]
pub enum SurfaceStatus {
    /// A texture
    Success,
    /// A texture, but the surface no longer matches the window well
    Suboptimal,
    /// Timed out
    Timeout,
    /// The window is occluded
    Occluded,
    /// The surface no longer matches the window
    Outdated,
    /// The surface was lost
    Lost,
    /// A validation error
    Validation,
}

/// What to do with a surface texture: whether to draw to it, and whether to request a
/// reconfiguration of the surface
#[derive(Debug, Clone, Copy, PartialEq, Eq, Structural)]
pub struct SurfaceOutcome {
    /// Whether the texture is drawn to
    pub use_texture: bool,
    /// Whether the surface is reconfigured
    pub reconfigure: bool,
}

/// Whether the surface status is an unrecoverable error: a timeout, a lost surface or a
/// validation error
pub open spec fn surface_status_fatal(status: SurfaceStatus) -> bool {
    status == SurfaceStatus::Timeout || status == SurfaceStatus::Lost || status == SurfaceStatus::Validation
}

/// Decides what to do with the result of acquiring a surface texture: a texture is drawn
/// to, and a suboptimal or outdated surface is reconfigured. The status must not be fatal
pub fn surface_texture_outcome(status: SurfaceStatus) -> (r: SurfaceOutcome)
    requires
        !surface_status_fatal(status),
    ensures
        r.use_texture == (status == SurfaceStatus::Success || status == SurfaceStatus::Suboptimal),
        r.reconfigure == (status == SurfaceStatus::Suboptimal || status == SurfaceStatus::Outdated),
{
    match status {
        SurfaceStatus::Success => SurfaceOutcome { use_texture: true, reconfigure: false },
        SurfaceStatus::Suboptimal => SurfaceOutcome { use_texture: true, reconfigure: true },
        SurfaceStatus::Occluded => SurfaceOutcome { use_texture: false, reconfigure: false },
        _ => SurfaceOutcome { use_texture: false, reconfigure: true },
    }
}

/// What matters of a surface format when one is chosen
#[derive(Debug, Clone, Copy, PartialEq, Eq, Structural)]
pub struct SurfaceFormatTraits {
    /// Whether the format is sRGB
    pub srgb: bool,
    /// Whether the format is compressed
    pub compressed: bool,
}

/// The position of the format chosen for a surface: the first uncompressed sRGB format, or
/// else the first format. There must be at least one format
pub fn pick_surface_format(formats: &Vec<SurfaceFormatTraits>) -> (r: usize)
    requires
        formats@.len() > 0,
    ensures
        r < formats@.len(),
        (exists|i: int| 0 <= i < formats@.len() && (#[trigger] formats@[i]).srgb && !formats@[i].compressed) ==> {
            &&& formats@[r as int].srgb && !formats@[r as int].compressed
            &&& forall|j: int| 0 <= j < r ==> !((#[trigger] formats@[j]).srgb && !formats@[j].compressed)
        },
        !(exists|i: int| 0 <= i < formats@.len() && (#[trigger] formats@[i]).srgb && !formats@[i].compressed) ==> r == 0,
{
    let mut i: usize = 0;
    while i < formats.len()
        invariant
            0 <= i <= formats@.len(),
            forall|j: int| 0 <= j < i ==> !((#[trigger] formats@[j]).srgb && !formats@[j].compressed),
        decreases formats.len() - i,
    {
        if formats[i].srgb && !formats[i].compressed {
            return i;
        }
        i += 1;
    }
    0
}

/// How a window asks to be fullscreen
#[derive(Debug, Clone, Copy, PartialEq, Eq, Structural)]
pub enum FullscreenRequest {
    /// Borderless fullscreen on the target display
    Borderless(BorderlessTarget),
    /// Exclusive fullscreen on the display, in one of its video modes
    Exclusive(Display),
}

/// How a window is made fullscreen
#[derive(Debug, Clone, Copy, PartialEq, Eq, Structural)]
pub enum FullscreenPlan {
    /// Exclusive fullscreen on the display
    Exclusive(Display),
    /// Borderless fullscreen on the display, or on the display the window is on when `None`
    Borderless(Option<Display>),
}

/// `r` is the display a borderless window goes to: none for the current display; the
/// primary display, or an arbitrary connected display when no primary one is known; or the
/// given display, when it is connected, else the current display
pub open spec fn borderless_display(manager: manager::WindowManager, target: BorderlessTarget, r: Option<Display>) -> bool {
    match target {
        BorderlessTarget::Current => r is None,
        BorderlessTarget::Primary => if manager.primary_display is Some {
            r == manager.primary_display
        } else if manager.displays@.len() == 0 {
            r is None
        } else {
            r matches Some(d) && manager::has_display(manager.displays@, d)
        },
        BorderlessTarget::Specific(d) => r == if manager::has_display(manager.displays@, d) { Some(d) } else { None },
    }
}

/// Decides how a window is made fullscreen. Exclusive fullscreen needs a backend that
/// supports it, else the window goes borderless on the same display; and a connected
/// display, else the window goes borderless on the primary display
pub fn plan_fullscreen(request: FullscreenRequest, supports_exclusive: bool, manager: &manager::WindowManager) -> (r: FullscreenPlan)
    requires
        manager.wf(),
    ensures
        match request {
            FullscreenRequest::Exclusive(d) => if supports_exclusive && manager::has_display(manager.displays@, d) {
                r == FullscreenPlan::Exclusive(d)
            } else if !supports_exclusive {
                r matches FullscreenPlan::Borderless(b) && borderless_display(*manager, BorderlessTarget::Specific(d), b)
            } else {
                r matches FullscreenPlan::Borderless(b) && borderless_display(*manager, BorderlessTarget::Primary, b)
            },
            FullscreenRequest::Borderless(t) => r matches FullscreenPlan::Borderless(b) && borderless_display(*manager, t, b),
        },
{
    let target = match request {
        FullscreenRequest::Exclusive(d) => {
            if !supports_exclusive {
                BorderlessTarget::Specific(d)
            } else if manager.find_display(d).is_some() {
                return FullscreenPlan::Exclusive(d);
            } else {
                BorderlessTarget::Primary
            }
        },
        FullscreenRequest::Borderless(t) => t,
    };
    let wanted = match target {
        BorderlessTarget::Current => None,
        BorderlessTarget::Primary => manager.primary_display(),
        BorderlessTarget::Specific(d) => Some(d),
    };
    let display = match wanted {
        Some(d) => if manager.find_display(d).is_some() { Some(d) } else { None },
        None => None,
    };
    FullscreenPlan::Borderless(display)
}

} // verus!
