//! The window manager: the bookkeeping of open windows, windows being destroyed and
//! connected displays, and the queries on windows and displays that read it

use vstd::prelude::*;

use super::{Display, MainThreadEvent, MainThreadQueue, Window};

verus! {

/// Cached information on an open window
pub struct WindowInfo {
    /// The engine handle
    pub id: Window,
    /// The identifier of the native window
    pub native_id: u64,
    /// The title
    pub title: String,
    /// Whether this is the primary window
    pub is_primary: bool,
    /// The physical window size, in pixels `W x H`
    pub inner_size: (u32, u32),
    /// Whether the window is currently focused
    pub focused: bool,
    /// Whether the window is known to be occluded. Not supported by every OS, in which case
    /// this is always `false`
    pub occluded: bool,
    /// Whether the window is currently minimized
    pub minimized: bool,
    /// Whether the window is currently maximized
    pub maximized: bool,
}

impl WindowInfo {
    /// Information on a new window, before its first refresh: size zero, focused, not
    /// occluded, minimized or maximized
    pub fn new(id: Window, native_id: u64, title: String, is_primary: bool) -> (r: Self)
        ensures
            r.id == id,
            r.native_id == native_id,
            r.title == title,
            r.is_primary == is_primary,
            r.inner_size == (0u32, 0u32),
            r.focused,
            !r.occluded,
            !r.minimized,
            !r.maximized,
    {
        WindowInfo {
            id,
            native_id,
            title,
            is_primary,
            inner_size: (0, 0),
            focused: true,
            occluded: false,
            minimized: false,
            maximized: false,
        }
    }

    /// Refreshes the cached information with what the native window reports. A `None`
    /// minimized state (unknown) keeps the previous one. Returns whether the surface should
    /// be reconfigured: the size changed, and is not zero (a zero-sized surface cannot be
    /// configured)
    pub fn refresh(
        &mut self,
        title: String,
        inner_size: (u32, u32),
        focused: bool,
        minimized: Option<bool>,
        maximized: bool,
    ) -> (reconfigure: bool)
        ensures
            reconfigure == (inner_size != (0u32, 0u32) && inner_size != old(self).inner_size),
            *final(self) == (WindowInfo {
                title,
                inner_size,
                focused,
                minimized: match minimized {
                    Some(m) => m,
                    None => old(self).minimized,
                },
                maximized,
                ..*old(self)
            }),
    {
        let prev_inner_size = self.inner_size;
        self.title = title;
        self.inner_size = inner_size;
        self.focused = focused;
        match minimized {
            Some(m) => {
                self.minimized = m;
            },
            None => {},
        }
        self.maximized = maximized;
        (inner_size.0 != 0 || inner_size.1 != 0) && (prev_inner_size.0 != inner_size.0
            || prev_inner_size.1 != inner_size.1)
    }
}

/// Cached information on a connected display
pub struct DisplayInfo {
    /// The engine handle
    pub id: Display,
    /// The OS name, if available
    pub name: Option<String>,
    /// The resolution in pixels
    pub size: (u32, u32),
    /// The refresh rate in millihertz
    pub refresh_rate_millihertz: u32,
    /// Whether this is the primary system display
    pub is_primary: bool,
}

/// What the windowing system reports of a connected display. `existing` is the handle the
/// display already had, if it was connected at the previous refresh
pub struct MonitorSnapshot {
    /// The handle of the display at the previous refresh, if any
    pub existing: Option<Display>,
    /// Whether this is the primary system display
    pub is_primary: bool,
    /// The OS name, if available
    pub name: Option<String>,
    /// The resolution in pixels
    pub size: (u32, u32),
    /// The refresh rate in millihertz
    pub refresh_rate_millihertz: u32,
}

/// The state of a native window
#[derive(Debug, Clone, Copy, PartialEq, Eq, Structural)]
pub enum WindowState {
    /// Window is alive, and has a user-accessible handle
    Alive(Window),
    /// Window is being destroyed. It is no longer accessible by users, but the windowing
    /// system has not yet confirmed its destruction
    BeingDestroyed,
    /// Unknown window
    NotFound,
}

/// The window manager
pub struct WindowManager {
    /// The open windows, in order of opening
    pub windows: Vec<WindowInfo>,
    /// The native windows currently being destroyed
    pub being_destroyed: Vec<u64>,
    /// The primary display, if known
    pub primary_display: Option<Display>,
    /// The connected displays
    pub displays: Vec<DisplayInfo>,
    /// The next handle for a newly connected display
    pub next_display_id: u32,
}

/// Some open window has the handle
pub open spec fn has_window(ws: Seq<WindowInfo>, id: Window) -> bool {
    exists|i: int| 0 <= i < ws.len() && (#[trigger] ws[i]).id == id
}

/// The position of the window with the handle
pub open spec fn window_pos(ws: Seq<WindowInfo>, id: Window) -> int {
    choose|i: int| 0 <= i < ws.len() && (#[trigger] ws[i]).id == id
}

/// At most one window is primary, and when any window is open, one is
pub open spec fn primary_ok(ws: Seq<WindowInfo>) -> bool {
    &&& forall|i: int, j: int|
        0 <= i < ws.len() && 0 <= j < ws.len() && (#[trigger] ws[i]).is_primary && (#[trigger] ws[j]).is_primary ==> i == j
    &&& ws.len() > 0 ==> exists|i: int| 0 <= i < ws.len() && (#[trigger] ws[i]).is_primary
}

/// Two window records agree on all but the primary flag
pub open spec fn same_but_primary(a: WindowInfo, b: WindowInfo) -> bool {
    a == (WindowInfo { is_primary: a.is_primary, ..b })
}

/// Some connected display has the handle
pub open spec fn has_display(ds: Seq<DisplayInfo>, id: Display) -> bool {
    exists|i: int| 0 <= i < ds.len() && (#[trigger] ds[i]).id == id
}

/// The position of the display with the handle
pub open spec fn display_pos(ds: Seq<DisplayInfo>, id: Display) -> int {
    choose|i: int| 0 <= i < ds.len() && (#[trigger] ds[i]).id == id
}

/// The handles that the display refresh gives the snapshots: the existing handle, or the
/// next free one, counting up
pub open spec fn refreshed_ids(monitors: Seq<MonitorSnapshot>, next: int) -> Seq<Display>
    decreases monitors.len(),
{
    if monitors.len() == 0 {
        Seq::empty()
    } else {
        let rest = refreshed_ids(monitors.drop_last(), next);
        let fresh = next + new_count(monitors.drop_last());
        rest.push(
            match monitors.last().existing {
                Some(d) => d,
                None => Display(fresh as u32),
            },
        )
    }
}

/// How many snapshots have no existing handle
pub open spec fn new_count(monitors: Seq<MonitorSnapshot>) -> int
    decreases monitors.len(),
{
    if monitors.len() == 0 {
        0
    } else {
        new_count(monitors.drop_last()) + if monitors.last().existing is None { 1int } else { 0int }
    }
}

proof fn lemma_new_count_bounds(monitors: Seq<MonitorSnapshot>)
    ensures
        0 <= new_count(monitors) <= monitors.len(),
    decreases monitors.len(),
{
    if monitors.len() > 0 {
        lemma_new_count_bounds(monitors.drop_last());
    }
}

impl WindowManager {
    /// A manager without windows or displays
    pub fn new() -> (r: Self)
        ensures
            r.wf(),
            r.windows@.len() == 0,
            r.being_destroyed@.len() == 0,
            r.primary_display is None,
            r.displays@.len() == 0,
    {
        WindowManager {
            windows: Vec::new(),
            being_destroyed: Vec::new(),
            primary_display: None,
            displays: Vec::new(),
            next_display_id: 1,
        }
    }

    /// Handles and native identifiers of windows are distinct, exactly one window is primary
    /// when any is open, the windows being destroyed form a set, and display handles are
    /// distinct, nonzero and below the next free handle, the primary one among them
    pub open spec fn wf(&self) -> bool {
        let ws = self.windows@;
        let ds = self.displays@;
        &&& forall|i: int, j: int| 0 <= i < j < ws.len() ==> (#[trigger] ws[i]).id != (#[trigger] ws[j]).id
        &&& forall|i: int, j: int| 0 <= i < j < ws.len() ==> (#[trigger] ws[i]).native_id != (#[trigger] ws[j]).native_id
        &&& primary_ok(ws)
        &&& crate::input::no_duplicates(self.being_destroyed@)
        &&& forall|i: int, j: int| 0 <= i < j < ds.len() ==> (#[trigger] ds[i]).id != (#[trigger] ds[j]).id
        &&& forall|i: int| 0 <= i < ds.len() ==> 0 < (#[trigger] ds[i]).id.0 < self.next_display_id
        &&& self.primary_display matches Some(p) ==> has_display(ds, p)
        &&& self.next_display_id >= 1
    }

    /// The information on the open window
    pub open spec fn info(&self, id: Window) -> WindowInfo {
        self.windows@[window_pos(self.windows@, id)]
    }

    /// The information on the connected display
    pub open spec fn display(&self, id: Display) -> DisplayInfo {
        self.displays@[display_pos(self.displays@, id)]
    }

    /// Returns the position of the window, if it is open
    pub fn find_window(&self, id: Window) -> (r: Option<usize>)
        requires
            self.wf(),
        ensures
            match r {
                Some(i) => i < self.windows@.len() && self.windows@[i as int].id == id && i == window_pos(self.windows@, id),
                None => !has_window(self.windows@, id),
            },
    {
        let mut i: usize = 0;
        while i < self.windows.len()
            invariant
                0 <= i <= self.windows@.len(),
                self.wf(),
                forall|j: int| 0 <= j < i ==> (#[trigger] self.windows@[j]).id != id,
            decreases self.windows.len() - i,
        {
            if self.windows[i].id == id {
                proof {
                    let ws = self.windows@;
                    let c = window_pos(ws, id);
                    if c != i {
                        if c < i {
                            assert(ws[c].id != ws[i as int].id);
                        } else {
                            assert(ws[i as int].id != ws[c].id);
                        }
                    }
                }
                return Some(i);
            }
            i += 1;
        }
        None
    }

    /// Returns the position of the display, if it is connected
    pub fn find_display(&self, id: Display) -> (r: Option<usize>)
        requires
            self.wf(),
        ensures
            match r {
                Some(i) => i < self.displays@.len() && self.displays@[i as int].id == id && i == display_pos(self.displays@, id),
                None => !has_display(self.displays@, id),
            },
    {
        let mut i: usize = 0;
        while i < self.displays.len()
            invariant
                0 <= i <= self.displays@.len(),
                self.wf(),
                forall|j: int| 0 <= j < i ==> (#[trigger] self.displays@[j]).id != id,
            decreases self.displays.len() - i,
        {
            if self.displays[i].id == id {
                proof {
                    let ds = self.displays@;
                    let c = display_pos(ds, id);
                    if c != i {
                        if c < i {
                            assert(ds[c].id != ds[i as int].id);
                        } else {
                            assert(ds[i as int].id != ds[c].id);
                        }
                    }
                }
                return Some(i);
            }
            i += 1;
        }
        None
    }

    /// Whether a native window with the identifier is open
    pub open spec fn has_native(&self, native_id: u64) -> bool {
        exists|i: int| 0 <= i < self.windows@.len() && (#[trigger] self.windows@[i]).native_id == native_id
    }

    /// Registers a newly opened window. The first window is always the primary window
    pub fn new_window(&mut self, id: Window, native_id: u64, title: String)
        requires
            old(self).wf(),
            !has_window(old(self).windows@, id),
            !old(self).has_native(native_id),
        ensures
            final(self).wf(),
            final(self).windows@ == old(self).windows@.push(WindowInfo {
                id,
                native_id,
                title,
                is_primary: old(self).windows@.len() == 0,
                inner_size: (0u32, 0u32),
                focused: true,
                occluded: false,
                minimized: false,
                maximized: false,
            }),
            final(self).being_destroyed == old(self).being_destroyed,
            final(self).primary_display == old(self).primary_display,
            final(self).displays == old(self).displays,
            final(self).next_display_id == old(self).next_display_id,
    {
        let is_primary = self.windows.len() == 0;
        let info = WindowInfo::new(id, native_id, title, is_primary);
        let ghost prev = self.windows@;
        self.windows.push(info);
        proof {
            let ws = self.windows@;
            assert forall|i: int, j: int| 0 <= i < j < ws.len() implies (#[trigger] ws[i]).id != (#[trigger] ws[j]).id by {
                if j == prev.len() {
                    assert(ws[i] == prev[i]);
                } else {
                    assert(ws[i] == prev[i] && ws[j] == prev[j]);
                }
            }
            assert forall|i: int, j: int| 0 <= i < j < ws.len() implies (#[trigger] ws[i]).native_id != (#[trigger] ws[j]).native_id by {
                if j == prev.len() {
                    assert(ws[i] == prev[i]);
                } else {
                    assert(ws[i] == prev[i] && ws[j] == prev[j]);
                }
            }
            assert forall|i: int, j: int|
                0 <= i < ws.len() && 0 <= j < ws.len() && (#[trigger] ws[i]).is_primary && (#[trigger] ws[j]).is_primary implies i == j by {
                if i < prev.len() {
                    assert(ws[i] == prev[i]);
                }
                if j < prev.len() {
                    assert(ws[j] == prev[j]);
                }
            }
            if prev.len() > 0 {
                let p = choose|p: int| 0 <= p < prev.len() && (#[trigger] prev[p]).is_primary;
                assert(ws[p] == prev[p]);
            } else {
                assert(ws[0].is_primary);
            }
        }
    }

    /// Returns the amount of open windows
    pub fn num_windows(&self) -> (r: usize)
        ensures
            r == self.windows@.len(),
    {
        self.windows.len()
    }

    /// Destroys the window. If the window does not exist, does nothing. Returns the amount of
    /// remaining windows. When the primary window closes and others remain, one of those
    /// becomes the primary window
    pub fn close_window(&mut self, id: Window) -> (remaining: usize)
        requires
            old(self).wf(),
        ensures
            final(self).wf(),
            remaining == final(self).windows@.len(),
            !has_window(final(self).windows@, id),
            !has_window(old(self).windows@, id) ==> *final(self) == *old(self),
            has_window(old(self).windows@, id) ==> {
                let i = window_pos(old(self).windows@, id);
                let closed = old(self).windows@[i];
                &&& final(self).windows@.len() == old(self).windows@.len() - 1
                &&& forall|j: int| 0 <= j < final(self).windows@.len() ==> same_but_primary(
                    #[trigger] final(self).windows@[j],
                    old(self).windows@[if j < i { j } else { j + 1 }],
                )
                &&& !closed.is_primary ==> forall|j: int| 0 <= j < final(self).windows@.len() ==>
                    (#[trigger] final(self).windows@[j]).is_primary == old(self).windows@[if j < i { j } else { j + 1 }].is_primary
                &&& !final(self).has_native(closed.native_id)
                &&& forall|n: u64| #[trigger] final(self).being_destroyed@.contains(n) == (old(self).being_destroyed@.contains(n) || n == closed.native_id)
                &&& final(self).primary_display == old(self).primary_display
                &&& final(self).displays == old(self).displays
                &&& final(self).next_display_id == old(self).next_display_id
            },
    {
        let pos = self.find_window(id);
        let i = match pos {
            Some(i) => i,
            None => {
                return self.windows.len();
            },
        };
        let ghost prev = self.windows@;
        let closed = self.windows.remove(i);
        crate::input::vec_insert_u64(&mut self.being_destroyed, closed.native_id);
        if closed.is_primary && self.windows.len() > 0 {
            self.windows[0].is_primary = true;
        }
        proof {
            let ws = self.windows@;
            assert forall|j: int| 0 <= j < ws.len() implies same_but_primary(
                #[trigger] ws[j],
                prev[if j < i { j } else { j + 1 }],
            ) by {}
            assert forall|a: int, b: int| 0 <= a < b < ws.len() implies (#[trigger] ws[a]).id != (#[trigger] ws[b]).id by {
                let pa = if a < i { a } else { a + 1 };
                let pb = if b < i { b } else { b + 1 };
                assert(same_but_primary(ws[a], prev[pa]));
                assert(same_but_primary(ws[b], prev[pb]));
            }
            assert forall|a: int, b: int| 0 <= a < b < ws.len() implies (#[trigger] ws[a]).native_id != (#[trigger] ws[b]).native_id by {
                let pa = if a < i { a } else { a + 1 };
                let pb = if b < i { b } else { b + 1 };
                assert(same_but_primary(ws[a], prev[pa]));
                assert(same_but_primary(ws[b], prev[pb]));
            }
            if closed.is_primary {
                assert forall|a: int, b: int|
                    0 <= a < ws.len() && 0 <= b < ws.len() && (#[trigger] ws[a]).is_primary && (#[trigger] ws[b]).is_primary implies a == b by {
                    if a != 0 {
                        let pa = if a < i { a } else { a + 1 };
                        assert(prev[pa].is_primary);
                        assert(prev[i as int].is_primary);
                    }
                    if b != 0 {
                        let pb = if b < i { b } else { b + 1 };
                        assert(prev[pb].is_primary);
                        assert(prev[i as int].is_primary);
                    }
                }
                if ws.len() > 0 {
                    assert(ws[0].is_primary);
                }
            } else {
                assert forall|a: int, b: int|
                    0 <= a < ws.len() && 0 <= b < ws.len() && (#[trigger] ws[a]).is_primary && (#[trigger] ws[b]).is_primary implies a == b by {
                    let pa = if a < i { a } else { a + 1 };
                    let pb = if b < i { b } else { b + 1 };
                    assert(prev[pa].is_primary && prev[pb].is_primary);
                }
                if ws.len() > 0 {
                    let p = choose|p: int| 0 <= p < prev.len() && (#[trigger] prev[p]).is_primary;
                    assert(p != i);
                    let q = if p < i { p } else { p - 1 };
                    assert(ws[q].is_primary);
                }
            }
            assert(!self.has_native(closed.native_id)) by {
                if self.has_native(closed.native_id) {
                    let a = choose|a: int| 0 <= a < ws.len() && (#[trigger] ws[a]).native_id == closed.native_id;
                    let pa = if a < i { a } else { a + 1 };
                    assert(same_but_primary(ws[a], prev[pa]));
                    if pa < i {
                        assert(prev[pa].native_id != prev[i as int].native_id);
                    } else {
                        assert(prev[i as int].native_id != prev[pa].native_id);
                    }
                }
            }
            assert(!has_window(ws, id)) by {
                if has_window(ws, id) {
                    let a = choose|a: int| 0 <= a < ws.len() && (#[trigger] ws[a]).id == id;
                    let pa = if a < i { a } else { a + 1 };
                    assert(prev[pa].id == id);
                    if pa < i {
                        assert(prev[pa].id != prev[i as int].id);
                    } else {
                        assert(prev[i as int].id != prev[pa].id);
                    }
                }
            }
        }
        self.windows.len()
    }

    /// Notifies the manager that a native window was fully destroyed. Returns whether it was
    /// tracked as being destroyed
    pub fn winit_window_destroyed(&mut self, native_id: u64) -> (removed: bool)
        requires
            old(self).wf(),
        ensures
            final(self).wf(),
            removed == old(self).being_destroyed@.contains(native_id),
            forall|n: u64| #[trigger] final(self).being_destroyed@.contains(n) == (old(self).being_destroyed@.contains(n) && n != native_id),
            final(self).windows == old(self).windows,
            final(self).primary_display == old(self).primary_display,
            final(self).displays == old(self).displays,
            final(self).next_display_id == old(self).next_display_id,
    {
        crate::input::vec_remove_u64(&mut self.being_destroyed, native_id)
    }

    /// Marks the window as the new primary window, and all others as not primary. If the
    /// window does not exist, does nothing
    pub fn appoint_primary_window(&mut self, id: Window)
        requires
            old(self).wf(),
        ensures
            final(self).wf(),
            !has_window(old(self).windows@, id) ==> *final(self) == *old(self),
            has_window(old(self).windows@, id) ==> {
                &&& has_window(final(self).windows@, id)
                &&& final(self).info(id).is_primary
                &&& final(self).windows@.len() == old(self).windows@.len()
                &&& forall|j: int| 0 <= j < final(self).windows@.len() ==> (#[trigger] final(self).windows@[j]) == (WindowInfo {
                    is_primary: old(self).windows@[j].id == id,
                    ..old(self).windows@[j]
                })
                &&& final(self).being_destroyed == old(self).being_destroyed
                &&& final(self).primary_display == old(self).primary_display
                &&& final(self).displays == old(self).displays
                &&& final(self).next_display_id == old(self).next_display_id
            },
    {
        let target = match self.find_window(id) {
            Some(t) => t,
            None => {
                return;
            },
        };
        let ghost prev = self.windows@;
        let mut k: usize = 0;
        while k < self.windows.len()
            invariant
                0 <= k <= self.windows@.len(),
                self.windows@.len() == prev.len(),
                target < prev.len(),
                prev[target as int].id == id,
                forall|a: int, b: int| 0 <= a < b < prev.len() ==> (#[trigger] prev[a]).id != (#[trigger] prev[b]).id,
                forall|j: int| 0 <= j < k ==> (#[trigger] self.windows@[j]) == (WindowInfo { is_primary: prev[j].id == id, ..prev[j] }),
                forall|j: int| k <= j < prev.len() ==> (#[trigger] self.windows@[j]) == prev[j],
                prev == old(self).windows@,
                old(self).wf(),
                self.being_destroyed == old(self).being_destroyed,
                self.primary_display == old(self).primary_display,
                self.displays == old(self).displays,
                self.next_display_id == old(self).next_display_id,
            decreases self.windows.len() - k,
        {
            let is_target = self.windows[k].id == id;
            self.windows[k].is_primary = is_target;
            k += 1;
        }
        proof {
            let ws = self.windows@;
            assert forall|a: int, b: int| 0 <= a < b < ws.len() implies (#[trigger] ws[a]).id != (#[trigger] ws[b]).id by {
                assert(ws[a].id == prev[a].id && ws[b].id == prev[b].id);
            }
            assert forall|a: int, b: int| 0 <= a < b < ws.len() implies (#[trigger] ws[a]).native_id != (#[trigger] ws[b]).native_id by {
                assert(ws[a].native_id == prev[a].native_id && ws[b].native_id == prev[b].native_id);
            }
            assert forall|a: int, b: int|
                0 <= a < ws.len() && 0 <= b < ws.len() && (#[trigger] ws[a]).is_primary && (#[trigger] ws[b]).is_primary implies a == b by {
                if a != b {
                    if a < b {
                        assert(prev[a].id != prev[b].id);
                    } else {
                        assert(prev[b].id != prev[a].id);
                    }
                }
            }
            assert(ws[target as int].is_primary);
            assert(ws[target as int].id == id);
            let c = window_pos(ws, id);
            if c != target {
                if c < target {
                    assert(ws[c].id != ws[target as int].id);
                } else {
                    assert(ws[target as int].id != ws[c].id);
                }
            }
        }
    }

    /// Refreshes the cached information on the window with what the native window reports.
    /// Returns whether its surface should be reconfigured: when forced, or when its size
    /// changed to a nonzero size. Returns `false` when the window does not exist
    pub fn refresh_window(
        &mut self,
        id: Window,
        title: String,
        inner_size: (u32, u32),
        focused: bool,
        minimized: Option<bool>,
        maximized: bool,
        force_reconfigure: bool,
    ) -> (reconfigure: bool)
        requires
            old(self).wf(),
        ensures
            final(self).wf(),
            !has_window(old(self).windows@, id) ==> *final(self) == *old(self) && !reconfigure,
            has_window(old(self).windows@, id) ==> {
                let i = window_pos(old(self).windows@, id);
                let prev = old(self).windows@[i];
                &&& reconfigure == (force_reconfigure || (inner_size != (0u32, 0u32) && inner_size != prev.inner_size))
                &&& final(self).windows@ == old(self).windows@.update(i, WindowInfo {
                    title,
                    inner_size,
                    focused,
                    minimized: match minimized {
                        Some(m) => m,
                        None => prev.minimized,
                    },
                    maximized,
                    ..prev
                })
                &&& final(self).being_destroyed == old(self).being_destroyed
                &&& final(self).primary_display == old(self).primary_display
                &&& final(self).displays == old(self).displays
                &&& final(self).next_display_id == old(self).next_display_id
            },
    {
        let i = match self.find_window(id) {
            Some(i) => i,
            None => {
                return false;
            },
        };
        let ghost prev = self.windows@;
        let mut info = self.windows.remove(i);
        let should = info.refresh(title, inner_size, focused, minimized, maximized);
        self.windows.insert(i, info);
        proof {
            let ws = self.windows@;
            assert(ws =~= prev.update(i as int, ws[i as int]));
            assert forall|a: int| 0 <= a < ws.len() && a != i implies #[trigger] ws[a] == prev[a] by {}
            assert forall|a: int, b: int| 0 <= a < b < ws.len() implies (#[trigger] ws[a]).id != (#[trigger] ws[b]).id by {
                assert(ws[a].id == prev[a].id && ws[b].id == prev[b].id);
            }
            assert forall|a: int, b: int| 0 <= a < b < ws.len() implies (#[trigger] ws[a]).native_id != (#[trigger] ws[b]).native_id by {
                assert(ws[a].native_id == prev[a].native_id && ws[b].native_id == prev[b].native_id);
            }
            assert forall|a: int, b: int|
                0 <= a < ws.len() && 0 <= b < ws.len() && (#[trigger] ws[a]).is_primary && (#[trigger] ws[b]).is_primary implies a == b by {
                assert(prev[a].is_primary && prev[b].is_primary);
            }
            let p = choose|p: int| 0 <= p < prev.len() && (#[trigger] prev[p]).is_primary;
            assert(ws[p].is_primary);
        }
        force_reconfigure || should
    }

    /// Records the new occlusion state of the window. If the window does not exist, does
    /// nothing
    pub fn notify_window_occluded(&mut self, id: Window, occluded: bool)
        requires
            old(self).wf(),
        ensures
            final(self).wf(),
            !has_window(old(self).windows@, id) ==> *final(self) == *old(self),
            has_window(old(self).windows@, id) ==> {
                let i = window_pos(old(self).windows@, id);
                &&& final(self).windows@ == old(self).windows@.update(i, WindowInfo { occluded, ..old(self).windows@[i] })
                &&& final(self).being_destroyed == old(self).being_destroyed
                &&& final(self).primary_display == old(self).primary_display
                &&& final(self).displays == old(self).displays
                &&& final(self).next_display_id == old(self).next_display_id
            },
    {
        let i = match self.find_window(id) {
            Some(i) => i,
            None => {
                return;
            },
        };
        let ghost prev = self.windows@;
        self.windows[i].occluded = occluded;
        proof {
            let ws = self.windows@;
            assert(ws =~= prev.update(i as int, WindowInfo { occluded, ..prev[i as int] }));
            assert forall|a: int, b: int| 0 <= a < b < ws.len() implies (#[trigger] ws[a]).id != (#[trigger] ws[b]).id by {
                assert(ws[a].id == prev[a].id && ws[b].id == prev[b].id);
            }
            assert forall|a: int, b: int| 0 <= a < b < ws.len() implies (#[trigger] ws[a]).native_id != (#[trigger] ws[b]).native_id by {
                assert(ws[a].native_id == prev[a].native_id && ws[b].native_id == prev[b].native_id);
            }
            assert forall|a: int, b: int|
                0 <= a < ws.len() && 0 <= b < ws.len() && (#[trigger] ws[a]).is_primary && (#[trigger] ws[b]).is_primary implies a == b by {
                assert(prev[a].is_primary && prev[b].is_primary);
            }
            let p = choose|p: int| 0 <= p < prev.len() && (#[trigger] prev[p]).is_primary;
            assert(ws[p].is_primary);
        }
    }

    /// For a native window identifier, returns the engine window if it is open, else whether
    /// it is being destroyed
    pub fn find_id(&self, native_id: u64) -> (r: WindowState)
        requires
            self.wf(),
        ensures
            match r {
                WindowState::Alive(w) => exists|i: int| 0 <= i < self.windows@.len()
                    && (#[trigger] self.windows@[i]).native_id == native_id && self.windows@[i].id == w,
                WindowState::BeingDestroyed => !self.has_native(native_id) && self.being_destroyed@.contains(native_id),
                WindowState::NotFound => !self.has_native(native_id) && !self.being_destroyed@.contains(native_id),
            },
    {
        let mut i: usize = 0;
        while i < self.windows.len()
            invariant
                0 <= i <= self.windows@.len(),
                forall|j: int| 0 <= j < i ==> (#[trigger] self.windows@[j]).native_id != native_id,
            decreases self.windows.len() - i,
        {
            if self.windows[i].native_id == native_id {
                return WindowState::Alive(self.windows[i].id);
            }
            i += 1;
        }
        if crate::input::vec_contains_u64(&self.being_destroyed, native_id) {
            WindowState::BeingDestroyed
        } else {
            WindowState::NotFound
        }
    }

    /// Requests reconfiguration of the surfaces of all open windows, in order of opening
    pub fn reconfigure_all_windows(&self, queue: &mut MainThreadQueue)
        ensures
            final(queue).running == old(queue).running,
            final(queue).events@.len() == old(queue).events@.len() + self.windows@.len(),
            forall|j: int| 0 <= j < old(queue).events@.len() ==> #[trigger] final(queue).events@[j] == old(queue).events@[j],
            forall|j: int| 0 <= j < self.windows@.len() ==> #[trigger] final(queue).events@[old(queue).events@.len() + j]
                == MainThreadEvent::ForceSurfaceReconfigure(self.windows@[j].id),
    {
        let ghost start = queue.events@;
        let mut k: usize = 0;
        while k < self.windows.len()
            invariant
                0 <= k <= self.windows@.len(),
                queue.running == old(queue).running,
                start == old(queue).events@,
                queue.events@.len() == start.len() + k,
                forall|j: int| 0 <= j < start.len() ==> #[trigger] queue.events@[j] == start[j],
                forall|j: int| 0 <= j < k ==> #[trigger] queue.events@[start.len() + j]
                    == MainThreadEvent::ForceSurfaceReconfigure(self.windows@[j].id),
            decreases self.windows.len() - k,
        {
            queue.send(MainThreadEvent::ForceSurfaceReconfigure(self.windows[k].id));
            proof {
                assert(queue.events@[start.len() + k] == MainThreadEvent::ForceSurfaceReconfigure(self.windows@[k as int].id));
            }
            k += 1;
        }
    }

    /// The primary display: the one the system names, or else an arbitrary connected one.
    /// `None` when no display is known
    pub fn primary_display(&self) -> (r: Option<Display>)
        requires
            self.wf(),
        ensures
            self.primary_display is Some ==> r == self.primary_display,
            self.primary_display is None ==> (r is None <==> self.displays@.len() == 0),
            r matches Some(d) ==> has_display(self.displays@, d),
    {
        match self.primary_display {
            Some(p) => Some(p),
            None => {
                if self.displays.len() > 0 {
                    assert(self.displays@[0].id == self.displays@[0].id);
                    Some(self.displays[0].id)
                } else {
                    None
                }
            },
        }
    }

    /// The handles of the connected displays
    pub fn get_displays(&self) -> (r: Vec<Display>)
        ensures
            r@.len() == self.displays@.len(),
            forall|j: int| 0 <= j < r@.len() ==> #[trigger] r@[j] == self.displays@[j].id,
    {
        let mut r: Vec<Display> = Vec::new();
        let mut k: usize = 0;
        while k < self.displays.len()
            invariant
                0 <= k <= self.displays@.len(),
                r@.len() == k,
                forall|j: int| 0 <= j < k ==> #[trigger] r@[j] == self.displays@[j].id,
            decreases self.displays.len() - k,
        {
            r.push(self.displays[k].id);
            k += 1;
        }
        r
    }

    /// Replaces the known displays with those the windowing system reports. A display that
    /// was connected before keeps its handle; a new one gets the next free handle
    pub fn refresh_displays(&mut self, monitors: Vec<MonitorSnapshot>)
        requires
            old(self).wf(),
            old(self).next_display_id + monitors@.len() < u32::MAX,
            forall|k: int| 0 <= k < monitors@.len() ==> ((#[trigger] monitors@[k]).existing matches Some(d)
                ==> has_display(old(self).displays@, d)),
            forall|a: int, b: int| 0 <= a < b < monitors@.len() && (#[trigger] monitors@[a]).existing is Some
                && (#[trigger] monitors@[b]).existing is Some ==> monitors@[a].existing != monitors@[b].existing,
            forall|a: int, b: int| 0 <= a < monitors@.len() && 0 <= b < monitors@.len()
                && (#[trigger] monitors@[a]).is_primary && (#[trigger] monitors@[b]).is_primary ==> a == b,
        ensures
            final(self).wf(),
            final(self).windows == old(self).windows,
            final(self).being_destroyed == old(self).being_destroyed,
            final(self).displays@.len() == monitors@.len(),
            final(self).next_display_id == old(self).next_display_id + new_count(monitors@),
            forall|k: int| 0 <= k < monitors@.len() ==> {
                let d = #[trigger] final(self).displays@[k];
                let m = monitors@[k];
                &&& d.id == refreshed_ids(monitors@, old(self).next_display_id as int)[k]
                &&& d.name == m.name
                &&& d.size == m.size
                &&& d.refresh_rate_millihertz == m.refresh_rate_millihertz
                &&& d.is_primary == m.is_primary
            },
            (exists|k: int| 0 <= k < monitors@.len() && (#[trigger] monitors@[k]).is_primary) ==> {
                let k = choose|k: int| 0 <= k < monitors@.len() && (#[trigger] monitors@[k]).is_primary;
                final(self).primary_display == Some(final(self).displays@[k].id)
            },
            !(exists|k: int| 0 <= k < monitors@.len() && (#[trigger] monitors@[k]).is_primary) ==> final(self).primary_display is None,
    {
        let ghost old_self = *self;
        let ghost ms = monitors@;
        let ghost next0 = self.next_display_id as int;
        let mut new_displays: Vec<DisplayInfo> = Vec::new();
        let mut primary: Option<Display> = None;
        let mut monitors = monitors;
        let mut k: usize = 0;
        let n = monitors.len();
        proof {
            lemma_new_count_bounds(ms);
        }
        while k < n
            invariant
                0 <= k <= n,
                n == ms.len(),
                monitors@ == ms.subrange(k as int, n as int),
                new_displays@.len() == k,
                self.next_display_id == next0 + new_count(ms.subrange(0, k as int)),
                next0 + n < u32::MAX,
                next0 >= 1,
                refreshed_ids(ms.subrange(0, k as int), next0).len() == k,
                forall|j: int| 0 <= j < k ==> {
                    let d = #[trigger] new_displays@[j];
                    &&& d.id == refreshed_ids(ms.subrange(0, k as int), next0)[j]
                    &&& d.name == ms[j].name
                    &&& d.size == ms[j].size
                    &&& d.refresh_rate_millihertz == ms[j].refresh_rate_millihertz
                    &&& d.is_primary == ms[j].is_primary
                },
                primary matches Some(p) ==> exists|j: int| 0 <= j < k && (#[trigger] ms[j]).is_primary && new_displays@[j].id == p,
                primary is None ==> forall|j: int| 0 <= j < k ==> !(#[trigger] ms[j]).is_primary,
                self.windows == old_self.windows,
                self.being_destroyed == old_self.being_destroyed,
                self.displays == old_self.displays,
            decreases n - k,
        {
            let m = monitors.remove(0);
            proof {
                let pre = ms.subrange(0, k as int);
                let next = ms.subrange(0, k + 1);
                assert(next.drop_last() =~= pre);
                assert(next.last() == ms[k as int]);
                lemma_new_count_bounds(pre);
                assert(m == ms[k as int]);
                assert(monitors@ =~= ms.subrange(k + 1, n as int));
            }
            let id = match m.existing {
                Some(d) => d,
                None => {
                    let fresh = Display(self.next_display_id);
                    self.next_display_id = self.next_display_id + 1;
                    fresh
                },
            };
            if m.is_primary {
                primary = Some(id);
            }
            new_displays.push(DisplayInfo {
                id,
                name: m.name,
                size: m.size,
                refresh_rate_millihertz: m.refresh_rate_millihertz,
                is_primary: m.is_primary,
            });
            proof {
                let pre = ms.subrange(0, k as int);
                let next = ms.subrange(0, k + 1);
                assert forall|j: int| 0 <= j < k implies refreshed_ids(next, next0)[j] == refreshed_ids(pre, next0)[j] by {}
            }
            k += 1;
        }
        proof {
            assert(ms.subrange(0, n as int) =~= ms);
        }
        self.displays = new_displays;
        self.primary_display = primary;
        proof {
            lemma_refreshed_ids_fresh(ms, next0, old_self.displays@, old_self.next_display_id as int);
            let ds = self.displays@;
            let ids = refreshed_ids(ms, next0);
            assert forall|a: int, b: int| 0 <= a < b < ds.len() implies (#[trigger] ds[a]).id != (#[trigger] ds[b]).id by {
                assert(ds[a].id == ids[a] && ds[b].id == ids[b]);
            }
            assert forall|a: int| 0 <= a < ds.len() implies 0 < (#[trigger] ds[a]).id.0 < self.next_display_id by {
                assert(ds[a].id == ids[a]);
            }
            if primary is Some {
                let j = choose|j: int| 0 <= j < n && (#[trigger] ms[j]).is_primary && ds[j].id == primary->0;
                assert(has_display(ds, primary->0));
                let c = choose|c: int| 0 <= c < ms.len() && (#[trigger] ms[c]).is_primary;
                assert(c == j);
            }
        }
    }
}

/// The handles the display refresh hands out are distinct, nonzero and below the new next
/// free handle, given that existing handles are distinct connected displays
proof fn lemma_refreshed_ids_fresh(ms: Seq<MonitorSnapshot>, next: int, ds: Seq<DisplayInfo>, bound: int)
    requires
        next == bound,
        next >= 1,
        forall|i: int, j: int| 0 <= i < j < ds.len() ==> (#[trigger] ds[i]).id != (#[trigger] ds[j]).id,
        forall|i: int| 0 <= i < ds.len() ==> 0 < (#[trigger] ds[i]).id.0 < bound,
        forall|k: int| 0 <= k < ms.len() ==> ((#[trigger] ms[k]).existing matches Some(d) ==> has_display(ds, d)),
        forall|a: int, b: int| 0 <= a < b < ms.len() && (#[trigger] ms[a]).existing is Some
            && (#[trigger] ms[b]).existing is Some ==> ms[a].existing != ms[b].existing,
        next + ms.len() < u32::MAX,
    ensures
        refreshed_ids(ms, next).len() == ms.len(),
        forall|a: int, b: int| 0 <= a < b < ms.len() ==> refreshed_ids(ms, next)[a] != refreshed_ids(ms, next)[b],
        forall|a: int| 0 <= a < ms.len() ==> 0 < (#[trigger] refreshed_ids(ms, next)[a]).0 < next + new_count(ms),
        forall|a: int| 0 <= a < ms.len() && (#[trigger] ms[a]).existing is None ==> refreshed_ids(ms, next)[a].0 >= next,
        forall|a: int| 0 <= a < ms.len() && (#[trigger] ms[a]).existing is Some ==> refreshed_ids(ms, next)[a] == ms[a].existing->0,
    decreases ms.len(),
{
    lemma_new_count_bounds(ms);
    if ms.len() > 0 {
        let rest = ms.drop_last();
        lemma_refreshed_ids_fresh(rest, next, ds, bound);
        lemma_new_count_bounds(rest);
        let ids = refreshed_ids(ms, next);
        let rids = refreshed_ids(rest, next);
        let last = ms.len() - 1;
        assert forall|a: int| 0 <= a < last implies ids[a] == rids[a] && #[trigger] ms[a] == rest[a] by {}
        match ms.last().existing {
            Some(d) => {
                let i = choose|i: int| 0 <= i < ds.len() && (#[trigger] ds[i]).id == d;
                assert(0 < d.0 < bound);
                assert forall|a: int| 0 <= a < last implies ids[a] != ids[last] by {
                    assert(ids[a] == rids[a]);
                    assert(ms[a] == rest[a]);
                    if ms[a].existing is Some {
                        assert(ms[a].existing != ms[last].existing);
                    } else {
                        assert(rids[a].0 >= next);
                    }
                }
            },
            None => {
                assert(ids[last].0 == next + new_count(rest));
                assert forall|a: int| 0 <= a < last implies ids[a] != ids[last] by {
                    assert(ids[a] == rids[a]);
                    assert(0 < (rids[a]).0 < next + new_count(rest));
                }
            },
        }
    }
}

/// Whenever a window is open, exactly one open window is the primary window
pub proof fn lemma_single_primary_window(manager: &WindowManager)
    requires
        manager.wf(),
        manager.windows@.len() > 0,
    ensures
        exists|i: int| 0 <= i < manager.windows@.len() && (#[trigger] manager.windows@[i]).is_primary
            && forall|j: int| 0 <= j < manager.windows@.len() && (#[trigger] manager.windows@[j]).is_primary ==> j == i,
{
    let ws = manager.windows@;
    let i = choose|i: int| 0 <= i < ws.len() && (#[trigger] ws[i]).is_primary;
    assert forall|j: int| 0 <= j < ws.len() && (#[trigger] ws[j]).is_primary implies j == i by {}
}

impl Window {
    /// Returns the primary window, if any window is open
    pub fn primary(manager: &WindowManager) -> (r: Option<Window>)
        requires
            manager.wf(),
        ensures
            match r {
                Some(w) => has_window(manager.windows@, w) && manager.info(w).is_primary,
                None => manager.windows@.len() == 0,
            },
    {
        let mut i: usize = 0;
        while i < manager.windows.len()
            invariant
                0 <= i <= manager.windows@.len(),
                manager.wf(),
                forall|j: int| 0 <= j < i ==> !(#[trigger] manager.windows@[j]).is_primary,
            decreases manager.windows.len() - i,
        {
            if manager.windows[i].is_primary {
                let w = manager.windows[i].id;
                proof {
                    let ws = manager.windows@;
                    let c = window_pos(ws, w);
                    assert(ws[i as int].id == w);
                    if c != i {
                        if c < i {
                            assert(ws[c].id != ws[i as int].id);
                        } else {
                            assert(ws[i as int].id != ws[c].id);
                        }
                    }
                }
                return Some(w);
            }
            i += 1;
        }
        None
    }

    /// Returns the open windows, in order of opening
    pub fn opened(manager: &WindowManager) -> (r: Vec<Window>)
        ensures
            r@.len() == manager.windows@.len(),
            forall|j: int| 0 <= j < r@.len() ==> #[trigger] r@[j] == manager.windows@[j].id,
    {
        let mut r: Vec<Window> = Vec::new();
        let mut k: usize = 0;
        while k < manager.windows.len()
            invariant
                0 <= k <= manager.windows@.len(),
                r@.len() == k,
                forall|j: int| 0 <= j < k ==> #[trigger] r@[j] == manager.windows@[j].id,
            decreases manager.windows.len() - k,
        {
            r.push(manager.windows[k].id);
            k += 1;
        }
        r
    }

    /// Returns whether this window is the primary window
    pub fn is_primary(self, manager: &WindowManager) -> (r: bool)
        requires
            manager.wf(),
        ensures
            r == (has_window(manager.windows@, self) && manager.info(self).is_primary),
    {
        match manager.find_window(self) {
            Some(i) => manager.windows[i].is_primary,
            None => false,
        }
    }

    /// Appoints this window as the primary window
    pub fn make_primary(self, manager: &mut WindowManager)
        requires
            old(manager).wf(),
        ensures
            final(manager).wf(),
            !has_window(old(manager).windows@, self) ==> *final(manager) == *old(manager),
            has_window(old(manager).windows@, self) ==> {
                &&& final(manager).info(self).is_primary
                &&& final(manager).windows@.len() == old(manager).windows@.len()
                &&& forall|j: int| 0 <= j < final(manager).windows@.len() ==> (#[trigger] final(manager).windows@[j]) == (WindowInfo {
                    is_primary: old(manager).windows@[j].id == self,
                    ..old(manager).windows@[j]
                })
                &&& final(manager).being_destroyed == old(manager).being_destroyed
                &&& final(manager).primary_display == old(manager).primary_display
                &&& final(manager).displays == old(manager).displays
                &&& final(manager).next_display_id == old(manager).next_display_id
            },
    {
        manager.appoint_primary_window(self);
    }

    /// Whether the window has been opened by the native windowing system, and has not yet
    /// been destroyed
    pub fn is_ready(self, manager: &WindowManager) -> (r: bool)
        requires
            manager.wf(),
        ensures
            r == has_window(manager.windows@, self),
    {
        manager.find_window(self).is_some()
    }

    /// The size of the window in pixels; (0, 0) when it is not open
    pub fn get_size(self, manager: &WindowManager) -> (r: (u32, u32))
        requires
            manager.wf(),
        ensures
            r == if has_window(manager.windows@, self) { manager.info(self).inner_size } else { (0u32, 0u32) },
    {
        match manager.find_window(self) {
            Some(i) => manager.windows[i].inner_size,
            None => (0, 0),
        }
    }

    /// Whether the window is focused; `true` when it is not open
    pub fn is_focused(self, manager: &WindowManager) -> (r: bool)
        requires
            manager.wf(),
        ensures
            r == if has_window(manager.windows@, self) { manager.info(self).focused } else { true },
    {
        match manager.find_window(self) {
            Some(i) => manager.windows[i].focused,
            None => true,
        }
    }

    /// Whether the window is fully occluded; `false` when it is not open, or when the
    /// platform does not report occlusion
    pub fn is_occluded(self, manager: &WindowManager) -> (r: bool)
        requires
            manager.wf(),
        ensures
            r == (has_window(manager.windows@, self) && manager.info(self).occluded),
    {
        match manager.find_window(self) {
            Some(i) => manager.windows[i].occluded,
            None => false,
        }
    }

    /// Whether the window is (known to be) minimized; `false` when it is not open
    pub fn is_minimized(self, manager: &WindowManager) -> (r: bool)
        requires
            manager.wf(),
        ensures
            r == (has_window(manager.windows@, self) && manager.info(self).minimized),
    {
        match manager.find_window(self) {
            Some(i) => manager.windows[i].minimized,
            None => false,
        }
    }

    /// Whether the window is maximized; `false` when it is not open
    pub fn is_maximized(self, manager: &WindowManager) -> (r: bool)
        requires
            manager.wf(),
        ensures
            r == (has_window(manager.windows@, self) && manager.info(self).maximized),
    {
        match manager.find_window(self) {
            Some(i) => manager.windows[i].maximized,
            None => false,
        }
    }

    /// Whether the window is in the foreground: not occluded, not minimized, and focused.
    /// `true` when it is not open
    pub fn is_foreground(self, manager: &WindowManager) -> (r: bool)
        requires
            manager.wf(),
        ensures
            r == if has_window(manager.windows@, self) {
                !manager.info(self).occluded && manager.info(self).focused && !manager.info(self).minimized
            } else {
                true
            },
    {
        match manager.find_window(self) {
            Some(i) => !manager.windows[i].occluded && manager.windows[i].focused && !manager.windows[i].minimized,
            None => true,
        }
    }

    /// The title of the window; empty when it is not open
    pub fn title(self, manager: &WindowManager) -> (r: String)
        requires
            manager.wf(),
        ensures
            r@ == if has_window(manager.windows@, self) { manager.info(self).title@ } else { Seq::<char>::empty() },
    {
        match manager.find_window(self) {
            Some(i) => manager.windows[i].title.clone(),
            None => String::new(),
        }
    }
}

impl Display {
    /// The primary display. There must be a connected display
    pub fn primary(manager: &WindowManager) -> (r: Display)
        requires
            manager.wf(),
            manager.primary_display is Some || manager.displays@.len() > 0,
        ensures
            manager.primary_display is Some ==> Some(r) == manager.primary_display,
            has_display(manager.displays@, r),
    {
        manager.primary_display().unwrap()
    }

    /// The connected displays
    pub fn available(manager: &WindowManager) -> (r: Vec<Display>)
        ensures
            r@.len() == manager.displays@.len(),
            forall|j: int| 0 <= j < r@.len() ==> #[trigger] r@[j] == manager.displays@[j].id,
    {
        manager.get_displays()
    }

    /// The OS name of the display, if it is connected and the OS names it
    pub fn name(self, manager: &WindowManager) -> (r: Option<String>)
        requires
            manager.wf(),
        ensures
            match r {
                Some(s) => has_display(manager.displays@, self) && (manager.display(self).name matches Some(n) && s@ == n@),
                None => !has_display(manager.displays@, self) || manager.display(self).name is None,
            },
    {
        match manager.find_display(self) {
            Some(i) => match &manager.displays[i].name {
                Some(n) => Some(n.clone()),
                None => None,
            },
            None => None,
        }
    }

    /// The resolution of the display in pixels; (0, 0) when it is not connected
    pub fn resolution(self, manager: &WindowManager) -> (r: (u32, u32))
        requires
            manager.wf(),
        ensures
            r == if has_display(manager.displays@, self) { manager.display(self).size } else { (0u32, 0u32) },
    {
        match manager.find_display(self) {
            Some(i) => manager.displays[i].size,
            None => (0, 0),
        }
    }

    /// The refresh rate of the display in millihertz; zero when it is not connected
    pub fn refresh_rate_millihertz(self, manager: &WindowManager) -> (r: u32)
        requires
            manager.wf(),
        ensures
            r == if has_display(manager.displays@, self) { manager.display(self).refresh_rate_millihertz } else { 0u32 },
    {
        match manager.find_display(self) {
            Some(i) => manager.displays[i].refresh_rate_millihertz,
            None => 0,
        }
    }

    /// Whether this is the primary system display; `false` when it is not connected
    pub fn is_primary(self, manager: &WindowManager) -> (r: bool)
        requires
            manager.wf(),
        ensures
            r == (has_display(manager.displays@, self) && manager.display(self).is_primary),
    {
        match manager.find_display(self) {
            Some(i) => manager.displays[i].is_primary,
            None => false,
        }
    }
}

} // verus!
