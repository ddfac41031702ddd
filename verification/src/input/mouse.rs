//! Mouse button state and queries

use vstd::prelude::*;

use super::{InputDevice, InputManager, WindowIdentifier, no_duplicates, vec_contains_u32, vec_insert_u32, vec_remove_u32};

verus! {

/// Left mouse button
pub const BUTTON_LEFT: u32 = 0;

/// Right mouse button
pub const BUTTON_RIGHT: u32 = 1;

/// Middle mouse button
pub const BUTTON_MIDDLE: u32 = 2;

/// "Back" mouse button
pub const BUTTON_BACK: u32 = 3;

/// "Forward" mouse button
pub const BUTTON_FORWARD: u32 = 4;

/// A mouse input device, identified by the raw ID of the native device
#[derive(Debug, Clone, Copy, PartialEq, Eq, Structural, Hash)]
pub struct MouseId(pub u64);

/// The button data of a single mouse, and the window its cursor is on
#[derive(Debug)]
pub struct Mouse {
    /// The held buttons in the previous frame
    pub prev_pressed_buttons: Vec<u32>,
    /// The currently held buttons
    pub pressed_buttons: Vec<u32>,
    /// The window the cursor is on. If [None], the cursor is not on any window
    pub window: Option<WindowIdentifier>,
}

/// An input event for a single mouse
pub enum MouseEvent {
    /// A button was pressed (`true`) or released (`false`)
    Button(u32, bool),
    /// The cursor moved onto the given window, or off all windows
    Window(Option<WindowIdentifier>),
    /// The mouse moved or scrolled
    Motion,
}

impl Mouse {
    /// Whether the button is held in this frame
    pub open spec fn held(&self, button: u32) -> bool {
        self.pressed_buttons@.contains(button)
    }

    /// Whether the button was held in the previous frame
    pub open spec fn was_held(&self, button: u32) -> bool {
        self.prev_pressed_buttons@.contains(button)
    }

    /// The button sets hold no button twice
    pub open spec fn wf(&self) -> bool {
        no_duplicates(self.prev_pressed_buttons@) && no_duplicates(self.pressed_buttons@)
    }

    /// Create a new, empty, [Mouse]
    pub fn new() -> (r: Self)
        ensures
            r.wf(),
            r.prev_pressed_buttons@.len() == 0,
            r.pressed_buttons@.len() == 0,
            r.window is None,
    {
        Mouse { prev_pressed_buttons: Vec::new(), pressed_buttons: Vec::new(), window: None }
    }

    /// Registers the given button as pressed
    pub fn set_button_pressed(&mut self, button: u32)
        requires
            old(self).wf(),
        ensures
            final(self).wf(),
            forall|b: u32| final(self).held(b) == (old(self).held(b) || b == button),
            final(self).prev_pressed_buttons@ == old(self).prev_pressed_buttons@,
            final(self).window == old(self).window,
    {
        let _was_released = vec_insert_u32(&mut self.pressed_buttons, button);
    }

    /// Registers the given button as released
    pub fn set_button_released(&mut self, button: &u32)
        requires
            old(self).wf(),
        ensures
            final(self).wf(),
            forall|b: u32| final(self).held(b) == (old(self).held(b) && b != *button),
            final(self).prev_pressed_buttons@ == old(self).prev_pressed_buttons@,
            final(self).window == old(self).window,
    {
        let _was_held = vec_remove_u32(&mut self.pressed_buttons, *button);
    }

    /// Sets the window the cursor is on
    pub fn set_window_position(&mut self, window: Option<WindowIdentifier>)
        ensures
            final(self).window == window,
            final(self).prev_pressed_buttons@ == old(self).prev_pressed_buttons@,
            final(self).pressed_buttons@ == old(self).pressed_buttons@,
    {
        self.window = window;
    }
}

fn copy_buttons(v: &Vec<u32>) -> (r: Vec<u32>)
    ensures
        r@ == v@,
{
    let mut r: Vec<u32> = Vec::new();
    let mut i: usize = 0;
    while i < v.len()
        invariant
            0 <= i <= v.len(),
            r@ == v@.subrange(0, i as int),
        decreases v.len() - i,
    {
        r.push(v[i]);
        i += 1;
        assert(v@.subrange(0, i as int) == v@.subrange(0, i - 1).push(v@[i - 1]));
    }
    assert(v@.subrange(0, v@.len() as int) == v@);
    r
}

impl InputDevice for Mouse {
    type Event = MouseEvent;

    open spec fn device_wf(&self) -> bool {
        self.wf()
    }

    open spec fn is_fresh(&self) -> bool {
        self.prev_pressed_buttons@.len() == 0 && self.pressed_buttons@.len() == 0 && self.window is None
    }

    open spec fn frame_ended(&self, before: Self) -> bool {
        &&& self.prev_pressed_buttons@ == before.pressed_buttons@
        &&& self.pressed_buttons@ == before.pressed_buttons@
        &&& self.window == before.window
    }

    open spec fn applied(&self, before: Self, event: Self::Event) -> bool {
        match event {
            MouseEvent::Button(button, true) => {
                &&& forall|b: u32| self.held(b) == (before.held(b) || b == button)
                &&& self.prev_pressed_buttons@ == before.prev_pressed_buttons@
                &&& self.window == before.window
            },
            MouseEvent::Button(button, false) => {
                &&& forall|b: u32| self.held(b) == (before.held(b) && b != button)
                &&& self.prev_pressed_buttons@ == before.prev_pressed_buttons@
                &&& self.window == before.window
            },
            MouseEvent::Window(w) => {
                &&& self.window == w
                &&& self.prev_pressed_buttons@ == before.prev_pressed_buttons@
                &&& self.pressed_buttons@ == before.pressed_buttons@
            },
            MouseEvent::Motion => {
                &&& self.window == before.window
                &&& self.prev_pressed_buttons@ == before.prev_pressed_buttons@
                &&& self.pressed_buttons@ == before.pressed_buttons@
            },
        }
    }

    fn fresh() -> (r: Self) {
        Mouse::new()
    }

    /// Clears the frame-specific data for this mouse, ensuring all new
    /// input gets registered to the next frame
    fn end_frame(&mut self) {
        self.prev_pressed_buttons = copy_buttons(&self.pressed_buttons);
    }

    fn apply(&mut self, event: &Self::Event) {
        match event {
            MouseEvent::Button(button, pressed) => {
                if *pressed {
                    self.set_button_pressed(*button);
                } else {
                    self.set_button_released(button);
                }
            },
            MouseEvent::Window(w) => {
                self.set_window_position(*w);
            },
            MouseEvent::Motion => {},
        }
    }
}

/// Whether the button was pressed this frame on the mouse: held now, but not in the previous frame
pub open spec fn spec_button_pressed(mouse: Option<Mouse>, button: u32) -> bool {
    match mouse {
        Some(m) => m.held(button) && !m.was_held(button),
        None => false,
    }
}

/// Whether the button is held this frame on the mouse
pub open spec fn spec_button_held(mouse: Option<Mouse>, button: u32) -> bool {
    match mouse {
        Some(m) => m.held(button),
        None => false,
    }
}

/// Whether the button was released this frame on the mouse: held in the previous frame, not now
pub open spec fn spec_button_released(mouse: Option<Mouse>, button: u32) -> bool {
    match mouse {
        Some(m) => !m.held(button) && m.was_held(button),
        None => false,
    }
}

/// Returns whether the specified mouse button was pressed this frame. If the button
/// was already pressed last frame, this returns `false`.
///
/// If `device` is [None], returns the value for the latest changed mouse device.
/// If the specified mouse (or the latest mouse) could not be found, returns `false`
pub fn button_pressed(manager: &InputManager, device: Option<MouseId>, button: u32) -> (r: bool)
    requires
        manager.wf(),
    ensures
        r == spec_button_pressed(manager.selected_mouse(device), button),
{
    match manager.get_mouse(device) {
        Some(mouse) => vec_contains_u32(&mouse.pressed_buttons, button) && !vec_contains_u32(
            &mouse.prev_pressed_buttons,
            button,
        ),
        None => false,
    }
}

/// Returns whether the specified mouse button was being held this frame.
///
/// If `device` is [None], returns the value for the latest changed mouse device.
/// If the specified mouse (or the latest mouse) could not be found, returns `false`
pub fn button_held(manager: &InputManager, device: Option<MouseId>, button: u32) -> (r: bool)
    requires
        manager.wf(),
    ensures
        r == spec_button_held(manager.selected_mouse(device), button),
{
    match manager.get_mouse(device) {
        Some(mouse) => vec_contains_u32(&mouse.pressed_buttons, button),
        None => false,
    }
}

/// Returns whether the specified mouse button was released this frame. If the button
/// was not held down last frame, this always returns `false`.
///
/// If `device` is [None], returns the value for the latest changed mouse device.
/// If the specified mouse (or the latest mouse) could not be found, returns `false`
pub fn button_released(manager: &InputManager, device: Option<MouseId>, button: u32) -> (r: bool)
    requires
        manager.wf(),
    ensures
        r == spec_button_released(manager.selected_mouse(device), button),
{
    match manager.get_mouse(device) {
        Some(mouse) => !vec_contains_u32(&mouse.pressed_buttons, button) && vec_contains_u32(
            &mouse.prev_pressed_buttons,
            button,
        ),
        None => false,
    }
}

/// If the cursor of the mouse is on a window, returns that window.
///
/// If `device` is [None], returns the value for the latest changed mouse device.
/// If the specified mouse (or the latest mouse) could not be found, returns [None]
pub fn cursor_window(manager: &InputManager, device: Option<MouseId>) -> (r: Option<WindowIdentifier>)
    requires
        manager.wf(),
    ensures
        r == match manager.selected_mouse(device) {
            Some(m) => m.window,
            None => None,
        },
{
    match manager.get_mouse(device) {
        Some(mouse) => mouse.window,
        None => None,
    }
}

/// A logical mouse button, as the windowing system names it
#[derive(Debug, Clone, Copy, PartialEq, Eq, Structural)]
pub enum LogicalMouseButton {
    /// The left button
    Left,
    /// The right button
    Right,
    /// The middle button
    Middle,
    /// The back button
    Back,
    /// The forward button
    Forward,
    /// Another button, by its number
    Other(u16),
}

/// Maps a logical mouse button to a raw button ID: the five named buttons to their
/// constants, any other button to its own number
pub fn logical_mouse_to_button_id(logical: LogicalMouseButton) -> (r: u32)
    ensures
        r == match logical {
            LogicalMouseButton::Left => BUTTON_LEFT,
            LogicalMouseButton::Right => BUTTON_RIGHT,
            LogicalMouseButton::Middle => BUTTON_MIDDLE,
            LogicalMouseButton::Back => BUTTON_BACK,
            LogicalMouseButton::Forward => BUTTON_FORWARD,
            LogicalMouseButton::Other(n) => n as u32,
        },
{
    match logical {
        LogicalMouseButton::Left => BUTTON_LEFT,
        LogicalMouseButton::Right => BUTTON_RIGHT,
        LogicalMouseButton::Middle => BUTTON_MIDDLE,
        LogicalMouseButton::Back => BUTTON_BACK,
        LogicalMouseButton::Forward => BUTTON_FORWARD,
        LogicalMouseButton::Other(n) => n as u32,
    }
}

/// A button press on an identified mouse is seen by every query for that mouse: the button
/// is held there until it is released
pub proof fn lemma_button_press_held(before: InputManager, after: InputManager, id: MouseId, button: u32)
    requires
        before.wf(),
        after.wf(),
        after.mice.updated_from(before.mice, Some(id.0), MouseEvent::Button(button, true)),
    ensures
        spec_button_held(after.selected_mouse(Some(id)), button),
{
    let b = before.mice;
    let a = after.mice;
    let ev = MouseEvent::Button(button, true);
    match b.unidentified {
        Some(v) => {
            assert(a.devices@[0].1.applied(v, ev));
            let i = choose|i: int| 0 <= i < a.devices@.len() && (#[trigger] a.devices@[i]).0 == id.0;
            assert(i == 0);
        },
        None => {
            if b.identified(id.0) is Some {
                let j = choose|j: int| 0 <= j < b.devices@.len() && (#[trigger] b.devices@[j]).0 == id.0;
                assert(a.devices@[j].0 == id.0);
                assert(a.devices@[j].1.applied(b.devices@[j].1, ev));
                let i = choose|i: int| 0 <= i < a.devices@.len() && (#[trigger] a.devices@[i]).0 == id.0;
                if i != j {
                    if i < j {
                        assert(a.devices@[i].0 != a.devices@[j].0);
                    } else {
                        assert(a.devices@[j].0 != a.devices@[i].0);
                    }
                }
            } else {
                let last = a.devices@.len() - 1;
                assert(a.devices@[last].0 == id.0);
                let f = choose|f: Mouse| f.is_fresh() && (#[trigger] a.devices@.last().1.applied(f, ev));
                assert(a.devices@[last].1.held(button));
                let i = choose|i: int| 0 <= i < a.devices@.len() && (#[trigger] a.devices@[i]).0 == id.0;
                if i != last {
                    assert(a.devices@[i].0 != a.devices@[last].0);
                }
            }
        },
    }
}

} // verus!
