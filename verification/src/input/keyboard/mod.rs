//! Keyboard input state and queries

use vstd::prelude::*;

pub mod logical_key;

use self::logical_key::{LogicalKey, LogicalKeyView};
use super::{InputDevice, InputManager, no_duplicates, vec_contains_u32, vec_insert_u32, vec_remove_u32};

verus! {

/// A physical keyboard key, identified by its key code
pub type Key = u32;

/// A keyboard input device, identified by the raw ID of the native device
#[derive(Debug, Clone, Copy, PartialEq, Eq, Structural, Hash)]
pub struct KeyboardId(pub u64);

/// A logical keyboard input. Includes any OS mappings and composite inputs.
/// Mostly used by UI rendering and text editing
#[derive(Debug, Clone, PartialEq, Eq)]
pub enum LogicalInput {
    /// A key was pressed
    Pressed(LogicalKey),
    /// Text was entered. This includes control characters and other non-printable strings
    Text(String),
    /// A key was released
    Released(LogicalKey),
}

/// The mathematical value of a [LogicalInput]
pub enum LogicalInputView {
    /// A key was pressed
    Pressed(LogicalKeyView),
    /// Text was entered
    Text(Seq<char>),
    /// A key was released
    Released(LogicalKeyView),
}

impl View for LogicalInput {
    type V = LogicalInputView;

    open spec fn view(&self) -> LogicalInputView {
        match self {
            LogicalInput::Pressed(k) => LogicalInputView::Pressed(k@),
            LogicalInput::Text(s) => LogicalInputView::Text(s@),
            LogicalInput::Released(k) => LogicalInputView::Released(k@),
        }
    }
}

impl LogicalInput {
    /// A copy of this input with the same value
    pub fn duplicate(&self) -> (r: Self)
        ensures
            r@ == self@,
    {
        match self {
            LogicalInput::Pressed(k) => LogicalInput::Pressed(k.duplicate()),
            LogicalInput::Text(s) => LogicalInput::Text(s.clone()),
            LogicalInput::Released(k) => LogicalInput::Released(k.duplicate()),
        }
    }
}

/// The values of a list of logical inputs
pub open spec fn inputs_view(v: Seq<LogicalInput>) -> Seq<LogicalInputView> {
    v.map_values(|x: LogicalInput| x@)
}

/// Data concerning the input of a single keyboard
#[derive(Debug)]
pub struct Keyboard {
    /// The held keys in the previous frame
    pub prev_pressed_keys: Vec<Key>,
    /// The currently held keys
    pub pressed_keys: Vec<Key>,
    /// Logical keyboard inputs, ordered by when they happened. Mostly used by UI
    pub logical_inputs: Vec<LogicalInput>,
}

/// An input event for a single keyboard
pub enum KeyboardEvent {
    /// A physical key was pressed (`true`) or released (`false`)
    Key(Key, bool),
    /// A logical input was made
    Logical(LogicalInput),
}

impl Keyboard {
    /// Whether the key is held in this frame
    pub open spec fn held(&self, key: Key) -> bool {
        self.pressed_keys@.contains(key)
    }

    /// Whether the key was held in the previous frame
    pub open spec fn was_held(&self, key: Key) -> bool {
        self.prev_pressed_keys@.contains(key)
    }

    /// New [Keyboard] with no keys pressed
    pub fn new() -> (r: Self)
        ensures
            r.wf(),
            r.prev_pressed_keys@.len() == 0,
            r.pressed_keys@.len() == 0,
            r.logical_inputs@.len() == 0,
    {
        Keyboard { prev_pressed_keys: Vec::new(), pressed_keys: Vec::new(), logical_inputs: Vec::new() }
    }

    /// The key sets hold no key twice
    pub open spec fn wf(&self) -> bool {
        no_duplicates(self.prev_pressed_keys@) && no_duplicates(self.pressed_keys@)
    }

    /// Registers the given key as pressed
    pub fn set_key_pressed(&mut self, key: Key)
        requires
            old(self).wf(),
        ensures
            final(self).wf(),
            forall|k: Key| final(self).held(k) == (old(self).held(k) || k == key),
            final(self).prev_pressed_keys@ == old(self).prev_pressed_keys@,
            final(self).logical_inputs@ == old(self).logical_inputs@,
    {
        let _was_released = vec_insert_u32(&mut self.pressed_keys, key);
    }

    /// Registers the given key as released
    pub fn set_key_released(&mut self, key: &Key)
        requires
            old(self).wf(),
        ensures
            final(self).wf(),
            forall|k: Key| final(self).held(k) == (old(self).held(k) && k != *key),
            final(self).prev_pressed_keys@ == old(self).prev_pressed_keys@,
            final(self).logical_inputs@ == old(self).logical_inputs@,
    {
        let _was_held = vec_remove_u32(&mut self.pressed_keys, *key);
    }

    /// Add a new logical input to the keyboard
    pub fn add_logical_input(&mut self, logical: LogicalInput)
        ensures
            inputs_view(final(self).logical_inputs@) == inputs_view(old(self).logical_inputs@).push(logical@),
            final(self).prev_pressed_keys@ == old(self).prev_pressed_keys@,
            final(self).pressed_keys@ == old(self).pressed_keys@,
    {
        let ghost l = logical@;
        self.logical_inputs.push(logical);
        assert(inputs_view(self.logical_inputs@) =~= inputs_view(old(self).logical_inputs@).push(l));
    }
}

/// Copies a list of keys
fn copy_keys(v: &Vec<Key>) -> (r: Vec<Key>)
    ensures
        r@ == v@,
{
    let mut r: Vec<Key> = Vec::new();
    let mut i: usize = 0;
    while i < v.len()
        invariant
            0 <= i <= v.len(),
            r@ == v@.subrange(0, i as int),
        decreases v.len() - i,
    {
        r.push(v[i]);
        i += 1;
        assert(v@.subrange(0, i as int) == v@.subrange(0, i - 1).push(v@[i - 1]));
    }
    assert(v@.subrange(0, v@.len() as int) == v@);
    r
}

impl InputDevice for Keyboard {
    type Event = KeyboardEvent;

    open spec fn device_wf(&self) -> bool {
        self.wf()
    }

    open spec fn is_fresh(&self) -> bool {
        self.prev_pressed_keys@.len() == 0 && self.pressed_keys@.len() == 0 && self.logical_inputs@.len() == 0
    }

    open spec fn frame_ended(&self, before: Self) -> bool {
        &&& self.prev_pressed_keys@ == before.pressed_keys@
        &&& self.pressed_keys@ == before.pressed_keys@
        &&& self.logical_inputs@.len() == 0
    }

    open spec fn applied(&self, before: Self, event: Self::Event) -> bool {
        match event {
            KeyboardEvent::Key(key, true) => {
                &&& forall|k: Key| self.held(k) == (before.held(k) || k == key)
                &&& self.prev_pressed_keys@ == before.prev_pressed_keys@
                &&& self.logical_inputs@ == before.logical_inputs@
            },
            KeyboardEvent::Key(key, false) => {
                &&& forall|k: Key| self.held(k) == (before.held(k) && k != key)
                &&& self.prev_pressed_keys@ == before.prev_pressed_keys@
                &&& self.logical_inputs@ == before.logical_inputs@
            },
            KeyboardEvent::Logical(li) => {
                &&& inputs_view(self.logical_inputs@) == inputs_view(before.logical_inputs@).push(li@)
                &&& self.prev_pressed_keys@ == before.prev_pressed_keys@
                &&& self.pressed_keys@ == before.pressed_keys@
            },
        }
    }

    fn fresh() -> (r: Self) {
        Keyboard::new()
    }

    /// Makes sure that all new input is registered to the next frame
    fn end_frame(&mut self) {
        self.prev_pressed_keys = copy_keys(&self.pressed_keys);
        self.logical_inputs = Vec::new();
    }

    fn apply(&mut self, event: &Self::Event) {
        match event {
            KeyboardEvent::Key(key, pressed) => {
                if *pressed {
                    self.set_key_pressed(*key);
                } else {
                    self.set_key_released(key);
                }
            },
            KeyboardEvent::Logical(li) => {
                self.add_logical_input(li.duplicate());
            },
        }
    }
}

/// Whether the key was pressed this frame on the keyboard: held now, but not in the previous frame
pub open spec fn spec_key_pressed(kbd: Option<Keyboard>, key: Key) -> bool {
    match kbd {
        Some(k) => k.held(key) && !k.was_held(key),
        None => false,
    }
}

/// Whether the key is held this frame on the keyboard
pub open spec fn spec_key_held(kbd: Option<Keyboard>, key: Key) -> bool {
    match kbd {
        Some(k) => k.held(key),
        None => false,
    }
}

/// Whether the key was released this frame on the keyboard: held in the previous frame, not now
pub open spec fn spec_key_released(kbd: Option<Keyboard>, key: Key) -> bool {
    match kbd {
        Some(k) => !k.held(key) && k.was_held(key),
        None => false,
    }
}

/// Returns whether the specified keyboard key was pressed this frame. If the key
/// was already pressed last frame, this returns `false`.
///
/// If `device` is [None], returns the value for the latest changed keyboard device.
/// If the specified keyboard (or the latest keyboard) could not be found, returns `false`
pub fn key_pressed(manager: &InputManager, device: Option<KeyboardId>, key: Key) -> (r: bool)
    requires
        manager.wf(),
    ensures
        r == spec_key_pressed(manager.selected_keyboard(device), key),
{
    match manager.get_keyboard(device) {
        Some(keyboard) => vec_contains_u32(&keyboard.pressed_keys, key) && !vec_contains_u32(
            &keyboard.prev_pressed_keys,
            key,
        ),
        None => false,
    }
}

/// Returns whether the specified keyboard key was being held this frame.
///
/// If `device` is [None], returns the value for the latest changed keyboard device.
/// If the specified keyboard (or the latest keyboard) could not be found, returns `false`
pub fn key_held(manager: &InputManager, device: Option<KeyboardId>, key: Key) -> (r: bool)
    requires
        manager.wf(),
    ensures
        r == spec_key_held(manager.selected_keyboard(device), key),
{
    match manager.get_keyboard(device) {
        Some(keyboard) => vec_contains_u32(&keyboard.pressed_keys, key),
        None => false,
    }
}

/// Returns whether the specified keyboard key was released this frame. If the key
/// was not held down last frame, this always returns `false`.
///
/// If `device` is [None], returns the value for the latest changed keyboard device.
/// If the specified keyboard (or the latest keyboard) could not be found, returns `false`
pub fn key_released(manager: &InputManager, device: Option<KeyboardId>, key: Key) -> (r: bool)
    requires
        manager.wf(),
    ensures
        r == spec_key_released(manager.selected_keyboard(device), key),
{
    match manager.get_keyboard(device) {
        Some(keyboard) => !vec_contains_u32(&keyboard.pressed_keys, key) && vec_contains_u32(
            &keyboard.prev_pressed_keys,
            key,
        ),
        None => false,
    }
}

/// The keys of `a` that are not in `b`, each once
fn key_difference(a: &Vec<Key>, b: &Vec<Key>) -> (r: Vec<Key>)
    requires
        no_duplicates(a@),
    ensures
        no_duplicates(r@),
        forall|k: Key| r@.contains(k) <==> (a@.contains(k) && !b@.contains(k)),
{
    let mut r: Vec<Key> = Vec::new();
    let mut i: usize = 0;
    while i < a.len()
        invariant
            0 <= i <= a.len(),
            no_duplicates(a@),
            no_duplicates(r@),
            forall|k: Key| r@.contains(k) <==> (a@.subrange(0, i as int).contains(k) && !b@.contains(k)),
        decreases a.len() - i,
    {
        let k = a[i];
        let ghost prev = r@;
        let ghost sub_i = a@.subrange(0, i as int);
        let ghost sub_n = a@.subrange(0, i + 1);
        assert(sub_n == sub_i.push(k));
        if !vec_contains_u32(b, k) {
            proof {
                if prev.contains(k) {
                    let j = choose|j: int| 0 <= j < sub_i.len() && sub_i[j] == k;
                    assert(a@[j] == a@[i as int]);
                }
            }
            r.push(k);
            proof {
                assert forall|x: int, y: int| 0 <= x < y < r@.len() implies r@[x] != r@[y] by {
                    if y == prev.len() {
                        assert(prev[x] == r@[x]);
                    }
                }
            }
        }
        proof {
            assert forall|kk: Key| r@.contains(kk) <==> (sub_n.contains(kk) && !b@.contains(kk)) by {
                if r@.contains(kk) {
                    let j = choose|j: int| 0 <= j < r@.len() && r@[j] == kk;
                    if j < prev.len() {
                        assert(prev[j] == kk);
                        assert(prev.contains(kk));
                        let jj = choose|jj: int| 0 <= jj < sub_i.len() && sub_i[jj] == kk;
                        assert(sub_n[jj] == kk);
                    } else {
                        assert(kk == k);
                        assert(sub_n[i as int] == kk);
                    }
                }
                if sub_n.contains(kk) && !b@.contains(kk) {
                    let j = choose|j: int| 0 <= j < sub_n.len() && sub_n[j] == kk;
                    if j < i {
                        assert(sub_i[j] == kk);
                        assert(prev.contains(kk));
                        let jj = choose|jj: int| 0 <= jj < prev.len() && prev[jj] == kk;
                        assert(r@[jj] == kk);
                    } else {
                        assert(r@[r@.len() - 1] == kk);
                    }
                }
            }
        }
        i += 1;
    }
    assert(a@.subrange(0, a@.len() as int) == a@);
    r
}

/// Returns all keys pressed this frame (held now, not held in the previous frame), each once.
///
/// If `device` is [None], returns the value for the latest changed keyboard device.
/// If the specified keyboard (or the latest keyboard) could not be found, returns an empty set
pub fn pressed_keys(manager: &InputManager, device: Option<KeyboardId>) -> (r: Vec<Key>)
    requires
        manager.wf(),
    ensures
        no_duplicates(r@),
        forall|k: Key| r@.contains(k) <==> spec_key_pressed(manager.selected_keyboard(device), k),
{
    match manager.get_keyboard(device) {
        Some(keyboard) => key_difference(&keyboard.pressed_keys, &keyboard.prev_pressed_keys),
        None => Vec::new(),
    }
}

/// Returns all keys held this frame, each once.
///
/// If `device` is [None], returns the value for the latest changed keyboard device.
/// If the specified keyboard (or the latest keyboard) could not be found, returns an empty set
pub fn held_keys(manager: &InputManager, device: Option<KeyboardId>) -> (r: Vec<Key>)
    requires
        manager.wf(),
    ensures
        no_duplicates(r@),
        forall|k: Key| r@.contains(k) <==> spec_key_held(manager.selected_keyboard(device), k),
{
    match manager.get_keyboard(device) {
        Some(keyboard) => copy_keys(&keyboard.pressed_keys),
        None => Vec::new(),
    }
}

/// Returns all keys released this frame (held in the previous frame, not now), each once.
///
/// If `device` is [None], returns the value for the latest changed keyboard device.
/// If the specified keyboard (or the latest keyboard) could not be found, returns an empty set
pub fn released_keys(manager: &InputManager, device: Option<KeyboardId>) -> (r: Vec<Key>)
    requires
        manager.wf(),
    ensures
        no_duplicates(r@),
        forall|k: Key| r@.contains(k) <==> spec_key_released(manager.selected_keyboard(device), k),
{
    match manager.get_keyboard(device) {
        Some(keyboard) => key_difference(&keyboard.prev_pressed_keys, &keyboard.pressed_keys),
        None => Vec::new(),
    }
}

/// Returns all logical inputs that were made this frame, in order.
///
/// If `device` is [None], returns the values for the latest changed keyboard device.
/// If the specified keyboard (or the latest keyboard) could not be found, returns an empty vector
pub fn logical_inputs(manager: &InputManager, device: Option<KeyboardId>) -> (r: Vec<LogicalInput>)
    requires
        manager.wf(),
    ensures
        inputs_view(r@) == match manager.selected_keyboard(device) {
            Some(k) => inputs_view(k.logical_inputs@),
            None => Seq::empty(),
        },
{
    match manager.get_keyboard(device) {
        Some(keyboard) => {
            let mut r: Vec<LogicalInput> = Vec::new();
            let mut i: usize = 0;
            while i < keyboard.logical_inputs.len()
                invariant
                    0 <= i <= keyboard.logical_inputs@.len(),
                    inputs_view(r@) == inputs_view(keyboard.logical_inputs@.subrange(0, i as int)),
                decreases keyboard.logical_inputs.len() - i,
            {
                let li = keyboard.logical_inputs[i].duplicate();
                let ghost prev = r@;
                r.push(li);
                assert(inputs_view(r@) =~= inputs_view(prev).push(li@));
                assert(keyboard.logical_inputs@.subrange(0, i + 1) == keyboard.logical_inputs@.subrange(0, i as int).push(keyboard.logical_inputs@[i as int]));
                assert(inputs_view(keyboard.logical_inputs@.subrange(0, i + 1)) =~= inputs_view(keyboard.logical_inputs@.subrange(0, i as int)).push(keyboard.logical_inputs@[i as int]@));
                i += 1;
            }
            assert(keyboard.logical_inputs@.subrange(0, keyboard.logical_inputs@.len() as int) == keyboard.logical_inputs@);
            r
        },
        None => {
            let r: Vec<LogicalInput> = Vec::new();
            assert(inputs_view(r@) =~= Seq::empty());
            r
        },
    }
}

/// A key press on an identified keyboard is seen by every query for that keyboard: the key
/// is held there until it is released
pub proof fn lemma_key_press_held(before: InputManager, after: InputManager, id: KeyboardId, key: Key)
    requires
        before.wf(),
        after.wf(),
        after.keyboards.updated_from(before.keyboards, Some(id.0), KeyboardEvent::Key(key, true)),
    ensures
        spec_key_held(after.selected_keyboard(Some(id)), key),
{
    let b = before.keyboards;
    let a = after.keyboards;
    let ev = KeyboardEvent::Key(key, true);
    match b.unidentified {
        Some(v) => {
            assert(a.devices@[0].1.applied(v, ev));
            assert(a.devices@[0].0 == id.0);
            let i = choose|i: int| 0 <= i < a.devices@.len() && (#[trigger] a.devices@[i]).0 == id.0;
            assert(i == 0);
        },
        None => {
            if b.identified(id.0) is Some {
                let j = choose|j: int| 0 <= j < b.devices@.len() && (#[trigger] b.devices@[j]).0 == id.0;
                assert(a.devices@[j].0 == id.0);
                assert(a.devices@[j].1.applied(b.devices@[j].1, ev));
                let i = choose|i: int| 0 <= i < a.devices@.len() && (#[trigger] a.devices@[i]).0 == id.0;
                if i != j {
                    if i < j {
                        assert(a.devices@[i].0 != a.devices@[j].0);
                    } else {
                        assert(a.devices@[j].0 != a.devices@[i].0);
                    }
                }
            } else {
                let last = a.devices@.len() - 1;
                assert(a.devices@[last].0 == id.0);
                let f = choose|f: Keyboard| f.is_fresh() && (#[trigger] a.devices@.last().1.applied(f, ev));
                assert(a.devices@[last].1.held(key));
                let i = choose|i: int| 0 <= i < a.devices@.len() && (#[trigger] a.devices@[i]).0 == id.0;
                if i != last {
                    assert(a.devices@[i].0 != a.devices@[last].0);
                }
            }
        },
    }
}

} // verus!
