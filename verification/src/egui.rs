//! The integer side of the immediate-mode UI integration: the state of the window it draws
//! on, clipping rectangles, which input it receives (pointer buttons, modifiers, keys and
//! typed text), and where the data of its primitives lies in the vertex and index buffers

use vstd::prelude::*;
use vstd::string::StrSliceExecFns;

use crate::input::keyboard::{
    Key, LogicalInput, LogicalInputView, inputs_view, key_held, logical_inputs, spec_key_held,
};
use crate::input::mouse::{
    BUTTON_BACK, BUTTON_FORWARD, BUTTON_LEFT, BUTTON_MIDDLE, BUTTON_RIGHT, Mouse, button_pressed,
    button_released, cursor_window, spec_button_pressed, spec_button_released,
};
use crate::input::{InputManager, WindowIdentifier};

verus! {

/// Information on the window the UI is drawn on
#[derive(Debug, Clone, Copy, PartialEq, Eq, Structural)]
pub struct EguiWindowInfo {
    /// Window is in focus
    pub focused: bool,
    /// Window is occluded
    pub occluded: bool,
    /// Window is minimized
    pub minimized: bool,
    /// Window is maximized
    pub maximized: bool,
}

impl Default for EguiWindowInfo {
    /// A focused window, neither occluded, minimized nor maximized
    fn default() -> (r: Self)
        ensures
            r == (EguiWindowInfo { focused: true, occluded: false, minimized: false, maximized: false }),
    {
        EguiWindowInfo { focused: true, occluded: false, minimized: false, maximized: false }
    }
}

/// A rectangle in physical pixel space, used for setting clipping rectangles
#[derive(Debug, Clone, Copy, PartialEq, Eq, Structural)]
pub struct ScissorRect {
    /// Scissor X
    pub x: u32,
    /// Scissor Y
    pub y: u32,
    /// Scissor width
    pub width: u32,
    /// Scissor height
    pub height: u32,
}

/// `v` clamped to `lo..=hi`
pub open spec fn clamp_spec(v: u32, lo: u32, hi: u32) -> u32 {
    if v < lo { lo } else if v > hi { hi } else { v }
}

fn clamp_u32(v: u32, lo: u32, hi: u32) -> (r: u32)
    requires
        lo <= hi,
    ensures
        r == clamp_spec(v, lo, hi),
{
    if v < lo { lo } else if v > hi { hi } else { v }
}

impl ScissorRect {
    /// Creates a scissor rectangle from the corners of a clip rectangle, rounded to physical
    /// pixels, and the size of the target. The rectangle is clamped to the target: its start
    /// to the target, its end between its start and the end of the target
    pub fn from_physical(min: (u32, u32), max: (u32, u32), target_size: (u32, u32)) -> (r: Self)
        ensures
            r.x == clamp_spec(min.0, 0, target_size.0),
            r.y == clamp_spec(min.1, 0, target_size.1),
            r.width == clamp_spec(max.0, r.x, target_size.0) - r.x,
            r.height == clamp_spec(max.1, r.y, target_size.1) - r.y,
            r.x + r.width <= target_size.0,
            r.y + r.height <= target_size.1,
    {
        let min_x = clamp_u32(min.0, 0, target_size.0);
        let min_y = clamp_u32(min.1, 0, target_size.1);
        let max_x = clamp_u32(max.0, min_x, target_size.0);
        let max_y = clamp_u32(max.1, min_y, target_size.1);
        ScissorRect { x: min_x, y: min_y, width: max_x - min_x, height: max_y - min_y }
    }
}

/// Whether the character is printable: not an ASCII control character, and not in one of
/// the private use areas
pub open spec fn printable(c: char) -> bool {
    let v = c as u32;
    !((0xe000 <= v <= 0xf8ff) || (0xf0000 <= v <= 0xffffd) || (0x100000 <= v <= 0x10fffd)) && !(v < 0x20 || v == 0x7f)
}

/// Which characters count as printable: every ASCII character from the space up to the
/// tilde, and every other character that is neither an ASCII control character (below the
/// space, or delete) nor in one of the three private use areas
pub proof fn lemma_printable_characters(c: char)
    ensures
        0x20 <= (c as u32) < 0x7f ==> printable(c),
        (c as u32) < 0x20 || (c as u32) == 0x7f ==> !printable(c),
        0xe000 <= (c as u32) <= 0xf8ff || 0xf0000 <= (c as u32) <= 0xffffd || 0x100000 <= (c as u32) <= 0x10fffd
            ==> !printable(c),
        0x80 <= (c as u32) < 0xe000 || 0xf8ff < (c as u32) < 0xf0000 || 0xffffd < (c as u32) < 0x100000 ==> printable(c),
        printable(' '),
{
    assert(' ' as u32 == 0x20);
}

/// The windowing system also sends control characters as text, which are ignored, as are
/// characters in the private use areas. Newlines are handled by the Enter key
pub fn is_printable_char(chr: char) -> (r: bool)
    ensures
        r == printable(chr),
{
    let v = chr as u32;
    let in_private_use_area = (0xe000 <= v && v <= 0xf8ff) || (0xf0000 <= v && v <= 0xffffd) || (0x100000 <= v && v
        <= 0x10fffd);
    let is_ascii_control = v < 0x20 || v == 0x7f;
    !in_private_use_area && !is_ascii_control
}

/// Whether typed text reaches the UI: not while a command modifier is held, and only when
/// all of its characters are printable
pub fn accepts_text(txt: &str, ctrl: bool, command: bool, mac_cmd: bool) -> (r: bool)
    ensures
        r == (!(ctrl || command || mac_cmd) && forall|i: int| 0 <= i < txt@.len() ==> printable(#[trigger] txt@[i])),
{
    if ctrl || command || mac_cmd {
        return false;
    }
    let n = txt.unicode_len();
    let mut i: usize = 0;
    while i < n
        invariant
            0 <= i <= n,
            n == txt@.len(),
            forall|j: int| 0 <= j < i ==> printable(#[trigger] txt@[j]),
        decreases n - i,
    {
        if !is_printable_char(txt.get_char(i)) {
            return false;
        }
        i += 1;
    }
    true
}

/// A press or release of a pointer button, as handed to the UI
#[derive(Debug, Clone, Copy, PartialEq, Eq, Structural)]
pub struct PointerButtonEvent {
    /// The raw button ID
    pub button: u32,
    /// `true` for a press, `false` for a release
    pub pressed: bool,
}

/// The event of one button on the mouse this frame: a press if it was pressed, else a release
/// if it was released, else none
pub open spec fn button_event(mouse: Option<Mouse>, button: u32) -> Seq<PointerButtonEvent> {
    if spec_button_pressed(mouse, button) {
        seq![PointerButtonEvent { button, pressed: true }]
    } else if spec_button_released(mouse, button) {
        seq![PointerButtonEvent { button, pressed: false }]
    } else {
        seq![]
    }
}

/// Whether the cursor of the mouse is on the window
pub open spec fn cursor_on(mouse: Option<Mouse>, window: WindowIdentifier) -> bool {
    match mouse {
        Some(m) => m.window == Some(window),
        None => false,
    }
}

/// The pointer button events of the window: none unless the cursor is on it, else those of the
/// left, right, middle, back and forward buttons, in that order
pub open spec fn pointer_events_spec(mouse: Option<Mouse>, window: WindowIdentifier) -> Seq<PointerButtonEvent> {
    if !cursor_on(mouse, window) {
        seq![]
    } else {
        button_event(mouse, BUTTON_LEFT) + button_event(mouse, BUTTON_RIGHT) + button_event(mouse, BUTTON_MIDDLE)
            + button_event(mouse, BUTTON_BACK) + button_event(mouse, BUTTON_FORWARD)
    }
}

/// Appends the event of one button on the most recently changed mouse, if it has one
fn add_mouse_button(manager: &InputManager, button: u32, events: &mut Vec<PointerButtonEvent>)
    requires
        manager.wf(),
    ensures
        final(events)@ == old(events)@ + button_event(manager.selected_mouse(None), button),
{
    if button_pressed(manager, None, button) {
        events.push(PointerButtonEvent { button, pressed: true });
    } else if button_released(manager, None, button) {
        events.push(PointerButtonEvent { button, pressed: false });
    }
    proof {
        assert(events@ =~= old(events)@ + button_event(manager.selected_mouse(None), button));
    }
}

/// The pointer button events for the UI on the given window, read from the most recently
/// changed mouse: nothing unless its cursor is on the window, else for each of the left,
/// right, middle, back and forward buttons, in that order, a press if it was pressed this
/// frame, else a release if it was released this frame
pub fn pointer_button_events(manager: &InputManager, window: WindowIdentifier) -> (r: Vec<PointerButtonEvent>)
    requires
        manager.wf(),
    ensures
        r@ == pointer_events_spec(manager.selected_mouse(None), window),
{
    let mut events: Vec<PointerButtonEvent> = Vec::new();
    let on_window = match cursor_window(manager, None) {
        Some(w) => w.0 == window.0,
        None => false,
    };
    if !on_window {
        proof {
            assert(events@ =~= pointer_events_spec(manager.selected_mouse(None), window));
        }
        return events;
    }
    add_mouse_button(manager, BUTTON_LEFT, &mut events);
    add_mouse_button(manager, BUTTON_RIGHT, &mut events);
    add_mouse_button(manager, BUTTON_MIDDLE, &mut events);
    add_mouse_button(manager, BUTTON_BACK, &mut events);
    add_mouse_button(manager, BUTTON_FORWARD, &mut events);
    proof {
        assert(events@ =~= pointer_events_spec(manager.selected_mouse(None), window));
    }
    events
}

/// The key codes of the modifier keys, left and right
#[derive(Debug, Clone, Copy, PartialEq, Eq, Structural)]
pub struct ModifierKeys {
    /// Left alt
    pub alt_left: Key,
    /// Right alt
    pub alt_right: Key,
    /// Left control
    pub control_left: Key,
    /// Right control
    pub control_right: Key,
    /// Left shift
    pub shift_left: Key,
    /// Right shift
    pub shift_right: Key,
    /// Left super (command, windows)
    pub super_left: Key,
    /// Right super (command, windows)
    pub super_right: Key,
}

/// The modifier state handed to the UI
#[derive(Debug, Clone, Copy, PartialEq, Eq, Structural)]
pub struct Modifiers {
    /// Either alt key is held
    pub alt: bool,
    /// Either control key is held
    pub ctrl: bool,
    /// Either shift key is held
    pub shift: bool,
    /// On macOS, either command key is held; elsewhere `false`
    pub mac_cmd: bool,
    /// The platform's command modifier: `mac_cmd` on macOS, `ctrl` elsewhere
    pub command: bool,
}

fn either_held(manager: &InputManager, left: Key, right: Key) -> (r: bool)
    requires
        manager.wf(),
    ensures
        r == (spec_key_held(manager.selected_keyboard(None), left) || spec_key_held(
            manager.selected_keyboard(None),
            right,
        )),
{
    key_held(manager, None, left) || key_held(manager, None, right)
}

/// Gathers the held modifier keys of the most recently changed keyboard
pub fn gather_modifiers(manager: &InputManager, keys: &ModifierKeys, is_macos: bool) -> (r: Modifiers)
    requires
        manager.wf(),
    ensures
        r.alt == (spec_key_held(manager.selected_keyboard(None), keys.alt_left) || spec_key_held(
            manager.selected_keyboard(None),
            keys.alt_right,
        )),
        r.ctrl == (spec_key_held(manager.selected_keyboard(None), keys.control_left) || spec_key_held(
            manager.selected_keyboard(None),
            keys.control_right,
        )),
        r.shift == (spec_key_held(manager.selected_keyboard(None), keys.shift_left) || spec_key_held(
            manager.selected_keyboard(None),
            keys.shift_right,
        )),
        r.mac_cmd == (is_macos && (spec_key_held(manager.selected_keyboard(None), keys.super_left)
            || spec_key_held(manager.selected_keyboard(None), keys.super_right))),
        r.command == if is_macos { r.mac_cmd } else { r.ctrl },
{
    let alt = either_held(manager, keys.alt_left, keys.alt_right);
    let ctrl = either_held(manager, keys.control_left, keys.control_right);
    let shift = either_held(manager, keys.shift_left, keys.shift_right);
    let mac_cmd = is_macos && either_held(manager, keys.super_left, keys.super_right);
    let command = if is_macos { mac_cmd } else { ctrl };
    Modifiers { alt, ctrl, shift, mac_cmd, command }
}

/// Whether typed text with these characters reaches the UI under the modifiers
pub open spec fn text_accepted(txt: Seq<char>, modifiers: Modifiers) -> bool {
    !(modifiers.ctrl || modifiers.command || modifiers.mac_cmd) && forall|i: int|
        0 <= i < txt.len() ==> printable(#[trigger] txt[i])
}

/// Text typed without a command modifier reaches the UI when all of its characters are
/// ASCII from the space up to the tilde, spaces included; with a command modifier held no
/// text does
pub proof fn lemma_plain_text_accepted(txt: Seq<char>, modifiers: Modifiers)
    ensures
        !(modifiers.ctrl || modifiers.command || modifiers.mac_cmd) && (forall|i: int|
            0 <= i < txt.len() ==> 0x20 <= (#[trigger] txt[i] as u32) < 0x7f) ==> text_accepted(txt, modifiers),
        modifiers.ctrl || modifiers.command || modifiers.mac_cmd ==> !text_accepted(txt, modifiers),
{
    if !(modifiers.ctrl || modifiers.command || modifiers.mac_cmd) && (forall|i: int|
        0 <= i < txt.len() ==> 0x20 <= (#[trigger] txt[i] as u32) < 0x7f) {
        assert forall|i: int| 0 <= i < txt.len() implies printable(#[trigger] txt[i]) by {
            lemma_printable_characters(txt[i]);
        }
    }
}

/// Whether a logical input reaches the UI: key presses and releases always, text as
/// [text_accepted] says
pub open spec fn ui_accepts(input: LogicalInputView, modifiers: Modifiers) -> bool {
    match input {
        LogicalInputView::Text(t) => text_accepted(t, modifiers),
        _ => true,
    }
}

/// The logical inputs that reach the UI, in their order
pub open spec fn ui_inputs_spec(inputs: Seq<LogicalInputView>, modifiers: Modifiers) -> Seq<LogicalInputView>
    decreases inputs.len(),
{
    if inputs.len() == 0 {
        seq![]
    } else {
        let rest = ui_inputs_spec(inputs.drop_last(), modifiers);
        if ui_accepts(inputs.last(), modifiers) {
            rest.push(inputs.last())
        } else {
            rest
        }
    }
}

/// The logical inputs of the most recently changed keyboard this frame that the UI receives,
/// in their order: every key press and release, and the entered text that
/// [accepts_text] lets through under the held modifiers
pub fn ui_logical_inputs(manager: &InputManager, modifiers: &Modifiers) -> (r: Vec<LogicalInput>)
    requires
        manager.wf(),
    ensures
        inputs_view(r@) == ui_inputs_spec(
            match manager.selected_keyboard(None) {
                Some(k) => inputs_view(k.logical_inputs@),
                None => Seq::empty(),
            },
            *modifiers,
        ),
{
    let all = logical_inputs(manager, None);
    let ghost src = inputs_view(all@);
    let mut r: Vec<LogicalInput> = Vec::new();
    let mut i: usize = 0;
    while i < all.len()
        invariant
            0 <= i <= all@.len(),
            src == inputs_view(all@),
            inputs_view(r@) == ui_inputs_spec(src.subrange(0, i as int), *modifiers),
        decreases all.len() - i,
    {
        let input = &all[i];
        let keep = match input {
            LogicalInput::Text(txt) => accepts_text(txt.as_str(), modifiers.ctrl, modifiers.command, modifiers.mac_cmd),
            _ => true,
        };
        proof {
            assert(src.subrange(0, i + 1).drop_last() =~= src.subrange(0, i as int));
            assert(src.subrange(0, i + 1).last() == all@[i as int]@);
            assert(keep == ui_accepts(all@[i as int]@, *modifiers));
        }
        if keep {
            let ghost prev = r@;
            r.push(input.duplicate());
            assert(inputs_view(r@) =~= inputs_view(prev).push(all@[i as int]@));
        }
        i += 1;
    }
    assert(src.subrange(0, all@.len() as int) =~= src);
    r
}

/// The vertex and index counts of one mesh primitive of the UI
#[derive(Debug, Clone, Copy, PartialEq, Eq, Structural)]
pub struct PrimitiveCounts {
    /// Number of vertices
    pub vertices: usize,
    /// Number of indices
    pub indices: usize,
}

/// The size in bytes of one vertex of each attribute the UI draws with
#[derive(Debug, Clone, Copy, PartialEq, Eq, Structural)]
pub struct VertexStrides {
    /// Position
    pub position: usize,
    /// Color
    pub color: usize,
    /// Texture coordinates
    pub uv: usize,
}

/// The size in bytes of one index: indices are 32 bits wide
pub const UI_INDEX_BYTES: usize = 4;

/// The number of vertices of the first `i` primitives
pub open spec fn vertices_before(c: Seq<PrimitiveCounts>, i: int) -> nat
    decreases i,
{
    if i <= 0 {
        0
    } else {
        (vertices_before(c, i - 1) + c[i - 1].vertices) as nat
    }
}

/// The number of indices of the first `i` primitives
pub open spec fn indices_before(c: Seq<PrimitiveCounts>, i: int) -> nat
    decreases i,
{
    if i <= 0 {
        0
    } else {
        (indices_before(c, i - 1) + c[i - 1].indices) as nat
    }
}

/// The counts and byte sizes of all primitives fit in `usize`
pub open spec fn layout_fits(c: Seq<PrimitiveCounts>, s: VertexStrides) -> bool {
    &&& vertices_before(c, c.len() as int) <= usize::MAX
    &&& indices_before(c, c.len() as int) <= usize::MAX
    &&& vertices_before(c, c.len() as int) * s.position <= usize::MAX
    &&& vertices_before(c, c.len() as int) * s.color <= usize::MAX
    &&& vertices_before(c, c.len() as int) * s.uv <= usize::MAX
    &&& indices_before(c, c.len() as int) * UI_INDEX_BYTES <= usize::MAX
}

proof fn lemma_before_monotone(c: Seq<PrimitiveCounts>, i: int, j: int)
    requires
        0 <= i <= j,
    ensures
        vertices_before(c, i) <= vertices_before(c, j),
        indices_before(c, i) <= indices_before(c, j),
    decreases j - i,
{
    if i < j {
        lemma_before_monotone(c, i, j - 1);
    }
}

proof fn lemma_scaled_monotone(a: nat, b: nat, stride: nat)
    requires
        a <= b,
    ensures
        a * stride <= b * stride,
{
    vstd::arithmetic::mul::lemma_mul_inequality(a as int, b as int, stride as int);
}

/// The total numbers of vertices and indices of the primitives
pub fn total_counts(counts: &Vec<PrimitiveCounts>) -> (r: (usize, usize))
    requires
        vertices_before(counts@, counts@.len() as int) <= usize::MAX,
        indices_before(counts@, counts@.len() as int) <= usize::MAX,
    ensures
        r.0 == vertices_before(counts@, counts@.len() as int),
        r.1 == indices_before(counts@, counts@.len() as int),
{
    let mut vertices: usize = 0;
    let mut indices: usize = 0;
    let mut i: usize = 0;
    while i < counts.len()
        invariant
            0 <= i <= counts@.len(),
            vertices == vertices_before(counts@, i as int),
            indices == indices_before(counts@, i as int),
            vertices_before(counts@, counts@.len() as int) <= usize::MAX,
            indices_before(counts@, counts@.len() as int) <= usize::MAX,
        decreases counts.len() - i,
    {
        proof {
            lemma_before_monotone(counts@, i + 1, counts@.len() as int);
        }
        vertices = vertices + counts[i].vertices;
        indices = indices + counts[i].indices;
        i += 1;
    }
    (vertices, indices)
}

/// The byte sizes of the buffers the UI primitives of a frame are written to
#[derive(Debug, Clone, Copy, PartialEq, Eq, Structural)]
pub struct UiBufferSizes {
    /// Position buffer
    pub position: u64,
    /// Color buffer
    pub color: u64,
    /// Texture coordinate buffer
    pub uv: u64,
    /// Index buffer
    pub index: u64,
}

/// The buffer sizes for the totals of a frame: each vertex attribute's stride times the
/// number of vertices, four bytes per index. [None] when there are no vertices or no
/// indices, as nothing is drawn then
pub fn ui_buffer_sizes(total_vertices: usize, total_indices: usize, strides: VertexStrides) -> (r: Option<UiBufferSizes>)
    requires
        total_vertices * strides.position <= usize::MAX,
        total_vertices * strides.color <= usize::MAX,
        total_vertices * strides.uv <= usize::MAX,
        total_indices * UI_INDEX_BYTES <= usize::MAX,
    ensures
        r == if total_vertices == 0 || total_indices == 0 {
            None
        } else {
            Some(
                UiBufferSizes {
                    position: (total_vertices * strides.position) as u64,
                    color: (total_vertices * strides.color) as u64,
                    uv: (total_vertices * strides.uv) as u64,
                    index: (total_indices * UI_INDEX_BYTES) as u64,
                },
            )
        },
{
    if total_vertices == 0 || total_indices == 0 {
        return None;
    }
    Some(
        UiBufferSizes {
            position: (total_vertices * strides.position) as u64,
            color: (total_vertices * strides.color) as u64,
            uv: (total_vertices * strides.uv) as u64,
            index: (total_indices * UI_INDEX_BYTES) as u64,
        },
    )
}

/// Whether the existing buffers, given by the byte sizes of their position and index
/// buffers, are too small for the totals of a frame and are made anew; with no buffers yet
/// they are always made
pub fn must_recreate_buffers(
    existing: Option<(u64, u64)>,
    position_stride: usize,
    total_vertices: usize,
    total_indices: usize,
) -> (r: bool)
    requires
        position_stride > 0,
        existing matches Some((p, i)) ==> p <= usize::MAX && i <= usize::MAX,
    ensures
        r == match existing {
            Some((position_size, index_size)) => index_size / (UI_INDEX_BYTES as u64) < total_indices
                || position_size / (position_stride as u64) < total_vertices,
            None => true,
        },
{
    match existing {
        Some((position_size, index_size)) => {
            let index_capacity = (index_size as usize) / UI_INDEX_BYTES;
            let vertex_capacity = (position_size as usize) / position_stride;
            index_capacity < total_indices || vertex_capacity < total_vertices
        },
        None => true,
    }
}

/// A range of bytes in a buffer
#[derive(Debug, Clone, Copy, PartialEq, Eq, Structural)]
pub struct ByteRange {
    /// The first byte
    pub start: usize,
    /// One past the last byte
    pub end: usize,
}

/// The byte ranges that one primitive's data is written to in each buffer
#[derive(Debug, Clone, Copy, PartialEq, Eq, Structural)]
pub struct WriteRanges {
    /// In the position buffer
    pub position: ByteRange,
    /// In the color buffer
    pub color: ByteRange,
    /// In the texture coordinate buffer
    pub uv: ByteRange,
    /// In the index buffer
    pub index: ByteRange,
}

/// The write ranges of primitive `i`: its vertices after those of the primitives before it,
/// in each buffer at that buffer's stride, and its indices likewise after theirs
pub open spec fn write_ranges_spec(c: Seq<PrimitiveCounts>, s: VertexStrides, i: int) -> WriteRanges {
    let v0 = vertices_before(c, i);
    let v1 = vertices_before(c, i + 1);
    let i0 = indices_before(c, i);
    let i1 = indices_before(c, i + 1);
    WriteRanges {
        position: ByteRange { start: (v0 * s.position) as usize, end: (v1 * s.position) as usize },
        color: ByteRange { start: (v0 * s.color) as usize, end: (v1 * s.color) as usize },
        uv: ByteRange { start: (v0 * s.uv) as usize, end: (v1 * s.uv) as usize },
        index: ByteRange { start: (i0 * UI_INDEX_BYTES) as usize, end: (i1 * UI_INDEX_BYTES) as usize },
    }
}

/// The byte ranges each primitive's data is written to, in the order of the primitives
pub fn primitive_write_ranges(counts: &Vec<PrimitiveCounts>, strides: VertexStrides) -> (r: Vec<WriteRanges>)
    requires
        layout_fits(counts@, strides),
    ensures
        r@.len() == counts@.len(),
        forall|i: int| 0 <= i < counts@.len() ==> #[trigger] r@[i] == write_ranges_spec(counts@, strides, i),
{
    let mut r: Vec<WriteRanges> = Vec::new();
    let mut vertex_offset: usize = 0;
    let mut index_offset: usize = 0;
    let mut i: usize = 0;
    while i < counts.len()
        invariant
            0 <= i <= counts@.len(),
            layout_fits(counts@, strides),
            vertex_offset == vertices_before(counts@, i as int),
            index_offset == indices_before(counts@, i as int),
            r@.len() == i,
            forall|k: int| 0 <= k < i ==> #[trigger] r@[k] == write_ranges_spec(counts@, strides, k),
        decreases counts.len() - i,
    {
        let n = counts[i].vertices;
        let m = counts[i].indices;
        proof {
            let total_v = vertices_before(counts@, counts@.len() as int);
            let total_i = indices_before(counts@, counts@.len() as int);
            lemma_before_monotone(counts@, i as int, counts@.len() as int);
            lemma_before_monotone(counts@, i + 1, counts@.len() as int);
            lemma_scaled_monotone(vertices_before(counts@, i as int), total_v, strides.position as nat);
            lemma_scaled_monotone(vertices_before(counts@, i + 1), total_v, strides.position as nat);
            lemma_scaled_monotone(vertices_before(counts@, i as int), total_v, strides.color as nat);
            lemma_scaled_monotone(vertices_before(counts@, i + 1), total_v, strides.color as nat);
            lemma_scaled_monotone(vertices_before(counts@, i as int), total_v, strides.uv as nat);
            lemma_scaled_monotone(vertices_before(counts@, i + 1), total_v, strides.uv as nat);
            lemma_scaled_monotone(indices_before(counts@, i as int), total_i, UI_INDEX_BYTES as nat);
            lemma_scaled_monotone(indices_before(counts@, i + 1), total_i, UI_INDEX_BYTES as nat);
        }
        let next_vertex = vertex_offset + n;
        let next_index = index_offset + m;
        let ranges = WriteRanges {
            position: ByteRange { start: vertex_offset * strides.position, end: next_vertex * strides.position },
            color: ByteRange { start: vertex_offset * strides.color, end: next_vertex * strides.color },
            uv: ByteRange { start: vertex_offset * strides.uv, end: next_vertex * strides.uv },
            index: ByteRange { start: index_offset * UI_INDEX_BYTES, end: next_index * UI_INDEX_BYTES },
        };
        r.push(ranges);
        vertex_offset = next_vertex;
        index_offset = next_index;
        i += 1;
    }
    r
}

/// The vertex and index ranges one primitive is drawn with
#[derive(Debug, Clone, Copy, PartialEq, Eq, Structural)]
pub struct DrawRange {
    /// The first vertex
    pub vertex_start: u64,
    /// One past the last vertex
    pub vertex_end: u64,
    /// The first index
    pub index_start: u32,
    /// One past the last index
    pub index_end: u32,
}

/// The draw range of primitive `i`: its vertices and indices after those of the primitives
/// before it
pub open spec fn draw_range_spec(c: Seq<PrimitiveCounts>, i: int) -> DrawRange {
    DrawRange {
        vertex_start: vertices_before(c, i) as u64,
        vertex_end: vertices_before(c, i + 1) as u64,
        index_start: indices_before(c, i) as u32,
        index_end: indices_before(c, i + 1) as u32,
    }
}

/// The ranges each primitive is drawn with, in the order of the primitives. The index
/// range is narrowed to 32 bits, as the draw call takes it
pub fn primitive_draw_ranges(counts: &Vec<PrimitiveCounts>) -> (r: Vec<DrawRange>)
    requires
        vertices_before(counts@, counts@.len() as int) <= usize::MAX,
        indices_before(counts@, counts@.len() as int) <= usize::MAX,
    ensures
        r@.len() == counts@.len(),
        forall|i: int| 0 <= i < counts@.len() ==> #[trigger] r@[i] == draw_range_spec(counts@, i),
{
    let mut r: Vec<DrawRange> = Vec::new();
    let mut base_vertex: u64 = 0;
    let mut base_index: u64 = 0;
    let mut i: usize = 0;
    while i < counts.len()
        invariant
            0 <= i <= counts@.len(),
            vertices_before(counts@, counts@.len() as int) <= usize::MAX,
            indices_before(counts@, counts@.len() as int) <= usize::MAX,
            base_vertex == vertices_before(counts@, i as int),
            base_index == indices_before(counts@, i as int),
            r@.len() == i,
            forall|k: int| 0 <= k < i ==> #[trigger] r@[k] == draw_range_spec(counts@, k),
        decreases counts.len() - i,
    {
        proof {
            lemma_before_monotone(counts@, i + 1, counts@.len() as int);
        }
        let num_vertices = counts[i].vertices as u64;
        let num_indices = counts[i].indices as u64;
        let range = DrawRange {
            vertex_start: base_vertex,
            vertex_end: base_vertex + num_vertices,
            index_start: base_index as u32,
            index_end: (base_index + num_indices) as u32,
        };
        r.push(range);
        base_vertex = base_vertex + num_vertices;
        base_index = base_index + num_indices;
        i += 1;
    }
    r
}

/// Each primitive is drawn from exactly the bytes its data was written to: in every vertex
/// buffer the written range is the drawn vertex range times that buffer's stride, in the index
/// buffer it is the drawn index range times four, and every range ends inside the buffer sizes
/// gathered for the frame. Holds while the index count fits the 32 bits of the draw call
pub proof fn lemma_draws_read_written_ranges(c: Seq<PrimitiveCounts>, s: VertexStrides, i: int)
    requires
        layout_fits(c, s),
        indices_before(c, c.len() as int) <= u32::MAX,
        0 <= i < c.len(),
    ensures
        write_ranges_spec(c, s, i).position.start == draw_range_spec(c, i).vertex_start * s.position,
        write_ranges_spec(c, s, i).position.end == draw_range_spec(c, i).vertex_end * s.position,
        write_ranges_spec(c, s, i).color.start == draw_range_spec(c, i).vertex_start * s.color,
        write_ranges_spec(c, s, i).color.end == draw_range_spec(c, i).vertex_end * s.color,
        write_ranges_spec(c, s, i).uv.start == draw_range_spec(c, i).vertex_start * s.uv,
        write_ranges_spec(c, s, i).uv.end == draw_range_spec(c, i).vertex_end * s.uv,
        write_ranges_spec(c, s, i).index.start == draw_range_spec(c, i).index_start * UI_INDEX_BYTES,
        write_ranges_spec(c, s, i).index.end == draw_range_spec(c, i).index_end * UI_INDEX_BYTES,
        write_ranges_spec(c, s, i).position.end <= vertices_before(c, c.len() as int) * s.position,
        write_ranges_spec(c, s, i).color.end <= vertices_before(c, c.len() as int) * s.color,
        write_ranges_spec(c, s, i).uv.end <= vertices_before(c, c.len() as int) * s.uv,
        write_ranges_spec(c, s, i).index.end <= indices_before(c, c.len() as int) * UI_INDEX_BYTES,
{
    let total_v = vertices_before(c, c.len() as int);
    let total_i = indices_before(c, c.len() as int);
    lemma_before_monotone(c, i, c.len() as int);
    lemma_before_monotone(c, i + 1, c.len() as int);
    lemma_scaled_monotone(vertices_before(c, i), total_v, s.position as nat);
    lemma_scaled_monotone(vertices_before(c, i + 1), total_v, s.position as nat);
    lemma_scaled_monotone(vertices_before(c, i), total_v, s.color as nat);
    lemma_scaled_monotone(vertices_before(c, i + 1), total_v, s.color as nat);
    lemma_scaled_monotone(vertices_before(c, i), total_v, s.uv as nat);
    lemma_scaled_monotone(vertices_before(c, i + 1), total_v, s.uv as nat);
    lemma_scaled_monotone(indices_before(c, i), total_i, UI_INDEX_BYTES as nat);
    lemma_scaled_monotone(indices_before(c, i + 1), total_i, UI_INDEX_BYTES as nat);
}

/// The data of the primitives lies in the buffers in their order, without overlap: in every
/// buffer the range of a primitive ends no later than that of any later primitive starts
pub proof fn lemma_write_ranges_ordered(c: Seq<PrimitiveCounts>, s: VertexStrides, i: int, j: int)
    requires
        layout_fits(c, s),
        0 <= i < j < c.len(),
    ensures
        write_ranges_spec(c, s, i).position.end <= write_ranges_spec(c, s, j).position.start,
        write_ranges_spec(c, s, i).color.end <= write_ranges_spec(c, s, j).color.start,
        write_ranges_spec(c, s, i).uv.end <= write_ranges_spec(c, s, j).uv.start,
        write_ranges_spec(c, s, i).index.end <= write_ranges_spec(c, s, j).index.start,
{
    let total_v = vertices_before(c, c.len() as int);
    let total_i = indices_before(c, c.len() as int);
    lemma_before_monotone(c, i + 1, j);
    lemma_before_monotone(c, j, c.len() as int);
    lemma_before_monotone(c, i + 1, c.len() as int);
    let a = vertices_before(c, i + 1);
    let b = vertices_before(c, j);
    lemma_scaled_monotone(a, b, s.position as nat);
    lemma_scaled_monotone(a, b, s.color as nat);
    lemma_scaled_monotone(a, b, s.uv as nat);
    lemma_scaled_monotone(b, total_v, s.position as nat);
    lemma_scaled_monotone(b, total_v, s.color as nat);
    lemma_scaled_monotone(b, total_v, s.uv as nat);
    lemma_scaled_monotone(indices_before(c, i + 1), indices_before(c, j), UI_INDEX_BYTES as nat);
    lemma_scaled_monotone(indices_before(c, j), total_i, UI_INDEX_BYTES as nat);
    lemma_scaled_monotone(a, total_v, s.position as nat);
    lemma_scaled_monotone(a, total_v, s.color as nat);
    lemma_scaled_monotone(a, total_v, s.uv as nat);
    lemma_scaled_monotone(indices_before(c, i + 1), total_i, UI_INDEX_BYTES as nat);
}

} // verus!
