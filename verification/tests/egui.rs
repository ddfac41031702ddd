use wutengine::egui::{
    must_recreate_buffers, primitive_draw_ranges, primitive_write_ranges, total_counts, ui_buffer_sizes, ByteRange,
    DrawRange, PrimitiveCounts, UiBufferSizes, VertexStrides, WriteRanges,
    accepts_text, gather_modifiers, is_printable_char, pointer_button_events, ui_logical_inputs, EguiWindowInfo,
    ModifierKeys, Modifiers, PointerButtonEvent, ScissorRect,
};
use wutengine::input::keyboard::logical_key::{LogicalKey, LogicalNamed};
use wutengine::input::keyboard::LogicalInput;
use wutengine::input::mouse::{BUTTON_BACK, BUTTON_LEFT, BUTTON_RIGHT};
use wutengine::input::{end_frame, InputManager, WindowIdentifier};

#[test]
fn scissor_rect_is_clamped_to_target() {
    let r = ScissorRect::from_physical((10, 20), (110, 70), (800, 600));
    assert_eq!(ScissorRect { x: 10, y: 20, width: 100, height: 50 }, r);
    let r = ScissorRect::from_physical((700, 500), (900, 700), (800, 600));
    assert_eq!(ScissorRect { x: 700, y: 500, width: 100, height: 100 }, r);
    let r = ScissorRect::from_physical((900, 10), (100, 5), (800, 600));
    assert_eq!(ScissorRect { x: 800, y: 10, width: 0, height: 0 }, r);
}

#[test]
fn printable_characters() {
    assert!(is_printable_char('a'));
    assert!(is_printable_char('é'));
    assert!(!is_printable_char('\n'));
    assert!(!is_printable_char('\u{7f}'));
    assert!(!is_printable_char('\u{e000}'));
    assert!(!is_printable_char('\u{10fffd}'));
    assert!(is_printable_char('\u{fffe}'));
}

#[test]
fn typed_text_filter() {
    assert!(accepts_text("hello", false, false, false));
    assert!(!accepts_text("hello", true, false, false));
    assert!(!accepts_text("hello", false, false, true));
    assert!(!accepts_text("a\tb", false, false, false));
    assert!(accepts_text("", false, false, false));
}

#[test]
fn default_window_info() {
    let info = EguiWindowInfo::default();
    assert!(info.focused && !info.occluded && !info.minimized && !info.maximized);
}

#[test]
fn pointer_buttons_only_on_the_cursor_window() {
    let mut m = InputManager::new();
    m.mouse_button(None, BUTTON_LEFT, true);
    assert!(pointer_button_events(&m, WindowIdentifier::new(1)).is_empty());

    m.mouse_window_position(None, Some(WindowIdentifier::new(1)));
    assert_eq!(
        vec![PointerButtonEvent { button: BUTTON_LEFT, pressed: true }],
        pointer_button_events(&m, WindowIdentifier::new(1))
    );
    assert!(pointer_button_events(&m, WindowIdentifier::new(2)).is_empty());
}

#[test]
fn pointer_buttons_in_fixed_order() {
    let mut m = InputManager::new();
    m.mouse_window_position(None, Some(WindowIdentifier::new(7)));
    m.mouse_button(None, BUTTON_LEFT, true);
    end_frame(&mut m);
    m.mouse_button(None, BUTTON_BACK, true);
    m.mouse_button(None, BUTTON_RIGHT, true);
    m.mouse_button(None, BUTTON_LEFT, false);
    assert_eq!(
        vec![
            PointerButtonEvent { button: BUTTON_LEFT, pressed: false },
            PointerButtonEvent { button: BUTTON_RIGHT, pressed: true },
            PointerButtonEvent { button: BUTTON_BACK, pressed: true },
        ],
        pointer_button_events(&m, WindowIdentifier::new(7))
    );
    end_frame(&mut m);
    assert!(pointer_button_events(&m, WindowIdentifier::new(7)).is_empty());
}

fn modifier_keys() -> ModifierKeys {
    ModifierKeys {
        alt_left: 1,
        alt_right: 2,
        control_left: 3,
        control_right: 4,
        shift_left: 5,
        shift_right: 6,
        super_left: 7,
        super_right: 8,
    }
}

#[test]
fn modifiers_from_held_keys() {
    let mut m = InputManager::new();
    m.keyboard_key(None, 4, true);
    m.keyboard_key(None, 8, true);
    assert_eq!(
        Modifiers { alt: false, ctrl: true, shift: false, mac_cmd: false, command: true },
        gather_modifiers(&m, &modifier_keys(), false)
    );
    assert_eq!(
        Modifiers { alt: false, ctrl: true, shift: false, mac_cmd: true, command: true },
        gather_modifiers(&m, &modifier_keys(), true)
    );
    m.keyboard_key(None, 8, false);
    m.keyboard_key(None, 5, true);
    m.keyboard_key(None, 1, true);
    assert_eq!(
        Modifiers { alt: true, ctrl: true, shift: true, mac_cmd: false, command: false },
        gather_modifiers(&m, &modifier_keys(), true)
    );
}

#[test]
fn ui_receives_keys_and_printable_text() {
    let mut m = InputManager::new();
    m.keyboard_logical_key(None, LogicalKey::Named(LogicalNamed::Enter), true);
    m.keyboard_text(None, "\r");
    m.keyboard_text(None, "hi");
    m.keyboard_logical_key(None, LogicalKey::Named(LogicalNamed::Enter), false);
    let plain = Modifiers { alt: false, ctrl: false, shift: false, mac_cmd: false, command: false };
    assert_eq!(
        vec![
            LogicalInput::Pressed(LogicalKey::Named(LogicalNamed::Enter)),
            LogicalInput::Text("hi".to_string()),
            LogicalInput::Released(LogicalKey::Named(LogicalNamed::Enter)),
        ],
        ui_logical_inputs(&m, &plain)
    );
    let ctrl = Modifiers { alt: false, ctrl: true, shift: false, mac_cmd: false, command: true };
    assert_eq!(
        vec![
            LogicalInput::Pressed(LogicalKey::Named(LogicalNamed::Enter)),
            LogicalInput::Released(LogicalKey::Named(LogicalNamed::Enter)),
        ],
        ui_logical_inputs(&m, &ctrl)
    );
}

fn ui_strides() -> VertexStrides {
    VertexStrides { position: 12, color: 16, uv: 8 }
}

fn ui_counts() -> Vec<PrimitiveCounts> {
    vec![PrimitiveCounts { vertices: 4, indices: 6 }, PrimitiveCounts { vertices: 3, indices: 3 }]
}

#[test]
fn ui_totals_and_buffer_sizes() {
    assert_eq!((7, 9), total_counts(&ui_counts()));
    assert_eq!((0, 0), total_counts(&Vec::new()));
    assert_eq!(
        Some(UiBufferSizes { position: 84, color: 112, uv: 56, index: 36 }),
        ui_buffer_sizes(7, 9, ui_strides())
    );
    assert_eq!(None, ui_buffer_sizes(0, 9, ui_strides()));
    assert_eq!(None, ui_buffer_sizes(7, 0, ui_strides()));
}

#[test]
fn ui_buffers_recreated_when_too_small() {
    assert!(must_recreate_buffers(None, 12, 1, 1));
    assert!(!must_recreate_buffers(Some((84, 36)), 12, 7, 9));
    assert!(must_recreate_buffers(Some((84, 36)), 12, 8, 9));
    assert!(must_recreate_buffers(Some((84, 35)), 12, 7, 9));
    assert!(!must_recreate_buffers(Some((95, 39)), 12, 7, 9));
}

#[test]
fn ui_primitives_written_and_drawn_in_order() {
    let writes = primitive_write_ranges(&ui_counts(), ui_strides());
    assert_eq!(
        vec![
            WriteRanges {
                position: ByteRange { start: 0, end: 48 },
                color: ByteRange { start: 0, end: 64 },
                uv: ByteRange { start: 0, end: 32 },
                index: ByteRange { start: 0, end: 24 },
            },
            WriteRanges {
                position: ByteRange { start: 48, end: 84 },
                color: ByteRange { start: 64, end: 112 },
                uv: ByteRange { start: 32, end: 56 },
                index: ByteRange { start: 24, end: 36 },
            },
        ],
        writes
    );
    let draws = primitive_draw_ranges(&ui_counts());
    assert_eq!(
        vec![
            DrawRange { vertex_start: 0, vertex_end: 4, index_start: 0, index_end: 6 },
            DrawRange { vertex_start: 4, vertex_end: 7, index_start: 6, index_end: 9 },
        ],
        draws
    );
    for (w, d) in writes.iter().zip(draws.iter()) {
        assert_eq!(w.position.start as u64, d.vertex_start * 12);
        assert_eq!(w.position.end as u64, d.vertex_end * 12);
        assert_eq!(w.index.start as u32, d.index_start * 4);
        assert_eq!(w.index.end as u32, d.index_end * 4);
    }
}
