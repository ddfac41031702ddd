use wutengine::input::keyboard::logical_key::{LogicalKey, LogicalNamed};
use wutengine::input::keyboard::{
    held_keys, key_held, key_pressed, key_released, logical_inputs, pressed_keys, released_keys,
    KeyboardId, LogicalInput,
};
use wutengine::input::mouse::{
    button_held, button_pressed, button_released, cursor_window, logical_mouse_to_button_id, LogicalMouseButton, MouseId,
    BUTTON_FORWARD, BUTTON_LEFT, BUTTON_MIDDLE, BUTTON_RIGHT,
};
use wutengine::input::{end_frame, InputManager, KeyboardInput, WindowIdentifier};

#[test]
fn key_press_hold_release_cycle() {
    let mut m = InputManager::new();
    m.keyboard_key(None, 30, true);
    assert!(key_pressed(&m, None, 30));
    assert!(key_held(&m, None, 30));
    assert!(!key_released(&m, None, 30));

    end_frame(&mut m);
    assert!(!key_pressed(&m, None, 30));
    assert!(key_held(&m, None, 30));

    m.keyboard_key(None, 30, false);
    assert!(key_released(&m, None, 30));
    assert!(!key_held(&m, None, 30));

    end_frame(&mut m);
    assert!(!key_released(&m, None, 30));
}

#[test]
fn key_lists() {
    let mut m = InputManager::new();
    m.keyboard_key(None, 1, true);
    m.keyboard_key(None, 2, true);
    end_frame(&mut m);
    m.keyboard_key(None, 3, true);
    m.keyboard_key(None, 1, false);
    assert_eq!(vec![3], pressed_keys(&m, None));
    let mut held = held_keys(&m, None);
    held.sort();
    assert_eq!(vec![2, 3], held);
    assert_eq!(vec![1], released_keys(&m, None));
}

#[test]
fn identified_keyboards_are_tracked_separately() {
    let mut m = InputManager::new();
    m.keyboard_key(Some(KeyboardId(7)), 5, true);
    m.keyboard_key(Some(KeyboardId(8)), 6, true);
    assert!(key_held(&m, Some(KeyboardId(7)), 5));
    assert!(!key_held(&m, Some(KeyboardId(7)), 6));
    assert!(key_held(&m, Some(KeyboardId(8)), 6));
    // Without a device, the most recently used keyboard answers
    assert!(key_held(&m, None, 6));
    assert!(!key_held(&m, Some(KeyboardId(9)), 5));
    m.remove_device(8);
    assert!(!key_held(&m, Some(KeyboardId(8)), 6));
}

#[test]
fn logical_inputs_are_cleared_each_frame() {
    let mut m = InputManager::new();
    m.keyboard_logical_key(None, LogicalKey::Named(LogicalNamed::Enter), true);
    m.keyboard_text(None, "hi");
    let inputs = logical_inputs(&m, None);
    assert_eq!(2, inputs.len());
    assert_eq!(LogicalInput::Pressed(LogicalKey::Named(LogicalNamed::Enter)), inputs[0]);
    assert_eq!(LogicalInput::Text("hi".to_string()), inputs[1]);
    end_frame(&mut m);
    assert!(logical_inputs(&m, None).is_empty());
}

#[test]
fn mouse_buttons_and_window() {
    let mut m = InputManager::new();
    m.mouse_button(Some(MouseId(3)), BUTTON_LEFT, true);
    assert!(button_pressed(&m, None, BUTTON_LEFT));
    assert!(!button_held(&m, None, BUTTON_RIGHT));
    end_frame(&mut m);
    m.mouse_button(Some(MouseId(3)), BUTTON_LEFT, false);
    assert!(button_released(&m, Some(MouseId(3)), BUTTON_LEFT));
    assert_eq!(None, cursor_window(&m, None));
    m.mouse_window_position(Some(MouseId(3)), Some(WindowIdentifier::new(12)));
    assert_eq!(Some(WindowIdentifier::new(12)), cursor_window(&m, Some(MouseId(3))));
    assert_eq!(12, cursor_window(&m, None).unwrap().raw());
}

#[test]
fn keyboard_input_events() {
    let mut m = InputManager::new();
    m.keyboard_input(
        Some(KeyboardId(2)),
        KeyboardInput {
            key: Some(40),
            logical_key: Some(LogicalKey::from_character("a")),
            pressed: true,
            text: Some("a".to_string()),
            is_synthetic: false,
        },
    );
    assert!(key_pressed(&m, Some(KeyboardId(2)), 40));
    assert_eq!(
        vec![LogicalInput::Pressed(LogicalKey::Character('a')), LogicalInput::Text("a".to_string())],
        logical_inputs(&m, None)
    );

    // Releases produce no text, and synthetic events change nothing
    m.keyboard_input(
        Some(KeyboardId(2)),
        KeyboardInput { key: Some(40), logical_key: None, pressed: false, text: Some("a".to_string()), is_synthetic: false },
    );
    assert!(!key_held(&m, Some(KeyboardId(2)), 40));
    m.keyboard_input(
        Some(KeyboardId(2)),
        KeyboardInput { key: Some(41), logical_key: None, pressed: true, text: None, is_synthetic: true },
    );
    assert!(!key_held(&m, Some(KeyboardId(2)), 41));
    assert_eq!(2, logical_inputs(&m, None).len());
}

#[test]
fn logical_keys_from_characters() {
    assert_eq!(LogicalKey::Character('x'), LogicalKey::from_character("x"));
    assert_eq!(LogicalKey::String("ab".to_string()), LogicalKey::from_character("ab"));
}

#[test]
fn mouse_button_ids() {
    assert_eq!(BUTTON_LEFT, logical_mouse_to_button_id(LogicalMouseButton::Left));
    assert_eq!(BUTTON_MIDDLE, logical_mouse_to_button_id(LogicalMouseButton::Middle));
    assert_eq!(BUTTON_FORWARD, logical_mouse_to_button_id(LogicalMouseButton::Forward));
    assert_eq!(9, logical_mouse_to_button_id(LogicalMouseButton::Other(9)));
}

#[test]
fn end_frame_keeps_held_keys_and_clears_inputs() {
    let mut m = InputManager::new();
    m.keyboard_key(None, 9, true);
    m.keyboard_text(None, "x");
    m.mouse_window_position(None, Some(WindowIdentifier::new(3)));
    end_frame(&mut m);
    assert!(key_held(&m, None, 9));
    assert!(logical_inputs(&m, None).is_empty());
    assert_eq!(Some(WindowIdentifier::new(3)), cursor_window(&m, None));
}
