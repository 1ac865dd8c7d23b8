use my_engine::input::{ElementState, InputManager, Key, MouseButton};

#[test]
fn double_press_stays_just_pressed_until_update() {
    let mut input = InputManager::new();
    input.handle_keyboard_input(Key::Space, ElementState::Pressed);
    input.handle_keyboard_input(Key::Space, ElementState::Pressed);
    assert!(input.key_just_pressed(Key::Space));
    assert!(input.key_pressed(Key::Space));
    input.update();
    assert!(!input.key_just_pressed(Key::Space));
    assert!(input.key_pressed(Key::Space));
}

#[test]
fn held_key_pressed_again_is_not_just_pressed() {
    let mut input = InputManager::new();
    input.handle_keyboard_input(Key::KeyW, ElementState::Pressed);
    input.update();
    input.handle_keyboard_input(Key::KeyW, ElementState::Pressed);
    assert!(!input.key_just_pressed(Key::KeyW));
    assert!(input.key_pressed(Key::KeyW));
}

#[test]
fn release_of_unseen_key_is_just_released() {
    let mut input = InputManager::new();
    input.handle_keyboard_input(Key::KeyQ, ElementState::Released);
    assert!(input.key_just_released(Key::KeyQ));
    assert!(!input.key_pressed(Key::KeyQ));
    input.update();
    assert!(!input.key_just_released(Key::KeyQ));
}

#[test]
fn release_clears_pressed() {
    let mut input = InputManager::new();
    input.handle_keyboard_input(Key::KeyA, ElementState::Pressed);
    input.handle_keyboard_input(Key::KeyA, ElementState::Released);
    assert!(!input.key_pressed(Key::KeyA));
    assert!(input.key_just_pressed(Key::KeyA));
    assert!(input.key_just_released(Key::KeyA));
}

#[test]
fn mouse_buttons_tracked_apart_from_keys() {
    let mut input = InputManager::new();
    input.handle_mouse_button(MouseButton::Left, ElementState::Pressed);
    input.handle_mouse_button(MouseButton::Other(7), ElementState::Released);
    assert!(input.mouse_button_pressed(MouseButton::Left));
    assert!(input.mouse_button_just_pressed(MouseButton::Left));
    assert!(!input.mouse_button_pressed(MouseButton::Right));
    assert!(input.mouse_button_just_released(MouseButton::Other(7)));
    assert!(!input.mouse_button_just_released(MouseButton::Other(8)));
    input.update();
    assert!(input.mouse_button_pressed(MouseButton::Left));
    assert!(!input.mouse_button_just_pressed(MouseButton::Left));
}

#[test]
fn axes_from_held_keys() {
    let mut input = InputManager::new();
    assert_eq!(input.axis_horizontal(), 0);
    input.handle_keyboard_input(Key::KeyA, ElementState::Pressed);
    assert_eq!(input.axis_horizontal(), -1);
    input.handle_keyboard_input(Key::ArrowRight, ElementState::Pressed);
    assert_eq!(input.axis_horizontal(), 0);
    input.handle_keyboard_input(Key::KeyA, ElementState::Released);
    assert_eq!(input.axis_horizontal(), 1);
    input.handle_keyboard_input(Key::KeyW, ElementState::Pressed);
    assert_eq!(input.axis_vertical(), 1);
    input.handle_keyboard_input(Key::ArrowDown, ElementState::Pressed);
    assert_eq!(input.axis_vertical(), 0);
    input.handle_keyboard_input(Key::KeyW, ElementState::Released);
    assert_eq!(input.axis_vertical(), -1);
}

#[test]
fn just_pressed_survives_its_own_release_until_update() {
    let mut input = InputManager::new();
    input.handle_keyboard_input(Key::KeyE, ElementState::Pressed);
    input.handle_keyboard_input(Key::KeyE, ElementState::Released);
    input.handle_mouse_button(MouseButton::Middle, ElementState::Pressed);
    assert!(input.key_just_pressed(Key::KeyE));
    assert!(!input.key_pressed(Key::KeyE));
    input.update();
    assert!(!input.key_just_pressed(Key::KeyE));
}
