use snake::event::{CursorPosition, ElementState, KeyCode, MouseButton, WindowEvent, NAMED_BUTTONS};
use snake::input_manager::{InputManager, WheelReset};

fn key(code: u32, state: ElementState) -> WindowEvent {
    WindowEvent::KeyboardInput { key: KeyCode(code), state }
}

fn button(button: MouseButton, state: ElementState) -> WindowEvent {
    WindowEvent::MouseInput { button, state }
}

#[test]
fn fresh_tracker_reports_rest() {
    let mut input = InputManager::new();
    assert_eq!(input.key_state(&KeyCode(0)), ElementState::Released);
    assert_eq!(input.key_state(&KeyCode(u32::MAX)), ElementState::Released);
    assert_eq!(input.mouse_button_state(&MouseButton::Left), ElementState::Released);
    assert_eq!(input.mouse_button_state(&MouseButton::Other(9)), ElementState::Released);
    assert_eq!(input.cursor_position(), CursorPosition { x_bits: 0, y_bits: 0 });
    assert_eq!(input.mouse_wheel_delta(), 0);
    assert_eq!(f64::from_bits(input.cursor_position().x_bits), 0.0);
    assert_eq!(f32::from_bits(input.mouse_wheel_delta()), 0.0);
}

#[test]
fn unseen_key_stays_released_however_often_it_is_asked() {
    let mut input = InputManager::new();
    input.receive_input(key(1, ElementState::Pressed));
    input.receive_input(button(MouseButton::Left, ElementState::Pressed));
    input.receive_input(WindowEvent::MouseWheel { delta_bits: 1.5f32.to_bits() });
    for _ in 0..5 {
        assert_eq!(input.key_state(&KeyCode(2)), ElementState::Released);
        assert_eq!(input.mouse_button_state(&MouseButton::Right), ElementState::Released);
    }
    assert_eq!(input.key_state(&KeyCode(1)), ElementState::Pressed);
    assert_eq!(input.mouse_button_state(&MouseButton::Left), ElementState::Pressed);
}

#[test]
fn press_then_release_reads_released() {
    let mut input = InputManager::new();
    input.receive_input(key(44, ElementState::Pressed));
    assert_eq!(input.key_state(&KeyCode(44)), ElementState::Pressed);
    input.receive_input(key(44, ElementState::Released));
    assert_eq!(input.key_state(&KeyCode(44)), ElementState::Released);
}

#[test]
fn release_then_press_reads_pressed() {
    let mut input = InputManager::new();
    input.receive_input(key(44, ElementState::Released));
    assert_eq!(input.key_state(&KeyCode(44)), ElementState::Released);
    input.receive_input(key(44, ElementState::Pressed));
    assert_eq!(input.key_state(&KeyCode(44)), ElementState::Pressed);
    assert_eq!(input.key_state(&KeyCode(44)), ElementState::Pressed);
}

#[test]
fn last_button_event_wins() {
    let mut input = InputManager::new();
    input.receive_input(button(MouseButton::Middle, ElementState::Pressed));
    input.receive_input(button(MouseButton::Middle, ElementState::Released));
    assert_eq!(input.mouse_button_state(&MouseButton::Middle), ElementState::Released);
    input.receive_input(button(MouseButton::Middle, ElementState::Released));
    input.receive_input(button(MouseButton::Middle, ElementState::Pressed));
    assert_eq!(input.mouse_button_state(&MouseButton::Middle), ElementState::Pressed);
}

#[test]
fn keys_do_not_disturb_each_other() {
    let mut input = InputManager::new();
    input.receive_input(key(10, ElementState::Pressed));
    input.receive_input(key(11, ElementState::Pressed));
    input.receive_input(key(10, ElementState::Released));
    assert_eq!(input.key_state(&KeyCode(10)), ElementState::Released);
    assert_eq!(input.key_state(&KeyCode(11)), ElementState::Pressed);
    assert_eq!(input.key_state(&KeyCode(12)), ElementState::Released);
}

#[test]
fn keys_and_buttons_are_filed_apart() {
    let mut input = InputManager::new();
    input.receive_input(key(0, ElementState::Pressed));
    assert_eq!(input.mouse_button_state(&MouseButton::Left), ElementState::Released);
    input.receive_input(button(MouseButton::Right, ElementState::Pressed));
    assert_eq!(input.key_state(&KeyCode(1)), ElementState::Released);
}

#[test]
fn every_button_has_its_own_state() {
    let all = [
        MouseButton::Left,
        MouseButton::Right,
        MouseButton::Middle,
        MouseButton::Back,
        MouseButton::Forward,
        MouseButton::Other(0),
        MouseButton::Other(1),
        MouseButton::Other(u16::MAX),
    ];
    for pressed in all {
        let mut input = InputManager::new();
        input.receive_input(button(pressed, ElementState::Pressed));
        for asked in all {
            let expected =
                if asked == pressed { ElementState::Pressed } else { ElementState::Released };
            assert_eq!(input.mouse_button_state(&asked), expected);
        }
    }
}

#[test]
fn button_codes_are_exact() {
    assert_eq!(NAMED_BUTTONS, 5);
    assert_eq!(MouseButton::Left.code(), 0);
    assert_eq!(MouseButton::Right.code(), 1);
    assert_eq!(MouseButton::Middle.code(), 2);
    assert_eq!(MouseButton::Back.code(), 3);
    assert_eq!(MouseButton::Forward.code(), 4);
    assert_eq!(MouseButton::Other(0).code(), 5);
    assert_eq!(MouseButton::Other(7).code(), 12);
    assert_eq!(MouseButton::Other(u16::MAX).code(), 65_540);
}

#[test]
fn cursor_holds_the_last_position() {
    let mut input = InputManager::new();
    let first = CursorPosition { x_bits: 12.5f64.to_bits(), y_bits: 300.0f64.to_bits() };
    let second = CursorPosition { x_bits: (-1.0f64).to_bits(), y_bits: 0.25f64.to_bits() };
    input.receive_input(WindowEvent::CursorMoved { position: first });
    assert_eq!(input.cursor_position(), first);
    input.receive_input(WindowEvent::CursorMoved { position: second });
    assert_eq!(input.cursor_position(), second);
    assert_eq!(f64::from_bits(input.cursor_position().x_bits), -1.0);
    assert_eq!(f64::from_bits(input.cursor_position().y_bits), 0.25);
    input.receive_input(key(3, ElementState::Pressed));
    assert_eq!(input.cursor_position(), second);
}

#[test]
fn wheel_holds_the_last_movement_not_the_sum() {
    let mut input = InputManager::new();
    input.receive_input(WindowEvent::MouseWheel { delta_bits: 1.0f32.to_bits() });
    input.receive_input(WindowEvent::MouseWheel { delta_bits: 2.0f32.to_bits() });
    assert_eq!(f32::from_bits(input.mouse_wheel_delta()), 2.0);
    input.receive_input(WindowEvent::MouseWheel { delta_bits: (-0.5f32).to_bits() });
    assert_eq!(f32::from_bits(input.mouse_wheel_delta()), -0.5);
    assert_eq!(input.mouse_wheel_delta(), 0xbf00_0000);
}

#[test]
fn persistent_wheel_outlives_the_tick() {
    let mut input = InputManager::new();
    input.receive_input(WindowEvent::MouseWheel { delta_bits: 3.0f32.to_bits() });
    input.end_tick();
    input.end_tick();
    assert_eq!(f32::from_bits(input.mouse_wheel_delta()), 3.0);
    let mut same = InputManager::with_wheel_reset(WheelReset::Persist);
    same.receive_input(WindowEvent::MouseWheel { delta_bits: 3.0f32.to_bits() });
    same.end_tick();
    assert_eq!(f32::from_bits(same.mouse_wheel_delta()), 3.0);
}

#[test]
fn one_tick_wheel_goes_back_to_rest() {
    let mut input = InputManager::with_wheel_reset(WheelReset::EachTick);
    assert_eq!(input.mouse_wheel_delta(), 0);
    input.receive_input(WindowEvent::MouseWheel { delta_bits: 3.0f32.to_bits() });
    assert_eq!(f32::from_bits(input.mouse_wheel_delta()), 3.0);
    input.end_tick();
    assert_eq!(input.mouse_wheel_delta(), 0);
    input.receive_input(WindowEvent::MouseWheel { delta_bits: 4.0f32.to_bits() });
    assert_eq!(f32::from_bits(input.mouse_wheel_delta()), 4.0);
}

#[test]
fn end_of_tick_keeps_keys_buttons_and_cursor() {
    let mut input = InputManager::with_wheel_reset(WheelReset::EachTick);
    let position = CursorPosition { x_bits: 5.0f64.to_bits(), y_bits: 6.0f64.to_bits() };
    input.receive_input(key(8, ElementState::Pressed));
    input.receive_input(button(MouseButton::Back, ElementState::Pressed));
    input.receive_input(WindowEvent::CursorMoved { position });
    input.end_tick();
    assert_eq!(input.key_state(&KeyCode(8)), ElementState::Pressed);
    assert_eq!(input.mouse_button_state(&MouseButton::Back), ElementState::Pressed);
    assert_eq!(input.cursor_position(), position);
}

#[test]
fn events_without_a_source_are_ignored() {
    let mut input = InputManager::new();
    let position = CursorPosition { x_bits: 1, y_bits: 2 };
    input.receive_input(key(8, ElementState::Pressed));
    input.receive_input(button(MouseButton::Forward, ElementState::Pressed));
    input.receive_input(WindowEvent::CursorMoved { position });
    input.receive_input(WindowEvent::MouseWheel { delta_bits: 77 });
    input.receive_input(WindowEvent::CloseRequested);
    input.receive_input(WindowEvent::RedrawRequested);
    input.receive_input(WindowEvent::Other);
    assert_eq!(input.key_state(&KeyCode(8)), ElementState::Pressed);
    assert_eq!(input.mouse_button_state(&MouseButton::Forward), ElementState::Pressed);
    assert_eq!(input.cursor_position(), position);
    assert_eq!(input.mouse_wheel_delta(), 77);
}
