use snake::event::{CursorPosition, ElementState, KeyCode, WindowEvent};
use snake::game::{Game, SecondReport};

const ORIGIN: CursorPosition = CursorPosition { x_bits: 0, y_bits: 0 };

#[test]
fn new_game_has_counted_nothing() {
    let mut game = Game::new();
    assert_eq!(game.update_count(), 0);
    assert_eq!(game.render_count(), 0);
    assert!(!game.should_close());
    assert_eq!(game.input_manager().key_state(&KeyCode(1)), ElementState::Released);
    assert_eq!(game.one_sec_update(), SecondReport { updates: 0, renders: 0, cursor: ORIGIN });
}

#[test]
fn only_a_redraw_request_asks_for_a_frame() {
    let mut game = Game::new();
    assert!(game.process_input(WindowEvent::RedrawRequested));
    assert!(!game.process_input(WindowEvent::CloseRequested));
    assert!(!game.process_input(WindowEvent::Other));
    assert!(!game.process_input(WindowEvent::MouseWheel { delta_bits: 1 }));
    assert!(!game.process_input(WindowEvent::CursorMoved { position: ORIGIN }));
    assert!(!game
        .process_input(WindowEvent::KeyboardInput { key: KeyCode(1), state: ElementState::Pressed }));
    assert_eq!(game.render_count(), 0);
}

#[test]
fn close_request_is_remembered() {
    let mut game = Game::new();
    assert!(!game.should_close());
    game.process_input(WindowEvent::RedrawRequested);
    assert!(!game.should_close());
    game.process_input(WindowEvent::CloseRequested);
    assert!(game.should_close());
    game.process_input(WindowEvent::Other);
    game.update();
    game.one_sec_update();
    assert!(game.should_close());
}

#[test]
fn events_reach_the_input_tracker() {
    let mut game = Game::new();
    game.process_input(WindowEvent::KeyboardInput { key: KeyCode(5), state: ElementState::Pressed });
    assert_eq!(game.input_manager().key_state(&KeyCode(5)), ElementState::Pressed);
    assert_eq!(game.input_manager().key_state(&KeyCode(6)), ElementState::Released);
}

#[test]
fn report_hands_out_the_counts_and_starts_again() {
    let mut game = Game::new();
    let position = CursorPosition { x_bits: 640.0f64.to_bits(), y_bits: 360.0f64.to_bits() };
    for _ in 0..60 {
        game.update();
    }
    for _ in 0..144 {
        game.frame_drawn();
    }
    game.process_input(WindowEvent::CursorMoved { position });
    assert_eq!(game.update_count(), 60);
    assert_eq!(game.render_count(), 144);
    assert_eq!(
        game.one_sec_update(),
        SecondReport { updates: 60, renders: 144, cursor: position }
    );
    assert_eq!(game.update_count(), 0);
    assert_eq!(game.render_count(), 0);
    game.update();
    game.frame_drawn();
    game.frame_drawn();
    assert_eq!(game.one_sec_update(), SecondReport { updates: 1, renders: 2, cursor: position });
}
