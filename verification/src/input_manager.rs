//! The input state tracker: a flat cache of the last value seen for every
//! input source.

use crate::event::{CursorPosition, ElementState, KeyCode, MouseButton, WindowEvent};
use std::collections::HashMap;
use vstd::prelude::*;

verus! {

broadcast use vstd::std_specs::hash::group_hash_axioms;

/// What becomes of the wheel movement once an update tick has read it.
#[derive(Clone, Copy, Debug, PartialEq, Eq, Structural)]
pub enum WheelReset {
    /// It stays until the next wheel event replaces it.
    Persist,
    /// It goes back to zero at the end of every tick.
    EachTick,
}

/// What an [`InputManager`] knows: the last state seen for each key and each
/// mouse button, the last cursor position and the last wheel movement.
///
/// A key or button is in its map from the first event that names it, and
/// stays there.
pub struct InputState {
    pub keys: Map<KeyCode, ElementState>,
    pub buttons: Map<MouseButton, ElementState>,
    pub cursor: CursorPosition,
    pub wheel_bits: u32,
    pub wheel_reset: WheelReset,
}

impl InputState {
    /// Nothing has been seen: no key, no button, the cursor at the origin and
    /// the wheel at rest. A wheel movement will stay until the next one.
    pub open spec fn initial() -> InputState {
        InputState::with_wheel_reset(WheelReset::Persist)
    }

    /// Nothing has been seen, and wheel movements are treated as `wheel_reset`
    /// says.
    pub open spec fn with_wheel_reset(wheel_reset: WheelReset) -> InputState {
        InputState {
            keys: Map::empty(),
            buttons: Map::empty(),
            cursor: CursorPosition { x_bits: 0, y_bits: 0 },
            wheel_bits: 0,
            wheel_reset,
        }
    }

    /// The state after an update tick has read it: the wheel is back at rest
    /// if movements last for one tick only, and nothing else has changed.
    pub open spec fn end_tick(self) -> InputState {
        match self.wheel_reset {
            WheelReset::Persist => self,
            WheelReset::EachTick => InputState { wheel_bits: 0, ..self },
        }
    }

    /// The state after one more event. The newest value of a source replaces
    /// the one before it; events that name no source change nothing.
    pub open spec fn ingest(self, input: WindowEvent) -> InputState {
        match input {
            WindowEvent::KeyboardInput { key, state } => InputState {
                keys: self.keys.insert(key, state),
                ..self
            },
            WindowEvent::MouseInput { button, state } => InputState {
                buttons: self.buttons.insert(button, state),
                ..self
            },
            WindowEvent::CursorMoved { position } => InputState { cursor: position, ..self },
            WindowEvent::MouseWheel { delta_bits } => InputState { wheel_bits: delta_bits, ..self },
            _ => self,
        }
    }

    /// The state after a run of events, oldest first.
    pub open spec fn ingest_all(self, inputs: Seq<WindowEvent>) -> InputState
        decreases inputs.len(),
    {
        if inputs.len() == 0 {
            self
        } else {
            self.ingest_all(inputs.drop_last()).ingest(inputs.last())
        }
    }

    /// The last state seen for `key`, or `Released` if it was never seen.
    pub open spec fn key_state(self, key: KeyCode) -> ElementState {
        if self.keys.contains_key(key) {
            self.keys[key]
        } else {
            ElementState::Released
        }
    }

    /// The last state seen for `button`, or `Released` if it was never seen.
    pub open spec fn mouse_button_state(self, button: MouseButton) -> ElementState {
        if self.buttons.contains_key(button) {
            self.buttons[button]
        } else {
            ElementState::Released
        }
    }
}

/// Events that do not name `key` leave what is known of it as it was.
pub proof fn lemma_other_events_keep_key(before: InputState, inputs: Seq<WindowEvent>, key: KeyCode)
    requires
        forall|i: int| 0 <= i < inputs.len() ==> !inputs[i].names_key(key),
    ensures
        before.ingest_all(inputs).keys.contains_key(key) == before.keys.contains_key(key),
        before.ingest_all(inputs).key_state(key) == before.key_state(key),
    decreases inputs.len(),
{
    if inputs.len() > 0 {
        lemma_other_events_keep_key(before, inputs.drop_last(), key);
    }
}

/// Events that do not name `button` leave what is known of it as it was.
pub proof fn lemma_other_events_keep_button(
    before: InputState,
    inputs: Seq<WindowEvent>,
    button: MouseButton,
)
    requires
        forall|i: int| 0 <= i < inputs.len() ==> !inputs[i].names_button(button),
    ensures
        before.ingest_all(inputs).buttons.contains_key(button) == before.buttons.contains_key(
            button,
        ),
        before.ingest_all(inputs).mouse_button_state(button) == before.mouse_button_state(button),
    decreases inputs.len(),
{
    if inputs.len() > 0 {
        lemma_other_events_keep_button(before, inputs.drop_last(), button);
    }
}

/// A key reads as released for as long as no event has named it, whatever
/// else has come in since the tracker was made.
pub proof fn lemma_unseen_key_is_released(inputs: Seq<WindowEvent>, key: KeyCode)
    requires
        forall|i: int| 0 <= i < inputs.len() ==> !inputs[i].names_key(key),
    ensures
        InputState::initial().ingest_all(inputs).key_state(key) == ElementState::Released,
{
    lemma_other_events_keep_key(InputState::initial(), inputs, key);
}

/// A mouse button reads as released for as long as no event has named it,
/// whatever else has come in since the tracker was made.
pub proof fn lemma_unseen_button_is_released(inputs: Seq<WindowEvent>, button: MouseButton)
    requires
        forall|i: int| 0 <= i < inputs.len() ==> !inputs[i].names_button(button),
    ensures
        InputState::initial().ingest_all(inputs).mouse_button_state(button)
            == ElementState::Released,
{
    lemma_other_events_keep_button(InputState::initial(), inputs, button);
}

/// The last write wins: of two events for one key, the later one decides
/// what the key reads as, whatever was known before.
pub proof fn lemma_last_key_event_wins(
    before: InputState,
    key: KeyCode,
    earlier: ElementState,
    later: ElementState,
)
    ensures
        before.ingest(WindowEvent::KeyboardInput { key, state: later }).key_state(key) == later,
        before.ingest(WindowEvent::KeyboardInput { key, state: earlier }).ingest(
            WindowEvent::KeyboardInput { key, state: later },
        ).key_state(key) == later,
{
}

/// The last write wins: of two events for one mouse button, the later one
/// decides what the button reads as, whatever was known before.
pub proof fn lemma_last_button_event_wins(
    before: InputState,
    button: MouseButton,
    earlier: ElementState,
    later: ElementState,
)
    ensures
        before.ingest(WindowEvent::MouseInput { button, state: later }).mouse_button_state(button)
            == later,
        before.ingest(WindowEvent::MouseInput { button, state: earlier }).ingest(
            WindowEvent::MouseInput { button, state: later },
        ).mouse_button_state(button) == later,
{
}

/// Nothing makes the tracker forget a key or a button it has seen: not an
/// event, and not the end of a tick.
pub proof fn lemma_sources_are_kept(before: InputState, input: WindowEvent)
    ensures
        before.keys.dom().subset_of(before.ingest(input).keys.dom()),
        before.buttons.dom().subset_of(before.ingest(input).buttons.dom()),
        before.end_tick().keys == before.keys,
        before.end_tick().buttons == before.buttons,
{
}

/// The wheel holds the last movement, not a sum: a second movement replaces
/// the first. Where movements persist, the end of a tick leaves the last one
/// in place; where they last one tick, it puts the wheel back at rest.
pub proof fn lemma_wheel_holds_last_movement(before: InputState, first_bits: u32, second_bits: u32)
    ensures
        ({
            let moved = before.ingest(WindowEvent::MouseWheel { delta_bits: first_bits }).ingest(
                WindowEvent::MouseWheel { delta_bits: second_bits },
            );
            &&& moved.wheel_bits == second_bits
            &&& before.wheel_reset == WheelReset::Persist ==> moved.end_tick().wheel_bits
                == second_bits
            &&& before.wheel_reset == WheelReset::EachTick ==> moved.end_tick().wheel_bits == 0
        }),
{
}

/// Tracks the current state of every input source from the stream of events.
pub struct InputManager {
    keyboard_state: HashMap<u32, ElementState>,
    mouse_buttons_state: HashMap<u32, ElementState>,
    cursor_position: CursorPosition,
    mouse_wheel_delta: u32,
    wheel_reset: WheelReset,
}

impl View for InputManager {
    type V = InputState;

    closed spec fn view(&self) -> InputState {
        InputState {
            keys: Map::new(
                |k: KeyCode| self.keyboard_state@.contains_key(k.0),
                |k: KeyCode| self.keyboard_state@[k.0],
            ),
            buttons: Map::new(
                |b: MouseButton| self.mouse_buttons_state@.contains_key(b.spec_code()),
                |b: MouseButton| self.mouse_buttons_state@[b.spec_code()],
            ),
            cursor: self.cursor_position,
            wheel_bits: self.mouse_wheel_delta,
            wheel_reset: self.wheel_reset,
        }
    }
}

impl InputManager {
    /// A tracker that has seen nothing yet. A wheel movement stays until the
    /// next one replaces it.
    pub fn new() -> (manager: Self)
        ensures
            manager@ == InputState::initial(),
    {
        Self::with_wheel_reset(WheelReset::Persist)
    }

    /// A tracker that has seen nothing yet and treats wheel movements as
    /// `wheel_reset` says.
    pub fn with_wheel_reset(wheel_reset: WheelReset) -> (manager: Self)
        ensures
            manager@ == InputState::with_wheel_reset(wheel_reset),
    {
        let manager = Self {
            keyboard_state: HashMap::new(),
            mouse_buttons_state: HashMap::new(),
            cursor_position: CursorPosition { x_bits: 0, y_bits: 0 },
            mouse_wheel_delta: 0,
            wheel_reset,
        };
        assert(manager@.keys =~= Map::empty());
        assert(manager@.buttons =~= Map::empty());
        manager
    }

    /// Tells the tracker that an update tick has read the input. The wheel
    /// goes back to rest if movements last for one tick only; nothing else
    /// changes.
    pub fn end_tick(&mut self)
        ensures
            final(self)@ == old(self)@.end_tick(),
    {
        match self.wheel_reset {
            WheelReset::Persist => {},
            WheelReset::EachTick => {
                self.mouse_wheel_delta = 0;
            },
        }
    }

    /// Takes one event in. The value it carries replaces the one stored for
    /// its source; an event that names no source is ignored.
    pub fn receive_input(&mut self, input: WindowEvent)
        ensures
            final(self)@ == old(self)@.ingest(input),
    {
        match input {
            WindowEvent::KeyboardInput { key, state } => {
                self.keyboard_state.insert(key.0, state);
                assert(self@.keys =~= old(self)@.keys.insert(key, state));
            },
            WindowEvent::MouseInput { button, state } => {
                self.mouse_buttons_state.insert(button.code(), state);
                assert(self@.buttons =~= old(self)@.buttons.insert(button, state));
            },
            WindowEvent::CursorMoved { position } => {
                self.cursor_position = position;
            },
            WindowEvent::MouseWheel { delta_bits } => {
                self.mouse_wheel_delta = delta_bits;
            },
            _ => {},
        }
    }

    /// The last state seen for `key`; `Released` if no event named it yet.
    /// Asking changes nothing.
    pub fn key_state(&mut self, key: &KeyCode) -> (state: ElementState)
        ensures
            state == old(self)@.key_state(*key),
            *final(self) == *old(self),
    {
        match self.keyboard_state.get(&key.0) {
            Some(state) => *state,
            None => ElementState::Released,
        }
    }

    /// The last state seen for `mouse`; `Released` if no event named it yet.
    /// Asking changes nothing.
    pub fn mouse_button_state(&mut self, mouse: &MouseButton) -> (state: ElementState)
        ensures
            state == old(self)@.mouse_button_state(*mouse),
            *final(self) == *old(self),
    {
        let code: u32 = mouse.code();
        match self.mouse_buttons_state.get(&code) {
            Some(state) => *state,
            None => ElementState::Released,
        }
    }

    /// The last cursor position seen; the origin before the first move.
    pub fn cursor_position(&mut self) -> (position: CursorPosition)
        ensures
            position == old(self)@.cursor,
            *final(self) == *old(self),
    {
        self.cursor_position
    }

    /// The last wheel movement seen; zero before the first one.
    pub fn mouse_wheel_delta(&mut self) -> (delta_bits: u32)
        ensures
            delta_bits == old(self)@.wheel_bits,
            *final(self) == *old(self),
    {
        self.mouse_wheel_delta
    }
}

} // verus!
