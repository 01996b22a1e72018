//! The events that the driver and the input tracker understand.
//!
//! A platform adapter turns whatever its windowing system delivers into
//! these values; everything the library decides is decided on them.

use vstd::prelude::*;

verus! {

/// Whether a key or a mouse button is held down.
#[derive(Clone, Copy, Debug, PartialEq, Eq, Structural)]
pub enum ElementState {
    Pressed,
    Released,
}

/// A physical key, identified by the number the platform adapter assigns to it.
///
/// The library only ever compares key codes; two codes name the same key
/// exactly when their numbers are equal.
#[derive(Clone, Copy, Debug, PartialEq, Eq, Structural)]
pub struct KeyCode(pub u32);

/// A mouse button.
#[derive(Clone, Copy, Debug, PartialEq, Eq, Structural)]
pub enum MouseButton {
    Left,
    Right,
    Middle,
    Back,
    Forward,
    Other(u16),
}

/// The number of named mouse buttons; the codes of `Other` buttons start here.
pub const NAMED_BUTTONS: u32 = 5;

impl MouseButton {
    /// The number under which a button is filed. Different buttons have
    /// different numbers (see [`lemma_button_code_injective`]).
    pub open spec fn spec_code(self) -> u32 {
        match self {
            MouseButton::Left => 0,
            MouseButton::Right => 1,
            MouseButton::Middle => 2,
            MouseButton::Back => 3,
            MouseButton::Forward => 4,
            MouseButton::Other(n) => (NAMED_BUTTONS + n) as u32,
        }
    }

    #[verifier::when_used_as_spec(spec_code)]
    pub fn code(self) -> (c: u32)
        ensures
            c == self.spec_code(),
    {
        match self {
            MouseButton::Left => 0,
            MouseButton::Right => 1,
            MouseButton::Middle => 2,
            MouseButton::Back => 3,
            MouseButton::Forward => 4,
            MouseButton::Other(n) => NAMED_BUTTONS + n as u32,
        }
    }
}

/// No two mouse buttons share a code.
pub proof fn lemma_button_code_injective(a: MouseButton, b: MouseButton)
    ensures
        a.spec_code() == b.spec_code() <==> a == b,
{
}

/// Where the cursor is, in window coordinates.
///
/// Each coordinate is carried as the 64-bit pattern of an IEEE 754
/// double-precision number. The library stores and returns the patterns
/// untouched and never does arithmetic on them. The all-zero pattern is the
/// coordinate zero.
#[derive(Clone, Copy, Debug, PartialEq, Eq, Structural)]
pub struct CursorPosition {
    pub x_bits: u64,
    pub y_bits: u64,
}

/// One event delivered by the platform.
#[derive(Clone, Copy, Debug, PartialEq, Eq, Structural)]
pub enum WindowEvent {
    /// The user asked for the window to be closed.
    CloseRequested,
    /// The platform asked for the window to be drawn again.
    RedrawRequested,
    /// A key went down or up.
    KeyboardInput { key: KeyCode, state: ElementState },
    /// A mouse button went down or up.
    MouseInput { button: MouseButton, state: ElementState },
    /// The cursor moved to `position`.
    CursorMoved { position: CursorPosition },
    /// The wheel turned by a number of lines. `delta_bits` is the 32-bit
    /// pattern of an IEEE 754 single-precision number, carried untouched.
    MouseWheel { delta_bits: u32 },
    /// Any other event. It is passed on but never interpreted.
    Other,
}

impl WindowEvent {
    /// Whether this event reports a new state of `key`.
    pub open spec fn names_key(self, key: KeyCode) -> bool {
        match self {
            WindowEvent::KeyboardInput { key: k, .. } => k == key,
            _ => false,
        }
    }

    /// Whether this event reports a new state of `button`.
    pub open spec fn names_button(self, button: MouseButton) -> bool {
        match self {
            WindowEvent::MouseInput { button: b, .. } => b == button,
            _ => false,
        }
    }
}

} // verus!
