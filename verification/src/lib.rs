//! A fixed-timestep application driver, the input state tracker that goes
//! with it, and the bookkeeping of the game that it drives.
//!
//! [`entry_point::EntryPoint`] turns irregular wake-ups into a fixed-rate
//! sequence of update ticks, one render pass per wake-up and a one-second
//! maintenance cadence. [`input_manager::InputManager`] keeps the last known
//! state of every key, mouse button, the cursor and the wheel.
//! [`game::Game`] counts ticks and frames from second to second and
//! remembers a request to close.
//!
//! Time is counted in whole nanoseconds from an origin that the caller picks.
//! Window, drawing surface and clock belong to the caller: the library is
//! handed events, times and answers, and hands back what to do next.

pub mod cadence;
pub mod call_log;
pub mod entry_point;
pub mod event;
pub mod game;
pub mod input_manager;
