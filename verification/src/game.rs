//! The game's own bookkeeping: what it counts from second to second, whether
//! it has been asked to close, and the input it has seen.
//!
//! Drawing is left to the caller. The game says when a frame is wanted and is
//! told when one was drawn.

use crate::event::{CursorPosition, WindowEvent};
use crate::input_manager::{InputManager, InputState};
use vstd::prelude::*;

verus! {

/// What the game has to tell once a second.
#[derive(Clone, Copy, Debug, PartialEq, Eq, Structural)]
pub struct SecondReport {
    /// The update ticks since the last report.
    pub updates: u32,
    /// The frames drawn since the last report.
    pub renders: u32,
    /// Where the cursor was last seen.
    pub cursor: CursorPosition,
}

/// The game as the contracts see it.
pub struct GameState {
    /// The update ticks since the last report.
    pub update_count: u32,
    /// The frames drawn since the last report.
    pub render_count: u32,
    /// Whether the window was asked to close.
    pub should_close: bool,
    /// The input seen so far.
    pub input: InputState,
}

impl GameState {
    /// A game that has counted nothing and seen nothing.
    pub open spec fn initial() -> GameState {
        GameState {
            update_count: 0,
            render_count: 0,
            should_close: false,
            input: InputState::initial(),
        }
    }

    /// The game after one event: a request to close is remembered for good,
    /// and the input tracker takes the event in.
    pub open spec fn process_input(self, input: WindowEvent) -> GameState {
        GameState {
            should_close: self.should_close || input == WindowEvent::CloseRequested,
            input: self.input.ingest(input),
            ..self
        }
    }

    /// What the game reports now.
    pub open spec fn report(self) -> SecondReport {
        SecondReport {
            updates: self.update_count,
            renders: self.render_count,
            cursor: self.input.cursor,
        }
    }

    /// The game after a report: both counts start again at zero.
    pub open spec fn reported(self) -> GameState {
        GameState { update_count: 0, render_count: 0, ..self }
    }
}

/// The game's bookkeeping.
pub struct Game {
    update_count: u32,
    render_count: u32,
    should_close: bool,
    input_manager: InputManager,
}

impl View for Game {
    type V = GameState;

    closed spec fn view(&self) -> GameState {
        GameState {
            update_count: self.update_count,
            render_count: self.render_count,
            should_close: self.should_close,
            input: self.input_manager@,
        }
    }
}

impl Game {
    /// A game that has counted nothing and seen nothing.
    pub fn new() -> (game: Self)
        ensures
            game@ == GameState::initial(),
    {
        Self {
            update_count: 0,
            render_count: 0,
            should_close: false,
            input_manager: InputManager::new(),
        }
    }

    /// Takes one event in and says whether a frame must be drawn at once,
    /// which is so exactly when the platform asked for a redraw.
    pub fn process_input(&mut self, input: WindowEvent) -> (redraw: bool)
        ensures
            redraw == (input == WindowEvent::RedrawRequested),
            final(self)@ == old(self)@.process_input(input),
    {
        let redraw = match input {
            WindowEvent::RedrawRequested => true,
            _ => false,
        };
        match input {
            WindowEvent::CloseRequested => {
                self.should_close = true;
            },
            _ => {},
        }
        self.input_manager.receive_input(input);
        redraw
    }

    /// Counts one update tick.
    pub fn update(&mut self)
        requires
            old(self)@.update_count < u32::MAX,
        ensures
            final(self)@ == (GameState {
                update_count: (old(self)@.update_count + 1) as u32,
                ..old(self)@
            }),
    {
        self.update_count = self.update_count + 1;
    }

    /// Counts one frame that the caller has drawn.
    pub fn frame_drawn(&mut self)
        requires
            old(self)@.render_count < u32::MAX,
        ensures
            final(self)@ == (GameState {
                render_count: (old(self)@.render_count + 1) as u32,
                ..old(self)@
            }),
    {
        self.render_count = self.render_count + 1;
    }

    /// Hands out the counts of the second that has passed, with the cursor
    /// position, and starts both counts again at zero.
    pub fn one_sec_update(&mut self) -> (report: SecondReport)
        ensures
            report == old(self)@.report(),
            final(self)@ == old(self)@.reported(),
    {
        let report = SecondReport {
            updates: self.update_count,
            renders: self.render_count,
            cursor: self.input_manager.cursor_position(),
        };
        self.update_count = 0;
        self.render_count = 0;
        report
    }

    /// Whether the window was asked to close.
    pub fn should_close(&self) -> (closing: bool)
        ensures
            closing == self@.should_close,
    {
        self.should_close
    }

    /// The update ticks since the last report.
    pub fn update_count(&self) -> (count: u32)
        ensures
            count == self@.update_count,
    {
        self.update_count
    }

    /// The frames drawn since the last report.
    pub fn render_count(&self) -> (count: u32)
        ensures
            count == self@.render_count,
    {
        self.render_count
    }

    /// The tracker of the input that the game has seen.
    pub fn input_manager(&mut self) -> (manager: &mut InputManager)
        ensures
            *manager == old(self).tracker(),
            final(self)@ == (GameState { input: (*final(manager))@, ..old(self)@ }),
    {
        &mut self.input_manager
    }

    /// The input tracker that the game owns.
    pub closed spec fn tracker(&self) -> InputManager {
        self.input_manager
    }
}

/// A request to close is never taken back: once the game wants to close, it
/// wants to close after any further event.
pub proof fn lemma_close_request_sticks(before: GameState, input: WindowEvent)
    ensures
        before.should_close ==> before.process_input(input).should_close,
        before.process_input(WindowEvent::CloseRequested).should_close,
{
}

} // verus!
