//! The screen of a lost round.
use vstd::prelude::*;

use crate::appstate::app::AppState;
use crate::appstate::key::Key;
use crate::appstate::screen::Screen;
use crate::components::grid::{Grid, GridError};

verus! {

/// A lost round: its board and the time it took in seconds.
#[derive(Debug)]
pub struct LostState {
    pub grid: Grid,
    pub time_taken_s: u64,
}

impl Screen for LostState {
    open spec fn handles(&self, key_event: Key) -> bool {
        true
    }

    /// `q` quits; every other key leaves the screen as it is.
    open spec fn transition(&self, key_event: Key, result: Result<AppState, GridError>) -> bool {
        if key_event.is_quit() {
            result == Ok::<AppState, GridError>(AppState::Quit)
        } else {
            result == Ok::<AppState, GridError>(AppState::Lost(*self))
        }
    }

    fn handle_key_event(self, key_event: Key) -> (result: Result<AppState, GridError>) {
        match key_event {
            Key::Char('q') => Ok(AppState::Quit),
            _ => Ok(AppState::Lost(self)),
        }
    }
}

} // verus!
