//! What every screen of the game does with a key press.
use vstd::prelude::*;

use crate::appstate::app::AppState;
use crate::appstate::key::Key;
use crate::components::grid::GridError;

verus! {

/// A screen of the game: it takes a key press and gives the next screen.
pub trait Screen: Sized {
    /// The keys the screen takes without a counter overflowing.
    spec fn handles(&self, key_event: Key) -> bool;

    /// The screens (or errors) a key press may lead to.
    spec fn transition(&self, key_event: Key, result: Result<AppState, GridError>) -> bool;

    /// Takes a key press and gives the next screen.
    fn handle_key_event(self, key_event: Key) -> (result: Result<AppState, GridError>)
        requires
            self.handles(key_event),
        ensures
            self.transition(key_event, result),
    ;
}

} // verus!
