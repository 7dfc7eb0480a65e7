//! The screen of a won round.
use vstd::prelude::*;

use crate::appstate::app::AppState;
use crate::appstate::key::Key;
use crate::appstate::playing::{fresh_round, start_round};
use crate::appstate::screen::Screen;
use crate::components::grid::{Grid, GridError};

verus! {

/// A won round: its board and the time it took in seconds.
#[derive(Debug)]
pub struct WonState {
    pub grid: Grid,
    pub time_taken_s: u64,
}

impl Screen for WonState {
    /// Restarting needs a count of mines that fits, and a board whose size fits
    /// when there are mines.
    open spec fn handles(&self, key_event: Key) -> bool {
        let g = self.grid@;
        key_event == Key::Char('r') ==> {
            &&& g.mine_count() <= usize::MAX
            &&& g.height <= usize::MAX
            &&& g.width <= usize::MAX
            &&& g.mine_count() > 0 ==> g.height * g.width <= usize::MAX
        }
    }

    /// `q` quits; `r` starts a new round on a board of the same size with as
    /// many mines; every other key leaves the screen as it is.
    open spec fn transition(&self, key_event: Key, result: Result<AppState, GridError>) -> bool {
        if key_event.is_quit() {
            result == Ok::<AppState, GridError>(AppState::Quit)
        } else if key_event == Key::Char('r') {
            fresh_round(
                self.grid@.height as usize,
                self.grid@.width as usize,
                self.grid@.mine_count() as usize,
                result,
            )
        } else {
            result == Ok::<AppState, GridError>(AppState::Won(*self))
        }
    }

    fn handle_key_event(self, key_event: Key) -> (result: Result<AppState, GridError>) {
        match key_event {
            Key::Char('q') => Ok(AppState::Quit),
            Key::Char('r') => start_round(self.grid.rows(), self.grid.columns(), self.grid.mines()),
            _ => Ok(AppState::Won(self)),
        }
    }
}

/// After a win, `r` starts a new round on a board with as many rows, columns
/// and mines as the won one, every square hidden and the cursor at the top left.
pub proof fn lemma_restart_keeps_size(w: WonState, next: AppState)
    requires
        w.grid@.height <= usize::MAX,
        w.grid@.width <= usize::MAX,
        w.grid@.mine_count() <= usize::MAX,
        w.transition(Key::Char('r'), Ok(next)),
    ensures
        next matches AppState::Playing(p) && {
            let old = w.grid@;
            let g = p.grid@;
            &&& g.height == old.height
            &&& g.width == old.width
            &&& g.mine_count() == old.mine_count()
            &&& g.cursor_row == 0
            &&& g.cursor_column == 0
            &&& g.remaining_empty_cells == old.height * old.width - old.mine_count()
            &&& forall|i: int, j: int|
                0 <= i < g.height && 0 <= j < g.width ==> !(#[trigger] g.cells[i][j]).revealed && !g.cells[i][j].flagged
        },
{
    if let AppState::Playing(p) = next {
        let g = p.grid@;
        assert forall|i: int, j: int| 0 <= i < g.height && 0 <= j < g.width implies !(
        #[trigger] g.cells[i][j]).revealed && !g.cells[i][j].flagged by {
            assert(g.cells[i].len() == g.width);
            assert(crate::components::count::in_shape(g.cells, i, j));
        }
    }
}

} // verus!
