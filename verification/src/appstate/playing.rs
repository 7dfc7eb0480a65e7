//! The screen of a round in play.
use std::time::Instant;

use vstd::prelude::*;

use crate::appstate::app::AppState;
use crate::appstate::clock::{now, seconds_since};
use crate::appstate::key::Key;
use crate::appstate::lost::LostState;
use crate::appstate::screen::Screen;
use crate::appstate::won::WonState;
use crate::components::count::in_shape;
use crate::components::grid::{lemma_flag_flips_only_cursor, next_index, prev_index, Grid, GridError, GridState};
use crate::components::play::{
    lemma_finished_iff_cleared, lemma_flag_keeps_play, lemma_fresh_board_in_play, lemma_reveal_safe_square,
};

verus! {

/// A round in play: its board and when it began.
#[derive(Debug)]
pub struct PlayingState {
    pub grid: Grid,
    pub start_time: Instant,
}

/// What starting a round on a new `h` by `w` board with `m` mines gives: no
/// mines is refused, more mines than squares is refused, and otherwise a round
/// in play on a fresh board.
pub open spec fn fresh_round(h: usize, w: usize, m: usize, result: Result<AppState, GridError>) -> bool {
    if m == 0 {
        result == Err::<AppState, GridError>(GridError::NoMines)
    } else if m > h * w {
        result == Err::<AppState, GridError>(
            GridError::TooManyMines {
                total_cells: (h * w) as usize,
                number_of_rows: h,
                number_of_columns: w,
                number_of_mines: m,
            },
        )
    } else {
        result matches Ok(AppState::Playing(p)) && p.grid@.is_fresh(h as nat, w as nat, m as nat)
    }
}

/// Starts a round on a new `h` by `w` board with `m` mines drawn at random.
pub fn start_round(h: usize, w: usize, m: usize) -> (result: Result<AppState, GridError>)
    requires
        m > 0 ==> h * w <= usize::MAX,
    ensures
        fresh_round(h, w, m, result),
{
    match Grid::new(h, w, m) {
        Ok(grid) => Ok(AppState::Playing(PlayingState { grid, start_time: now() })),
        Err(e) => Err(e),
    }
}

impl PlayingState {
    /// The round goes on with the board `g`, from the same start time.
    pub open spec fn continues_with(self, result: Result<AppState, GridError>, g: GridState) -> bool {
        result matches Ok(AppState::Playing(p)) && p.grid@ == g && p.start_time == self.start_time
    }
}

impl Screen for PlayingState {
    /// Revealing needs a well-formed board and room in the count of hidden
    /// safe squares; flagging needs the cursor on the board; moving needs a row
    /// or a column to move along, and a cursor that can count one further.
    open spec fn handles(&self, key_event: Key) -> bool {
        let g = self.grid@;
        if key_event.is_quit() {
            true
        } else if key_event.is_select() {
            self.grid.wf() && g.reveal_fits()
        } else if key_event == Key::Char('f') {
            g.cursor_on_board()
        } else if key_event == Key::Down {
            g.height > 0 && g.cursor_row < usize::MAX
        } else if key_event == Key::Up {
            g.height > 0
        } else if key_event == Key::Right {
            g.width > 0 && g.cursor_column < usize::MAX
        } else if key_event == Key::Left {
            g.width > 0
        } else {
            true
        }
    }

    /// `q` quits. Enter or space reveals the square under the cursor: the round
    /// is lost if it holds a mine, won if no safe square is left hidden, and
    /// goes on otherwise. `f` flips the flag under the cursor, the arrows move
    /// the cursor round the board, and other keys change nothing.
    open spec fn transition(&self, key_event: Key, result: Result<AppState, GridError>) -> bool {
        let g = self.grid@;
        if key_event.is_quit() {
            result == Ok::<AppState, GridError>(AppState::Quit)
        } else if key_event.is_select() {
            let after = g.after_reveal();
            if after.current().is_mine {
                result matches Ok(AppState::Lost(l)) && l.grid@ == after
            } else if after.remaining_empty_cells == 0 {
                result matches Ok(AppState::Won(w)) && w.grid@ == after
            } else {
                self.continues_with(result, after)
            }
        } else if key_event == Key::Char('f') {
            self.continues_with(result, g.after_flag())
        } else if key_event == Key::Down {
            self.continues_with(result, GridState { cursor_row: next_index(g.cursor_row, g.height), ..g })
        } else if key_event == Key::Up {
            self.continues_with(result, GridState { cursor_row: prev_index(g.cursor_row, g.height), ..g })
        } else if key_event == Key::Right {
            self.continues_with(result, GridState { cursor_column: next_index(g.cursor_column, g.width), ..g })
        } else if key_event == Key::Left {
            self.continues_with(result, GridState { cursor_column: prev_index(g.cursor_column, g.width), ..g })
        } else {
            self.continues_with(result, g)
        }
    }

    fn handle_key_event(self, key_event: Key) -> (result: Result<AppState, GridError>) {
        let mut state = self;
        match key_event {
            Key::Char('q') => Ok(AppState::Quit),
            Key::Enter | Key::Char(' ') => {
                state.grid.reveal_cell();
                if state.grid.current_cell().is_mine {
                    let time_taken_s = seconds_since(&state.start_time);
                    Ok(AppState::Lost(LostState { grid: state.grid, time_taken_s }))
                } else if state.grid.finished() {
                    let time_taken_s = seconds_since(&state.start_time);
                    Ok(AppState::Won(WonState { grid: state.grid, time_taken_s }))
                } else {
                    Ok(AppState::Playing(state))
                }
            },
            Key::Char('f') => {
                state.grid.flag_cell();
                Ok(AppState::Playing(state))
            },
            Key::Down => {
                state.grid.move_cursor_down();
                Ok(AppState::Playing(state))
            },
            Key::Up => {
                state.grid.move_cursor_up();
                Ok(AppState::Playing(state))
            },
            Key::Right => {
                state.grid.move_cursor_right();
                Ok(AppState::Playing(state))
            },
            Key::Left => {
                state.grid.move_cursor_left();
                Ok(AppState::Playing(state))
            },
            _ => Ok(AppState::Playing(state)),
        }
    }
}

/// In a round, each arrow moves the cursor one square that way round the board
/// (Down to the next row, from the last row to the first; Up to the row above,
/// from the first row to the last; Right and Left likewise along the row), and
/// nothing else changes: the round goes on with the same squares, the same
/// count and the same start time.
pub proof fn lemma_arrows_move_cursor(p: PlayingState, key_event: Key, result: Result<AppState, GridError>)
    requires
        p.grid.wf(),
        key_event == Key::Down || key_event == Key::Up || key_event == Key::Right || key_event == Key::Left,
        p.transition(key_event, result),
    ensures
        result matches Ok(AppState::Playing(q)) && {
            let g = p.grid@;
            let h = q.grid@;
            &&& q.start_time == p.start_time
            &&& h.cells == g.cells
            &&& h.height == g.height
            &&& h.width == g.width
            &&& h.remaining_empty_cells == g.remaining_empty_cells
            &&& key_event == Key::Down ==> h.cursor_row == (g.cursor_row + 1) % g.height
                && h.cursor_column == g.cursor_column
            &&& key_event == Key::Up ==> h.cursor_row == (if g.cursor_row == 0 {
                g.height - 1
            } else {
                g.cursor_row - 1
            }) && h.cursor_column == g.cursor_column
            &&& key_event == Key::Right ==> h.cursor_column == (g.cursor_column + 1) % g.width
                && h.cursor_row == g.cursor_row
            &&& key_event == Key::Left ==> h.cursor_column == (if g.cursor_column == 0 {
                g.width - 1
            } else {
                g.cursor_column - 1
            }) && h.cursor_row == g.cursor_row
            &&& h.wf()
        },
{
    let g = p.grid@;
    vstd::arithmetic::div_mod::lemma_small_mod(g.cursor_row, g.height);
    vstd::arithmetic::div_mod::lemma_small_mod(g.cursor_column, g.width);
    vstd::arithmetic::div_mod::lemma_mod_bound((g.cursor_row as int) + 1, g.height as int);
    vstd::arithmetic::div_mod::lemma_mod_bound((g.cursor_column as int) + 1, g.width as int);
    if g.cursor_row > 0 {
        vstd::arithmetic::div_mod::lemma_small_mod((g.cursor_row - 1) as nat, g.height);
    }
    if g.cursor_column > 0 {
        vstd::arithmetic::div_mod::lemma_small_mod((g.cursor_column - 1) as nat, g.width);
    }
}

/// In a round, Down then Up, Up then Down, Right then Left and Left then Right
/// each bring the round back to the board it had.
pub proof fn lemma_arrows_undo(
    p: PlayingState,
    first: Key,
    second: Key,
    middle: PlayingState,
    result: Result<AppState, GridError>,
)
    requires
        p.grid.wf(),
        (first == Key::Down && second == Key::Up) || (first == Key::Up && second == Key::Down) || (first
            == Key::Right && second == Key::Left) || (first == Key::Left && second == Key::Right),
        p.transition(first, Ok(AppState::Playing(middle))),
        middle.transition(second, result),
    ensures
        result matches Ok(AppState::Playing(q)) && q.grid@ == p.grid@ && q.start_time == p.start_time,
{
    let g = p.grid@;
    lemma_arrows_move_cursor(p, first, Ok(AppState::Playing(middle)));
    assert(middle.grid.wf());
    lemma_arrows_move_cursor(middle, second, result);
    let (c, n) = if first == Key::Down || first == Key::Up {
        (g.cursor_row, g.height)
    } else {
        (g.cursor_column, g.width)
    };
    if first == Key::Down || first == Key::Right {
        if c + 1 < n {
            vstd::arithmetic::div_mod::lemma_small_mod((c + 1) as nat, n);
        } else {
            vstd::arithmetic::div_mod::lemma_mod_self_0(n as int);
        }
    } else {
        if c == 0 {
            vstd::arithmetic::div_mod::lemma_mod_self_0(n as int);
        } else {
            vstd::arithmetic::div_mod::lemma_small_mod(c, n);
        }
    }
    if let Ok(AppState::Playing(q)) = result {
        assert(q.grid@ =~= g);
    }
}

/// In a round, `f` flips the flag of the square under the cursor and changes
/// nothing else: every other square, the cursor, the count and the start time
/// stay as they were.
pub proof fn lemma_f_flips_flag_under_cursor(p: PlayingState, result: Result<AppState, GridError>)
    requires
        p.grid@.cursor_on_board(),
        p.transition(Key::Char('f'), result),
    ensures
        result matches Ok(AppState::Playing(q)) && {
            let g = p.grid@;
            let h = q.grid@;
            &&& q.start_time == p.start_time
            &&& h.cursor_row == g.cursor_row
            &&& h.cursor_column == g.cursor_column
            &&& h.remaining_empty_cells == g.remaining_empty_cells
            &&& h.cells.len() == g.cells.len()
            &&& forall|i: int| 0 <= i < g.cells.len() ==> #[trigger] h.cells[i].len() == g.cells[i].len()
            &&& h.current().flagged == !g.current().flagged
            &&& h.current().revealed == g.current().revealed
            &&& h.current().is_mine == g.current().is_mine
            &&& h.current().neighbouring_mines == g.current().neighbouring_mines
            &&& forall|i: int, j: int|
                in_shape(g.cells, i, j) && !(i == g.cursor_row && j == g.cursor_column) ==> #[trigger] h.cells[i][j]
                    == g.cells[i][j]
        },
{
    lemma_flag_flips_only_cursor(p.grid@);
    let g = p.grid@;
    assert(in_shape(g.cells, g.cursor_row as int, g.cursor_column as int));
}

/// A round started on a new board begins in play.
pub proof fn lemma_fresh_round_in_play(h: usize, w: usize, m: usize, result: Result<AppState, GridError>)
    requires
        fresh_round(h, w, m, result),
        result is Ok,
    ensures
        result matches Ok(AppState::Playing(p)) && p.grid@.in_play(),
{
    if let Ok(AppState::Playing(p)) = result {
        lemma_fresh_board_in_play(p.grid@, h as nat, w as nat, m as nat);
    }
}

/// Whatever key a round in play takes, if the round goes on its board is still
/// in play.
pub proof fn lemma_round_stays_in_play(p: PlayingState, key_event: Key, result: Result<AppState, GridError>)
    requires
        p.grid@.in_play(),
        p.transition(key_event, result),
    ensures
        result matches Ok(AppState::Playing(q)) ==> q.grid@.in_play(),
{
    let g = p.grid@;
    if key_event.is_quit() {
    } else if key_event.is_select() {
        if !g.current().is_mine {
            lemma_reveal_safe_square(g);
        } else {
            assert(g.cells[g.cursor_row as int].len() == g.width);
            assert(g.after_reveal().current() == crate::components::flood::flooded_cell(
                g.cells,
                g.cursor_row as int,
                g.cursor_column as int,
                g.cursor_row as int,
                g.cursor_column as int,
            ));
        }
    } else if key_event == Key::Char('f') {
        lemma_flag_keeps_play(g);
    } else if key_event == Key::Down || key_event == Key::Up || key_event == Key::Right || key_event
        == Key::Left {
        vstd::arithmetic::div_mod::lemma_mod_bound((g.cursor_row as int) + 1, g.height as int);
        vstd::arithmetic::div_mod::lemma_mod_bound((g.cursor_column as int) + 1, g.width as int);
    }
}

/// In a round in play, revealing fits unless the square under the cursor is a
/// hidden mine and no safe square is left hidden; the round is lost exactly when
/// the square revealed holds a mine, and won exactly when it is safe and every
/// safe square is then revealed.
pub proof fn lemma_round_outcome(p: PlayingState, key_event: Key, result: Result<AppState, GridError>)
    requires
        p.grid@.in_play(),
        key_event.is_select(),
        p.transition(key_event, result),
    ensures
        !p.grid@.current().is_mine ==> p.grid@.reveal_fits(),
        (result matches Ok(AppState::Lost(_))) == p.grid@.current().is_mine,
        (result matches Ok(AppState::Won(_))) == (!p.grid@.current().is_mine && p.grid@.after_reveal().cleared()),
{
    let g = p.grid@;
    assert(g.cells[g.cursor_row as int].len() == g.width);
    assert(g.after_reveal().current() == crate::components::flood::flooded_cell(
        g.cells,
        g.cursor_row as int,
        g.cursor_column as int,
        g.cursor_row as int,
        g.cursor_column as int,
    ));
    if !g.current().is_mine {
        lemma_reveal_safe_square(g);
        lemma_finished_iff_cleared(g.after_reveal());
    }
}

} // verus!
