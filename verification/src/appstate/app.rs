//! The game as a whole: the screen it is on and how a key press moves it on.
use vstd::prelude::*;

use crate::appstate::key::Key;
use crate::appstate::lost::LostState;
use crate::appstate::menu::MenuState;
use crate::appstate::playing::{lemma_fresh_round_in_play, lemma_round_stays_in_play, PlayingState};
use crate::appstate::screen::Screen;
use crate::appstate::won::WonState;
use crate::components::count::lemma_count_bound;
use crate::components::grid::{GridError, GridState};

verus! {

/// The screen the game is on.
#[derive(Debug)]
pub enum AppState {
    Menu(MenuState),
    Playing(PlayingState),
    Won(WonState),
    Lost(LostState),
    Quit,
}

impl AppState {
    /// Every board the screen holds is well formed.
    pub open spec fn wf(&self) -> bool {
        match self {
            AppState::Menu(m) => m.cursor_height < 4 && m.grid_height >= 1 && m.grid_width >= 1,
            AppState::Playing(s) => s.grid.wf(),
            AppState::Won(s) => s.grid.wf(),
            AppState::Lost(s) => s.grid.wf(),
            AppState::Quit => true,
        }
    }

    /// The screen takes the key (there is no screen after quitting).
    pub open spec fn handles(&self, key_event: Key) -> bool {
        match self {
            AppState::Menu(s) => s.handles(key_event),
            AppState::Playing(s) => s.handles(key_event),
            AppState::Won(s) => s.handles(key_event),
            AppState::Lost(s) => s.handles(key_event),
            AppState::Quit => false,
        }
    }

    /// The board of a round in play keeps its count of hidden safe squares
    /// right and its squares knowing the mines around them.
    pub open spec fn rounds_in_play(&self) -> bool {
        self matches AppState::Playing(p) ==> p.grid@.in_play()
    }

    /// What the screen does with the key.
    pub open spec fn transition(&self, key_event: Key, result: Result<AppState, GridError>) -> bool {
        match self {
            AppState::Menu(s) => s.transition(key_event, result),
            AppState::Playing(s) => s.transition(key_event, result),
            AppState::Won(s) => s.transition(key_event, result),
            AppState::Lost(s) => s.transition(key_event, result),
            AppState::Quit => false,
        }
    }
}

/// On a well-formed board the cursor stands on the board and below the
/// largest `usize`.
proof fn lemma_cursor_below_max(g: GridState)
    requires
        g.wf(),
    ensures
        g.cursor_on_board(),
        g.cursor_row < usize::MAX,
        g.cursor_column < usize::MAX,
        g.height <= usize::MAX,
        g.width <= usize::MAX,
{
    assert(g.cells[g.cursor_row as int].len() == g.width);
    assert(g.height <= g.height * g.width) by (nonlinear_arith)
        requires
            g.width >= 1,
    ;
    assert(g.width <= g.height * g.width) by (nonlinear_arith)
        requires
            g.height >= 1,
    ;
}

/// On every screen of the game, `q` quits: whatever screen the game is on, the
/// screen it moves to is `AppState::Quit`, and no error comes.
pub proof fn lemma_q_quits(state: AppState, result: Result<AppState, GridError>)
    requires
        !(state is Quit),
        state.transition(Key::Char('q'), result),
    ensures
        result == Ok::<AppState, GridError>(AppState::Quit),
{
}

/// Every screen a key press leads to keeps the board of a round in play in
/// play: a round started from the menu or restarted after a win begins in play,
/// and a round that goes on stays in play.
pub proof fn lemma_rounds_stay_in_play(state: AppState, key_event: Key, next: AppState)
    requires
        state.rounds_in_play(),
        state.transition(key_event, Ok(next)),
    ensures
        next.rounds_in_play(),
{
    match state {
        AppState::Menu(m) => {
            if !key_event.is_quit() && key_event.is_select() && m.cursor_height == 3 {
                lemma_fresh_round_in_play(m.grid_height, m.grid_width, m.number_of_mines, Ok(next));
            }
        },
        AppState::Playing(p) => {
            lemma_round_stays_in_play(p, key_event, Ok(next));
        },
        AppState::Won(w) => {
            if !key_event.is_quit() && key_event == Key::Char('r') {
                lemma_fresh_round_in_play(
                    w.grid@.height as usize,
                    w.grid@.width as usize,
                    w.grid@.mine_count() as usize,
                    Ok(next),
                );
            }
        },
        AppState::Lost(_) => {},
        AppState::Quit => {},
    }
}

/// The game: the screen it is on.
#[derive(Debug)]
pub struct App {
    app_state: AppState,
}

impl App {
    /// The screen the game is on.
    pub closed spec fn state(&self) -> AppState {
        self.app_state
    }

    /// The menu of the game at its start.
    pub open spec fn initial_menu() -> MenuState {
        MenuState { cursor_height: 0, grid_height: 10, grid_width: 20, number_of_mines: 10 }
    }

    /// The game at its start: the menu, on a board of ten rows of twenty
    /// squares with ten mines, the cursor on the first line.
    pub fn new() -> (app: App)
        ensures
            app.state() == AppState::Menu(App::initial_menu()),
    {
        App {
            app_state: AppState::Menu(
                MenuState { cursor_height: 0, grid_height: 10, grid_width: 20, number_of_mines: 10 },
            ),
        }
    }

    /// The game on the given screen.
    pub fn with_app_state(app_state: AppState) -> (app: App)
        ensures
            app.state() == app_state,
    {
        App { app_state }
    }

    /// The screen the game is on.
    pub fn app_state(&self) -> (state: &AppState)
        ensures
            *state == self.state(),
    {
        &self.app_state
    }

    /// Whether the game has been quit.
    pub fn exit(&self) -> (quit: bool)
        ensures
            quit == (self.state() is Quit),
    {
        match self.app_state {
            AppState::Quit => true,
            _ => false,
        }
    }

    /// Whether the screen takes the key: the game is not over, and no counter
    /// would overflow.
    pub fn can_handle(&self, key_event: Key) -> (ok: bool)
        requires
            self.state().wf(),
        ensures
            ok == self.state().handles(key_event),
    {
        match &self.app_state {
            AppState::Menu(menu) => {
                if key_event == Key::Char('q') {
                    true
                } else if (key_event == Key::Enter || key_event == Key::Char(' ')) && menu.cursor_height == 3 {
                    menu.number_of_mines == 0 || menu.grid_height.checked_mul(menu.grid_width).is_some()
                } else if key_event == Key::Down {
                    menu.cursor_height < 255
                } else if key_event == Key::Right {
                    match menu.cursor_height {
                        0 => menu.grid_height < usize::MAX,
                        1 => menu.grid_width < usize::MAX,
                        2 => menu.number_of_mines < usize::MAX,
                        _ => true,
                    }
                } else {
                    true
                }
            },
            AppState::Playing(playing) => {
                if key_event == Key::Char('q') {
                    true
                } else if key_event == Key::Enter || key_event == Key::Char(' ') {
                    playing.grid.reveal_fits()
                } else {
                    proof {
                        lemma_cursor_below_max(playing.grid@);
                    }
                    true
                }
            },
            AppState::Won(won) => {
                proof {
                    lemma_cursor_below_max(won.grid@);
                    lemma_count_bound(
                        |i: int, j: int| won.grid@.cells[i][j].is_mine,
                        won.grid@.cells,
                        won.grid@.height as int,
                        won.grid@.width as int,
                    );
                }
                true
            },
            AppState::Lost(_) => true,
            AppState::Quit => false,
        }
    }

    /// Fits the menu's values to a drawing area of `area_height` by
    /// `area_width`, as the menu does each time it is drawn; other screens are
    /// left as they are.
    pub fn fit_menu_to_area(&mut self, area_height: u16, area_width: u16)
        requires
            old(self).state().wf(),
            area_height > 0,
            area_width > 0,
        ensures
            final(self).state().wf(),
            match old(self).state() {
                AppState::Menu(m) => final(self).state() == AppState::Menu(m.bounded_to(area_height, area_width)),
                _ => final(self).state() == old(self).state(),
            },
    {
        match &mut self.app_state {
            AppState::Menu(menu) => menu.bound_to_area(area_height, area_width),
            _ => {},
        }
    }

    /// Hands the key to the screen the game is on and moves on to the screen
    /// it gives.
    pub fn handle_key_event(self, key_event: Key) -> (result: Result<App, GridError>)
        requires
            self.state().wf(),
            self.state().handles(key_event),
        ensures
            match result {
                Ok(app) => self.state().transition(key_event, Ok(app.state())) && app.state().wf(),
                Err(e) => self.state().transition(key_event, Err(e)),
            },
    {
        let next = match self.app_state {
            AppState::Menu(state) => state.handle_key_event(key_event),
            AppState::Playing(state) => state.handle_key_event(key_event),
            AppState::Lost(state) => state.handle_key_event(key_event),
            AppState::Won(state) => state.handle_key_event(key_event),
            AppState::Quit => Ok(AppState::Quit),
        };
        match next {
            Ok(app_state) => Ok(App { app_state }),
            Err(e) => Err(e),
        }
    }
}

} // verus!
