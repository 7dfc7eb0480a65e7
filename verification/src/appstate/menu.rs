//! The menu where the size of the board and the number of mines are chosen.
use vstd::prelude::*;

use crate::appstate::app::AppState;
use crate::appstate::key::Key;
use crate::appstate::playing::{fresh_round, PlayingState};
use crate::appstate::screen::Screen;
use crate::components::grid::{Grid, GridError};
use crate::appstate::clock::now;

verus! {

/// The menu: the line the cursor is on (height, width, mines, start) and the
/// values chosen.
#[derive(Debug, Clone, Copy, PartialEq, Eq, Structural)]
pub struct MenuState {
    pub cursor_height: u8,
    pub grid_height: usize,
    pub grid_width: usize,
    pub number_of_mines: usize,
}

impl MenuState {
    /// The menu with the cursor one line down, from the last line to the first.
    pub open spec fn cursor_moved_down(self) -> MenuState {
        MenuState { cursor_height: ((self.cursor_height + 1) % 4) as u8, ..self }
    }

    /// The menu with the cursor one line up, from the first line to the last.
    pub open spec fn cursor_moved_up(self) -> MenuState {
        MenuState { cursor_height: if self.cursor_height == 0 { 3 } else { (self.cursor_height - 1) as u8 }, ..self }
    }

    /// The value under the cursor can grow by one without overflowing.
    pub open spec fn can_increment(self) -> bool {
        &&& self.cursor_height == 0 ==> self.grid_height < usize::MAX
        &&& self.cursor_height == 1 ==> self.grid_width < usize::MAX
        &&& self.cursor_height == 2 ==> self.number_of_mines < usize::MAX
    }

    /// The menu with the value under the cursor one larger.
    pub open spec fn incremented(self) -> MenuState {
        if self.cursor_height == 0 {
            MenuState { grid_height: (self.grid_height + 1) as usize, ..self }
        } else if self.cursor_height == 1 {
            MenuState { grid_width: (self.grid_width + 1) as usize, ..self }
        } else if self.cursor_height == 2 {
            MenuState { number_of_mines: (self.number_of_mines + 1) as usize, ..self }
        } else {
            self
        }
    }

    /// The menu with the value under the cursor one smaller, unless it is one
    /// already.
    pub open spec fn decremented(self) -> MenuState {
        if self.cursor_height == 0 && self.grid_height > 1 {
            MenuState { grid_height: (self.grid_height - 1) as usize, ..self }
        } else if self.cursor_height == 1 && self.grid_width > 1 {
            MenuState { grid_width: (self.grid_width - 1) as usize, ..self }
        } else if self.cursor_height == 2 && self.number_of_mines > 1 {
            MenuState { number_of_mines: (self.number_of_mines - 1) as usize, ..self }
        } else {
            self
        }
    }

    /// The menu with its values fitted to a drawing area of `area_height` by
    /// `area_width`: the board no larger than the area, and between one mine
    /// and one mine fewer than the board has squares (one on a single square).
    pub open spec fn bounded_to(self, area_height: u16, area_width: u16) -> MenuState {
        let h = if self.grid_height < area_height { self.grid_height } else { area_height as usize };
        let w = if self.grid_width < area_width { self.grid_width } else { area_width as usize };
        let most = h * w - 1;
        let m = if self.number_of_mines < most { self.number_of_mines as int } else { most };
        MenuState {
            grid_height: h,
            grid_width: w,
            number_of_mines: if m < 1 { 1 } else { m as usize },
            ..self
        }
    }

    /// Which arrows the three value lines show, left and right, on a drawing
    /// area of `area_height` by `area_width`: a value of one has no left arrow;
    /// otherwise a value at its largest (the area's size, or one mine fewer than
    /// the squares) has no right arrow.
    pub open spec fn shown_arrows(self, area_height: u16, area_width: u16) -> Seq<(bool, bool)> {
        let h = self.grid_height;
        let w = self.grid_width;
        let m = self.number_of_mines;
        seq![
            (h != 1, h == 1 || h != area_height),
            (w != 1, w == 1 || w != area_width),
            (m != 1, m == 1 || m + 1 != h * w),
        ]
    }

    /// The arrows of the three value lines, as the menu is drawn on an area of
    /// `area_height` by `area_width` once its values are fitted to it.
    pub fn arrows(&self, area_height: u16, area_width: u16) -> (arrows: Vec<(bool, bool)>)
        requires
            self.grid_height <= area_height,
            self.grid_width <= area_width,
            self.number_of_mines < usize::MAX,
        ensures
            arrows@ == self.shown_arrows(area_height, area_width),
    {
        let h = self.grid_height;
        let w = self.grid_width;
        let m = self.number_of_mines;
        assert(h * w <= 0xffff * 0xffff) by (nonlinear_arith)
            requires
                h <= 0xffff,
                w <= 0xffff,
        ;
        let mut arrows: Vec<(bool, bool)> = Vec::new();
        arrows.push((h != 1, h == 1 || h != area_height as usize));
        arrows.push((w != 1, w == 1 || w != area_width as usize));
        arrows.push((m != 1, m == 1 || m + 1 != h * w));
        proof {
            assert(arrows@ =~= self.shown_arrows(area_height, area_width));
        }
        arrows
    }

    /// Moves the cursor one line down, from the last line to the first.
    pub fn move_cursor_down(&mut self)
        requires
            old(self).cursor_height < 255,
        ensures
            *final(self) == old(self).cursor_moved_down(),
    {
        self.cursor_height = (self.cursor_height + 1) % 4
    }

    /// Moves the cursor one line up, from the first line to the last.
    pub fn move_cursor_up(&mut self)
        ensures
            *final(self) == old(self).cursor_moved_up(),
    {
        self.cursor_height = match self.cursor_height.checked_sub(1) {
            Some(h) => h,
            None => 3,
        };
    }

    /// Adds one to the value under the cursor.
    pub fn increment_value(&mut self)
        requires
            old(self).can_increment(),
        ensures
            *final(self) == old(self).incremented(),
    {
        match self.cursor_height {
            0 => self.grid_height += 1,
            1 => self.grid_width += 1,
            2 => self.number_of_mines += 1,
            _ => {},
        }
    }

    /// Takes one from the value under the cursor, never below one.
    pub fn decrement_value(&mut self)
        ensures
            *final(self) == old(self).decremented(),
    {
        if self.cursor_height == 0 && self.grid_height > 1 {
            self.grid_height -= 1;
        } else if self.cursor_height == 1 && self.grid_width > 1 {
            self.grid_width -= 1;
        } else if self.cursor_height == 2 && self.number_of_mines > 1 {
            self.number_of_mines -= 1;
        }
    }

    /// Starts a round on a new board of the chosen size with the chosen
    /// number of mines.
    pub fn start(self) -> (result: Result<PlayingState, GridError>)
        requires
            self.number_of_mines > 0 ==> self.grid_height * self.grid_width <= usize::MAX,
        ensures
            self.number_of_mines == 0 ==> result == Err::<PlayingState, GridError>(GridError::NoMines),
            self.number_of_mines > 0 && self.number_of_mines > self.grid_height * self.grid_width ==> result
                == Err::<PlayingState, GridError>(
                GridError::TooManyMines {
                    total_cells: (self.grid_height * self.grid_width) as usize,
                    number_of_rows: self.grid_height,
                    number_of_columns: self.grid_width,
                    number_of_mines: self.number_of_mines,
                },
            ),
            self.number_of_mines > 0 && self.number_of_mines <= self.grid_height * self.grid_width ==> (
            result matches Ok(p) && p.grid@.is_fresh(
                self.grid_height as nat,
                self.grid_width as nat,
                self.number_of_mines as nat,
            )),
    {
        let grid = match Grid::new(self.grid_height, self.grid_width, self.number_of_mines) {
            Ok(grid) => grid,
            Err(e) => return Err(e),
        };
        Ok(PlayingState { grid, start_time: now() })
    }

    /// Fits the values to a drawing area of `area_height` by `area_width`, as
    /// the menu does each time it is drawn.
    pub fn bound_to_area(&mut self, area_height: u16, area_width: u16)
        requires
            old(self).grid_height > 0,
            old(self).grid_width > 0,
            area_height > 0,
            area_width > 0,
        ensures
            *final(self) == old(self).bounded_to(area_height, area_width),
    {
        let h = if self.grid_height < area_height as usize { self.grid_height } else { area_height as usize };
        let w = if self.grid_width < area_width as usize { self.grid_width } else { area_width as usize };
        assert(h * w <= 0xffff * 0xffff) by (nonlinear_arith)
            requires
                h <= 0xffff,
                w <= 0xffff,
        ;
        assert(h * w >= 1) by (nonlinear_arith)
            requires
                h >= 1,
                w >= 1,
        ;
        let most = h * w - 1;
        let m = if self.number_of_mines < most { self.number_of_mines } else { most };
        self.grid_height = h;
        self.grid_width = w;
        self.number_of_mines = if m < 1 { 1 } else { m };
    }
}

impl Screen for MenuState {
    /// Moving down needs room in the cursor's counter, raising a value needs
    /// room for it, and starting needs a board whose size fits.
    open spec fn handles(&self, key_event: Key) -> bool {
        if key_event.is_quit() {
            true
        } else if key_event.is_select() && self.cursor_height == 3 {
            self.number_of_mines > 0 ==> self.grid_height * self.grid_width <= usize::MAX
        } else if key_event == Key::Down {
            self.cursor_height < 255
        } else if key_event == Key::Right {
            self.can_increment()
        } else {
            true
        }
    }

    /// `q` quits; Enter or space on the start line starts a round; the up and
    /// down arrows move the cursor, right and left raise and lower the value
    /// under it; other keys change nothing.
    open spec fn transition(&self, key_event: Key, result: Result<AppState, GridError>) -> bool {
        if key_event.is_quit() {
            result == Ok::<AppState, GridError>(AppState::Quit)
        } else if key_event.is_select() && self.cursor_height == 3 {
            fresh_round(self.grid_height, self.grid_width, self.number_of_mines, result)
        } else if key_event == Key::Down {
            result == Ok::<AppState, GridError>(AppState::Menu(self.cursor_moved_down()))
        } else if key_event == Key::Up {
            result == Ok::<AppState, GridError>(AppState::Menu(self.cursor_moved_up()))
        } else if key_event == Key::Right {
            result == Ok::<AppState, GridError>(AppState::Menu(self.incremented()))
        } else if key_event == Key::Left {
            result == Ok::<AppState, GridError>(AppState::Menu(self.decremented()))
        } else {
            result == Ok::<AppState, GridError>(AppState::Menu(*self))
        }
    }

    fn handle_key_event(self, key_event: Key) -> (result: Result<AppState, GridError>) {
        let mut menu = self;
        match key_event {
            Key::Char('q') => Ok(AppState::Quit),
            Key::Enter if menu.cursor_height == 3 => match menu.start() {
                Ok(playing) => Ok(AppState::Playing(playing)),
                Err(e) => Err(e),
            },
            Key::Char(' ') if menu.cursor_height == 3 => match menu.start() {
                Ok(playing) => Ok(AppState::Playing(playing)),
                Err(e) => Err(e),
            },
            Key::Down => {
                menu.move_cursor_down();
                Ok(AppState::Menu(menu))
            },
            Key::Up => {
                menu.move_cursor_up();
                Ok(AppState::Menu(menu))
            },
            Key::Right => {
                menu.increment_value();
                Ok(AppState::Menu(menu))
            },
            Key::Left => {
                menu.decrement_value();
                Ok(AppState::Menu(menu))
            },
            _ => Ok(AppState::Menu(menu)),
        }
    }
}

/// On the menu, Down and Up move the cursor one line round the four lines
/// (height, width, mines, start); Right raises the value under the cursor by
/// exactly one and Left lowers it by one unless it is one already; on the start
/// line neither changes anything, and no arrow changes another value.
pub proof fn lemma_menu_arrows(m: MenuState, key_event: Key, result: Result<AppState, GridError>)
    requires
        key_event == Key::Down || key_event == Key::Up || key_event == Key::Right || key_event == Key::Left,
        m.cursor_height < 4,
        key_event == Key::Right ==> m.grid_height < usize::MAX && m.grid_width < usize::MAX && m.number_of_mines
            < usize::MAX,
        m.transition(key_event, result),
    ensures
        result matches Ok(AppState::Menu(n)) && {
            &&& key_event == Key::Down ==> n.cursor_height == (m.cursor_height + 1) % 4
            &&& key_event == Key::Up ==> n.cursor_height == (if m.cursor_height == 0 {
                3
            } else {
                m.cursor_height - 1
            })
            &&& (key_event == Key::Down || key_event == Key::Up) ==> n.grid_height == m.grid_height
                && n.grid_width == m.grid_width && n.number_of_mines == m.number_of_mines
            &&& (key_event == Key::Right || key_event == Key::Left) ==> n.cursor_height == m.cursor_height
            &&& key_event == Key::Right ==> {
                &&& n.grid_height == m.grid_height + (if m.cursor_height == 0 { 1int } else { 0 })
                &&& n.grid_width == m.grid_width + (if m.cursor_height == 1 { 1int } else { 0 })
                &&& n.number_of_mines == m.number_of_mines + (if m.cursor_height == 2 { 1int } else { 0 })
            }
            &&& key_event == Key::Left ==> {
                &&& n.grid_height == m.grid_height - (if m.cursor_height == 0 && m.grid_height > 1 {
                    1int
                } else {
                    0
                })
                &&& n.grid_width == m.grid_width - (if m.cursor_height == 1 && m.grid_width > 1 {
                    1int
                } else {
                    0
                })
                &&& n.number_of_mines == m.number_of_mines - (if m.cursor_height == 2 && m.number_of_mines > 1 {
                    1int
                } else {
                    0
                })
            }
        },
{
}

/// On the menu, Right then Left gives back the menu when every value is at
/// least one, and Right never lowers a value.
pub proof fn lemma_menu_right_then_left(m: MenuState, middle: MenuState, result: Result<AppState, GridError>)
    requires
        m.cursor_height < 4,
        m.grid_height >= 1,
        m.grid_width >= 1,
        m.number_of_mines >= 1,
        m.grid_height < usize::MAX,
        m.grid_width < usize::MAX,
        m.number_of_mines < usize::MAX,
        m.transition(Key::Right, Ok(AppState::Menu(middle))),
        middle.transition(Key::Left, result),
    ensures
        middle.grid_height >= m.grid_height,
        middle.grid_width >= m.grid_width,
        middle.number_of_mines >= m.number_of_mines,
        result == Ok::<AppState, GridError>(AppState::Menu(m)),
{
    lemma_menu_arrows(m, Key::Right, Ok(AppState::Menu(middle)));
    lemma_menu_arrows(middle, Key::Left, result);
    if let Ok(AppState::Menu(n)) = result {
        assert(n == m);
    }
}

/// On the start line, Enter or space starts a round on a board of the chosen
/// height and width with the chosen number of mines, every square hidden.
pub proof fn lemma_menu_start_uses_choices(m: MenuState, key_event: Key, next: AppState)
    requires
        key_event == Key::Enter || key_event == Key::Char(' '),
        m.cursor_height == 3,
        m.transition(key_event, Ok(next)),
    ensures
        next matches AppState::Playing(p) && {
            let g = p.grid@;
            &&& g.height == m.grid_height
            &&& g.width == m.grid_width
            &&& g.mine_count() == m.number_of_mines
            &&& g.remaining_empty_cells == m.grid_height * m.grid_width - m.number_of_mines
            &&& forall|i: int, j: int|
                0 <= i < g.height && 0 <= j < g.width ==> !(#[trigger] g.cells[i][j]).revealed
        },
{
    if let AppState::Playing(p) = next {
        let g = p.grid@;
        assert forall|i: int, j: int| 0 <= i < g.height && 0 <= j < g.width implies !(
        #[trigger] g.cells[i][j]).revealed by {
            assert(g.cells[i].len() == g.width);
            assert(crate::components::count::in_shape(g.cells, i, j));
        }
    }
}

/// Moving the cursor down then up, or up then down, brings it back.
pub proof fn lemma_menu_cursor_steps_undo(m: MenuState)
    requires
        m.cursor_height < 4,
    ensures
        m.cursor_moved_down().cursor_moved_up() == m,
        m.cursor_moved_up().cursor_moved_down() == m,
        m.cursor_moved_down().cursor_height < 4,
        m.cursor_moved_up().cursor_height < 4,
{
}

/// Lowering a value just raised gives back the menu, when the value was at
/// least one.
pub proof fn lemma_menu_increment_then_decrement(m: MenuState)
    requires
        m.can_increment(),
        m.grid_height >= 1,
        m.grid_width >= 1,
        m.number_of_mines >= 1,
    ensures
        m.incremented().decremented() == m,
{
}

/// A value lowered never goes below one if it was at least one.
pub proof fn lemma_menu_decrement_floor(m: MenuState)
    requires
        m.grid_height >= 1,
        m.grid_width >= 1,
        m.number_of_mines >= 1,
    ensures
        m.decremented().grid_height >= 1,
        m.decremented().grid_width >= 1,
        m.decremented().number_of_mines >= 1,
{
}

} // verus!
