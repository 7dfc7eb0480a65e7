use std::time::Instant;

use minesweeper::appstate::app::{App, AppState};
use minesweeper::appstate::key::Key;
use minesweeper::appstate::lost::LostState;
use minesweeper::appstate::menu::MenuState;
use minesweeper::appstate::playing::PlayingState;
use minesweeper::appstate::screen::Screen;
use minesweeper::appstate::won::WonState;
use minesweeper::components::cell::Cell;
use minesweeper::components::grid::{Grid, GridError};

fn menu(cursor_height: u8, grid_height: usize, grid_width: usize, number_of_mines: usize) -> MenuState {
    MenuState {
        cursor_height,
        grid_height,
        grid_width,
        number_of_mines,
    }
}

fn playing(grid: Grid) -> App {
    App::with_app_state(AppState::Playing(PlayingState {
        grid,
        start_time: Instant::now(),
    }))
}

#[test]
fn app_can_exit() {
    let mut app = App::with_app_state(AppState::Menu(menu(0, 10, 20, 10)));
    assert!(!matches!(app.app_state(), AppState::Quit));

    app = app.handle_key_event(Key::Char('q')).unwrap();
    assert!(matches!(app.app_state(), AppState::Quit));
    assert!(app.exit());
}

#[test]
fn app_revealing_an_empty_cell_doesnt_change_gamestate_if_there_are_still_unrevealed_empty_cells() {
    // 3x1 grid, mine in third cell
    let grid = Grid::custom(vec![vec![
        Cell {
            neighbouring_mines: 1,
            ..Default::default()
        },
        Cell {
            neighbouring_mines: 1,
            ..Default::default()
        },
        Cell {
            neighbouring_mines: 1,
            is_mine: true,
            ..Default::default()
        },
    ]]);

    let mut app = playing(grid);

    app = app.handle_key_event(Key::Enter).unwrap();
    assert!(matches!(app.app_state(), AppState::Playing(_)));
}

#[test]
fn app_revealing_an_empty_cell_changes_gamestate_to_won_if_there_are_no_unrevealed_empty_cells() {
    // 2x1 grid, mine in second cell
    let grid = Grid::custom(vec![vec![
        Cell {
            neighbouring_mines: 1,
            ..Default::default()
        },
        Cell {
            neighbouring_mines: 1,
            is_mine: true,
            ..Default::default()
        },
    ]]);

    let mut app = playing(grid);

    app = app.handle_key_event(Key::Enter).unwrap();
    assert!(matches!(app.app_state(), AppState::Won(_)));
}

#[test]
fn app_revealing_a_cell_with_a_mine_changes_gamestate_to_lost() {
    // 2x1 grid, mine in second cell
    let grid = Grid::custom(vec![vec![
        Cell {
            neighbouring_mines: 1,
            is_mine: true,
            ..Default::default()
        },
        Cell {
            neighbouring_mines: 1,
            ..Default::default()
        },
    ]]);

    let mut app = playing(grid);
    app = app.handle_key_event(Key::Enter).unwrap();
    assert!(matches!(app.app_state(), AppState::Lost(_)));
}

#[test]
fn new_app_starts_on_the_menu() {
    let app = App::new();
    assert!(!app.exit());
    match app.app_state() {
        AppState::Menu(m) => assert_eq!(*m, menu(0, 10, 20, 10)),
        _ => panic!("not on the menu"),
    }
}

#[test]
fn menu_start_begins_a_round() {
    let mut app = App::with_app_state(AppState::Menu(menu(0, 4, 5, 3)));
    for _ in 0..3 {
        app = app.handle_key_event(Key::Down).unwrap();
    }
    assert!(matches!(app.app_state(), AppState::Menu(m) if m.cursor_height == 3));
    app = app.handle_key_event(Key::Char(' ')).unwrap();
    match app.app_state() {
        AppState::Playing(p) => {
            assert_eq!(p.grid.rows(), 4);
            assert_eq!(p.grid.columns(), 5);
            assert_eq!(p.grid.mines(), 3);
            assert_eq!(p.grid.remaining_empty_cells(), 17);
        }
        _ => panic!("no round started"),
    }
}

#[test]
fn menu_start_with_too_many_mines_is_refused() {
    let app = App::with_app_state(AppState::Menu(menu(3, 2, 2, 5)));
    let error = app.handle_key_event(Key::Enter).unwrap_err();
    assert_eq!(
        error,
        GridError::TooManyMines {
            total_cells: 4,
            number_of_rows: 2,
            number_of_columns: 2,
            number_of_mines: 5,
        }
    );
}

#[test]
fn enter_off_the_start_line_does_nothing() {
    let app = App::with_app_state(AppState::Menu(menu(1, 2, 2, 5)));
    let app = app.handle_key_event(Key::Enter).unwrap();
    assert!(matches!(app.app_state(), AppState::Menu(m) if *m == menu(1, 2, 2, 5)));
}

#[test]
fn menu_arrows_change_values() {
    let mut m = menu(0, 10, 20, 10);
    m.increment_value();
    assert_eq!(m, menu(0, 11, 20, 10));
    m.move_cursor_down();
    m.decrement_value();
    assert_eq!(m, menu(1, 11, 19, 10));
    m.move_cursor_down();
    m.increment_value();
    m.decrement_value();
    assert_eq!(m, menu(2, 11, 19, 10));
    m.move_cursor_down();
    m.increment_value();
    assert_eq!(m, menu(3, 11, 19, 10));
    m.move_cursor_down();
    assert_eq!(m.cursor_height, 0);
    m.move_cursor_up();
    assert_eq!(m.cursor_height, 3);
    m.move_cursor_up();
    assert_eq!(m.cursor_height, 2);
}

#[test]
fn menu_values_never_drop_below_one() {
    let mut m = menu(0, 1, 1, 1);
    m.decrement_value();
    m.move_cursor_down();
    m.decrement_value();
    m.move_cursor_down();
    m.decrement_value();
    assert_eq!(m, menu(2, 1, 1, 1));
}

#[test]
fn menu_values_are_fitted_to_the_area() {
    let mut m = menu(0, 50, 30, 2000);
    m.bound_to_area(20, 40);
    assert_eq!(m, menu(0, 20, 30, 599));

    let mut m = menu(0, 1, 1, 7);
    m.bound_to_area(20, 40);
    assert_eq!(m, menu(0, 1, 1, 1));

    let mut m = menu(0, 3, 3, 4);
    m.bound_to_area(20, 40);
    assert_eq!(m, menu(0, 3, 3, 4));
}

#[test]
fn lost_screen_waits_for_q() {
    let state = LostState {
        grid: Grid::new(2, 2, 1).unwrap(),
        time_taken_s: 12,
    };
    let next = state.handle_key_event(Key::Char('r')).unwrap();
    assert!(matches!(next, AppState::Lost(ref l) if l.time_taken_s == 12));
    if let AppState::Lost(l) = next {
        assert!(matches!(l.handle_key_event(Key::Char('q')).unwrap(), AppState::Quit));
    }
}

#[test]
fn won_screen_restarts_on_the_same_board_size() {
    let state = WonState {
        grid: Grid::new(3, 4, 5).unwrap(),
        time_taken_s: 7,
    };
    let next = state.handle_key_event(Key::Char('r')).unwrap();
    match next {
        AppState::Playing(p) => {
            assert_eq!(p.grid.rows(), 3);
            assert_eq!(p.grid.columns(), 4);
            assert_eq!(p.grid.mines(), 5);
            assert_eq!(p.grid.remaining_empty_cells(), 7);
        }
        _ => panic!("no new round"),
    }
}

#[test]
fn won_screen_ignores_other_keys() {
    let state = WonState {
        grid: Grid::new(3, 4, 5).unwrap(),
        time_taken_s: 7,
    };
    let next = state.handle_key_event(Key::Enter).unwrap();
    assert!(matches!(next, AppState::Won(ref w) if w.time_taken_s == 7));
}

#[test]
fn playing_keys_flag_and_move() {
    let grid = Grid::from_mine_indices(2, 2, &vec![3]);
    let mut app = playing(grid);
    app = app.handle_key_event(Key::Char('f')).unwrap();
    app = app.handle_key_event(Key::Right).unwrap();
    app = app.handle_key_event(Key::Down).unwrap();
    app = app.handle_key_event(Key::Left).unwrap();
    app = app.handle_key_event(Key::Up).unwrap();
    app = app.handle_key_event(Key::Other).unwrap();
    match app.app_state() {
        AppState::Playing(p) => {
            assert!(p.grid.cells()[0][0].flagged);
            assert_eq!((p.grid.cursor_row(), p.grid.cursor_column()), (0, 0));
        }
        _ => panic!("round ended"),
    }
}

#[test]
fn a_round_is_won_by_revealing_every_safe_square() {
    // 2x2 board with a mine at the bottom right
    let grid = Grid::from_mine_indices(2, 2, &vec![3]);
    let mut app = playing(grid);
    for key in [Key::Enter, Key::Right, Key::Char(' '), Key::Down, Key::Left] {
        app = app.handle_key_event(key).unwrap();
        assert!(matches!(app.app_state(), AppState::Playing(_)));
    }
    app = app.handle_key_event(Key::Enter).unwrap();
    match app.app_state() {
        AppState::Won(w) => assert_eq!(w.grid.remaining_empty_cells(), 0),
        _ => panic!("round not won"),
    }
    assert!(app.can_handle(Key::Char('r')));
}

#[test]
fn a_full_board_cannot_take_a_reveal() {
    let app = playing(Grid::new(1, 1, 1).unwrap());
    assert!(!app.can_handle(Key::Enter));
    assert!(app.can_handle(Key::Char('q')));
    let quit = app.handle_key_event(Key::Char('q')).unwrap();
    assert!(!quit.can_handle(Key::Enter));
}

#[test]
fn menu_arrows_mark_the_ends_of_each_value() {
    assert_eq!(
        menu(0, 1, 40, 599).arrows(20, 40),
        vec![(false, true), (true, false), (true, true)]
    );
    assert_eq!(
        menu(0, 20, 30, 599).arrows(20, 40),
        vec![(true, false), (true, true), (true, false)]
    );
    assert_eq!(
        menu(0, 1, 1, 1).arrows(1, 1),
        vec![(false, true), (false, true), (false, true)]
    );
}
