use minesweeper::components::cell::Cell;
use minesweeper::components::grid::{Grid, GridError};

fn count_mines(grid: &Grid) -> usize {
    let mut number_of_mines = 0;
    for row in grid.cells() {
        for cell in row {
            if cell.is_mine {
                number_of_mines += 1;
            }
        }
    }
    number_of_mines
}

fn row_text(grid: &Grid, row: usize) -> String {
    grid.cells()[row].iter().map(|cell| cell.as_string()).collect::<Vec<String>>().concat()
}

fn check_can_create_grid(
    number_of_rows: usize,
    number_of_columns: usize,
    number_of_mines: usize,
    number_of_empty_cells: usize,
) {
    let grid = Grid::new(number_of_rows, number_of_columns, number_of_mines).unwrap();

    assert_eq!(grid.rows(), number_of_rows);
    assert_eq!(grid.cells().len(), number_of_rows);
    assert_eq!(grid.columns(), number_of_columns);
    assert_eq!(grid.cells()[0].len(), number_of_columns);
    assert_eq!(grid.cursor_row(), 0);
    assert_eq!(grid.cursor_column(), 0);
    assert_eq!(grid.remaining_empty_cells(), number_of_empty_cells);
}

#[test]
fn can_create_grid_tiny_grid() {
    check_can_create_grid(1, 1, 1, 0);
}

#[test]
fn can_create_grid_wide_grid() {
    check_can_create_grid(1, 100, 5, 95);
}

#[test]
fn can_create_grid_tall_grid() {
    check_can_create_grid(100, 1, 10, 90);
}

#[test]
fn can_create_grid_large_grid() {
    check_can_create_grid(100, 100, 200, 9800);
}

#[test]
fn return_err_if_trying_to_create_grid_with_more_mines_than_cells() {
    let error = Grid::new(2, 3, 7).unwrap_err();

    // Check top error or context
    assert_eq!(
        error.message(),
        "Attempting to create a grid with more mines than cells: 6 cells (2x3 grid), but tried to insert 7 mines"
    );
}

#[test]
fn return_err_if_trying_to_create_grid_with_no_mines() {
    let error = Grid::new(2, 3, 0).unwrap_err();

    // Check top error or context
    assert_eq!(error.message(), "Cannot create a grid with no mines");
}

#[test]
fn grid_errors_carry_the_sizes_asked_for() {
    assert_eq!(Grid::new(2, 3, 0).unwrap_err(), GridError::NoMines);
    assert_eq!(
        Grid::new(2, 3, 7).unwrap_err(),
        GridError::TooManyMines {
            total_cells: 6,
            number_of_rows: 2,
            number_of_columns: 3,
            number_of_mines: 7,
        }
    );
    // an empty board has room for no mine
    assert_eq!(
        Grid::new(0, 5, 1).unwrap_err(),
        GridError::TooManyMines {
            total_cells: 0,
            number_of_rows: 0,
            number_of_columns: 5,
            number_of_mines: 1,
        }
    );
}

fn check_expected_number_of_mines(expected_number_of_mines: usize) {
    let grid = Grid::new(5, 5, expected_number_of_mines).unwrap();

    assert_eq!(expected_number_of_mines, count_mines(&grid));
    assert_eq!(expected_number_of_mines, grid.mines());
}

#[test]
fn can_create_grid_with_expected_number_of_mines_one_mine() {
    check_expected_number_of_mines(1);
}

#[test]
fn can_create_grid_with_expected_number_of_mines_many_mines() {
    check_expected_number_of_mines(10);
}

#[test]
fn a_full_board_has_a_mine_on_every_square() {
    let grid = Grid::new(3, 4, 12).unwrap();
    assert_eq!(count_mines(&grid), 12);
    assert_eq!(grid.remaining_empty_cells(), 0);
    assert!(grid.finished());
}

#[test]
fn new_board_squares_know_the_mines_around_them() {
    let grid = Grid::new(6, 7, 15).unwrap();
    let cells = grid.cells();
    for i in 0..6usize {
        for j in 0..7usize {
            let mut around = 0;
            for a in i.saturating_sub(1)..(i + 2).min(6) {
                for b in j.saturating_sub(1)..(j + 2).min(7) {
                    if cells[a][b].is_mine {
                        around += 1;
                    }
                }
            }
            assert_eq!(cells[i][j].neighbouring_mines, around);
            assert!(!cells[i][j].revealed);
            assert!(!cells[i][j].flagged);
        }
    }
}

#[test]
fn board_from_mine_indices_puts_mines_where_asked() {
    // 2x3 board, mines on squares 0 and 5
    let grid = Grid::from_mine_indices(2, 3, &vec![5, 0]);
    let cells = grid.cells();
    assert!(cells[0][0].is_mine);
    assert!(cells[1][2].is_mine);
    assert_eq!(count_mines(&grid), 2);
    let counts: Vec<Vec<u8>> = cells
        .iter()
        .map(|row| row.iter().map(|cell| cell.neighbouring_mines).collect())
        .collect();
    assert_eq!(counts, vec![vec![1, 2, 1], vec![1, 2, 1]]);
    assert_eq!(grid.remaining_empty_cells(), 4);
}

#[test]
fn can_move_cursor_right() {
    let mut grid = Grid::new(2, 3, 1).unwrap();

    assert_eq!(grid.cursor_column(), 0);
    assert_eq!(grid.cursor_row(), 0);

    // Can move cursor right
    grid.move_cursor_right();
    assert_eq!(grid.cursor_column(), 1);
    assert_eq!(grid.cursor_row(), 0);

    // Can move cursor right again
    grid.move_cursor_right();
    assert_eq!(grid.cursor_column(), 2);
    assert_eq!(grid.cursor_row(), 0);

    // Moving again will wrap around to the start
    grid.move_cursor_right();
    assert_eq!(grid.cursor_column(), 0);
    assert_eq!(grid.cursor_row(), 0);
}

#[test]
fn can_move_cursor_left() {
    let mut grid = Grid::new(2, 3, 1).unwrap();

    assert_eq!(grid.cursor_column(), 0);
    assert_eq!(grid.cursor_row(), 0);

    // Can move cursor left and it wraps around
    grid.move_cursor_left();
    assert_eq!(grid.cursor_column(), 2);
    assert_eq!(grid.cursor_row(), 0);

    // Can move cursor left again
    grid.move_cursor_left();
    assert_eq!(grid.cursor_column(), 1);
    assert_eq!(grid.cursor_row(), 0);

    // Can move cursor left again and it's back to the start
    grid.move_cursor_left();
    assert_eq!(grid.cursor_column(), 0);
    assert_eq!(grid.cursor_row(), 0);
}

#[test]
fn can_move_cursor_down() {
    let mut grid = Grid::new(3, 3, 1).unwrap();

    assert_eq!(grid.cursor_column(), 0);
    assert_eq!(grid.cursor_row(), 0);

    // Can move cursor down
    grid.move_cursor_down();
    assert_eq!(grid.cursor_column(), 0);
    assert_eq!(grid.cursor_row(), 1);

    // Can move cursor down again
    grid.move_cursor_down();
    assert_eq!(grid.cursor_column(), 0);
    assert_eq!(grid.cursor_row(), 2);

    // Can move cursor down again and it wraps back to the top
    grid.move_cursor_down();
    assert_eq!(grid.cursor_column(), 0);
    assert_eq!(grid.cursor_row(), 0);
}

#[test]
fn can_move_cursor_up() {
    let mut grid = Grid::new(3, 3, 1).unwrap();

    assert_eq!(grid.cursor_column(), 0);
    assert_eq!(grid.cursor_row(), 0);

    // Can move cursor up and it wraps around
    grid.move_cursor_up();
    assert_eq!(grid.cursor_column(), 0);
    assert_eq!(grid.cursor_row(), 2);

    // Can move cursor up again
    grid.move_cursor_up();
    assert_eq!(grid.cursor_column(), 0);
    assert_eq!(grid.cursor_row(), 1);

    // Can move cursor up again and it's back to the start
    grid.move_cursor_up();
    assert_eq!(grid.cursor_column(), 0);
    assert_eq!(grid.cursor_row(), 0);
}

#[test]
fn moving_right_then_left_comes_back() {
    let mut grid = Grid::new(4, 5, 3).unwrap();
    for _ in 0..7 {
        grid.move_cursor_down();
        grid.move_cursor_right();
    }
    let (row, column) = (grid.cursor_row(), grid.cursor_column());
    assert_eq!((row, column), (3, 2));
    grid.move_cursor_right();
    grid.move_cursor_left();
    grid.move_cursor_up();
    grid.move_cursor_down();
    assert_eq!((grid.cursor_row(), grid.cursor_column()), (row, column));
}

#[test]
fn unrevealed_grid_rendered_as_expected() {
    let grid = Grid::new(2, 3, 1).unwrap();

    assert_eq!(row_text(&grid, 0), "###");
    assert_eq!(row_text(&grid, 1), "###");
    assert_eq!((grid.cursor_row(), grid.cursor_column()), (0, 0));
}

#[test]
fn moving_cusor_updates_selected_row_and_column() {
    let mut grid = Grid::new(2, 3, 1).unwrap();

    assert_eq!(row_text(&grid, 0), "###");
    assert_eq!(row_text(&grid, 1), "###");
    assert_eq!((grid.cursor_row(), grid.cursor_column()), (0, 0));

    // Moving the cursor right selects the second column
    grid.move_cursor_right();
    assert_eq!(row_text(&grid, 0), "###");
    assert_eq!(row_text(&grid, 1), "###");
    assert_eq!((grid.cursor_row(), grid.cursor_column()), (0, 1));

    // Moving the cursor down selects the second row
    grid.move_cursor_down();
    assert_eq!(row_text(&grid, 0), "###");
    assert_eq!(row_text(&grid, 1), "###");
    assert_eq!((grid.cursor_row(), grid.cursor_column()), (1, 1));
}

#[test]
fn mining_a_cell_updates_neighbouring_cells_to_have_a_mined_neighbour() {
    // 3x3 grid
    let mut cell_vec = vec![
        vec![Cell::default(), Cell::default(), Cell::default()],
        vec![Cell::default(), Cell::default(), Cell::default()],
        vec![Cell::default(), Cell::default(), Cell::default()],
    ];

    // No cells are mined at the start
    assert!(!cell_vec[0].iter().any(|cell: &Cell| cell.is_mine));
    assert!(!cell_vec[1].iter().any(|cell: &Cell| cell.is_mine));
    assert!(!cell_vec[2].iter().any(|cell: &Cell| cell.is_mine));

    // Place mine in the top left corner
    Grid::place_mine(&mut cell_vec, 3, 0);

    // Only top left cell is mined
    assert!(cell_vec[0][0].is_mine); // is mined
    assert!(!cell_vec[0][1].is_mine); // other cells on row are not mined
    assert!(!cell_vec[0][2].is_mine);
    assert!(!cell_vec[1].iter().any(|cell: &Cell| cell.is_mine));
    assert!(!cell_vec[2].iter().any(|cell: &Cell| cell.is_mine));

    // Cells neighbouring top left cell have their amount of neighbouring mines updated
    assert_eq!(cell_vec[0][1].neighbouring_mines, 1);
    assert_eq!(cell_vec[1][0].neighbouring_mines, 1);
    assert_eq!(cell_vec[1][1].neighbouring_mines, 1);

    // The other cells are unaffected
    assert_eq!(cell_vec[0][2].neighbouring_mines, 0);
    assert_eq!(cell_vec[1][2].neighbouring_mines, 0);
    assert_eq!(cell_vec[2][0].neighbouring_mines, 0);
    assert_eq!(cell_vec[2][1].neighbouring_mines, 0);
    assert_eq!(cell_vec[2][2].neighbouring_mines, 0);

    // Place mine in the bottom right corner
    Grid::place_mine(&mut cell_vec, 3, 8);

    // Both top left and bottom right cell are mined
    assert!(cell_vec[0][0].is_mine); // is mined
    assert!(!cell_vec[0][1].is_mine); // other cells on row are not mined
    assert!(!cell_vec[0][2].is_mine);
    assert!(!cell_vec[1].iter().any(|cell: &Cell| cell.is_mine));
    assert!(!cell_vec[2][0].is_mine); // other cells on row are not mined
    assert!(!cell_vec[2][1].is_mine);
    assert!(cell_vec[2][2].is_mine); // is mined

    // Cells neighbouring mines updated
    assert_eq!(cell_vec[0][1].neighbouring_mines, 1);
    assert_eq!(cell_vec[1][0].neighbouring_mines, 1);
    assert_eq!(cell_vec[1][1].neighbouring_mines, 2); // neighbouring both mines
    assert_eq!(cell_vec[1][2].neighbouring_mines, 1);
    assert_eq!(cell_vec[2][1].neighbouring_mines, 1);

    // The other cells are unaffected
    assert_eq!(cell_vec[0][2].neighbouring_mines, 0);
    assert_eq!(cell_vec[2][0].neighbouring_mines, 0);
}

#[test]
fn placing_a_mine_counts_it_on_its_own_square() {
    let mut cell_vec = vec![vec![Cell::default(); 2]; 2];
    Grid::place_mine(&mut cell_vec, 2, 3);
    assert!(cell_vec[1][1].is_mine);
    assert_eq!(cell_vec[1][1].neighbouring_mines, 1);
    assert_eq!(cell_vec[0][0].neighbouring_mines, 1);
}

fn one_mine_grid() -> Grid {
    // 3x2 grid with a single mine in the top right cell
    Grid::custom(vec![
        vec![
            Cell::default(),
            Cell {
                neighbouring_mines: 1,
                ..Default::default()
            },
            Cell {
                neighbouring_mines: 1,
                is_mine: true,
                ..Default::default()
            },
        ],
        vec![
            Cell::default(),
            Cell {
                neighbouring_mines: 1,
                ..Default::default()
            },
            Cell {
                neighbouring_mines: 1,
                ..Default::default()
            },
        ],
    ])
}

#[test]
fn reveling_cell_with_no_neighbouring_mines_reveals_further_cells() {
    let mut grid = one_mine_grid();
    // Starts as 3x2 grid with 1 mine, so 5 empty unrevealed cells
    assert_eq!(grid.remaining_empty_cells(), 5);
    assert!(!grid.finished());

    // Grid first formatted as expected
    assert_eq!(row_text(&grid, 0), "###");
    assert_eq!(row_text(&grid, 1), "###");

    // Revealing the top left cell will reveal more neighbouring cells, as it doesn't neighbour a mine
    grid.reveal_cell();

    assert_eq!(grid.remaining_empty_cells(), 1);
    assert!(!grid.finished());

    assert_eq!(row_text(&grid, 0), "_1#");
    assert_eq!(row_text(&grid, 1), "_1#");
    assert_eq!((grid.cursor_row(), grid.cursor_column()), (0, 0));
}

#[test]
fn revealing_a_revealed_cell_changes_nothing() {
    let mut grid = one_mine_grid();
    grid.reveal_cell();
    grid.reveal_cell();
    assert_eq!(grid.remaining_empty_cells(), 1);
    assert_eq!(row_text(&grid, 0), "_1#");
}

#[test]
fn revealing_a_numbered_cell_reveals_only_it() {
    let mut grid = one_mine_grid();
    grid.move_cursor_right();
    grid.move_cursor_down();
    grid.move_cursor_right();
    grid.reveal_cell();
    assert_eq!(row_text(&grid, 0), "###");
    assert_eq!(row_text(&grid, 1), "##1");
    assert_eq!(grid.remaining_empty_cells(), 4);
    // finishing the board
    grid.move_cursor_left();
    grid.move_cursor_left();
    grid.reveal_cell();
    assert_eq!(grid.remaining_empty_cells(), 0);
    assert!(grid.finished());
    assert_eq!(row_text(&grid, 0), "_1#");
    assert_eq!(row_text(&grid, 1), "_11");
}

#[test]
fn flagging_shows_and_hides_a_flag() {
    let mut grid = one_mine_grid();
    grid.move_cursor_right();
    grid.flag_cell();
    assert_eq!(row_text(&grid, 0), "#F#");
    assert!(grid.current_cell().flagged);
    grid.flag_cell();
    assert_eq!(row_text(&grid, 0), "###");
}

#[test]
fn revealing_a_mine_reveals_only_it() {
    let mut grid = one_mine_grid();
    grid.move_cursor_left();
    assert!(grid.current_cell().is_mine);
    assert!(grid.reveal_fits());
    grid.reveal_cell();
    assert_eq!(row_text(&grid, 0), "##X");
    assert_eq!(row_text(&grid, 1), "###");
    assert_eq!(grid.remaining_empty_cells(), 4);
}

#[test]
fn revealing_the_last_mine_of_a_full_board_does_not_fit() {
    let grid = Grid::new(1, 1, 1).unwrap();
    assert_eq!(grid.remaining_empty_cells(), 0);
    assert!(!grid.reveal_fits());
}

#[test]
fn custom_grid_counts_rectangle_less_mines() {
    let grid = Grid::custom(vec![vec![
        Cell {
            is_mine: true,
            ..Default::default()
        },
        Cell::default(),
    ]]);
    assert_eq!(grid.rows(), 1);
    assert_eq!(grid.columns(), 2);
    assert_eq!(grid.mines(), 1);
    assert_eq!(grid.remaining_empty_cells(), 1);
}
