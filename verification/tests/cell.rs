use minesweeper::components::cell::Cell;
use minesweeper::components::text::decimal_string;

#[test]
fn can_toggle_flag() {
    let mut cell = Cell::default();

    // Flag is off
    assert!(!cell.flagged);

    // Can turn flag on
    cell.toggle_flag();
    assert!(cell.flagged);

    // And off
    cell.toggle_flag();
    assert!(!cell.flagged);
}

#[test]
fn can_reveal_cell() {
    let mut cell = Cell::default();

    // Cell is not revealed
    assert!(!cell.revealed);

    // Can reveal
    cell.uncover();
    assert!(cell.revealed);

    // Calling again keeps cell revealed
    cell.uncover();
    assert!(cell.revealed);
}

#[test]
fn can_mark_as_mine() {
    let mut cell = Cell::default();

    // Cell is not a mine
    assert!(!cell.is_mine);

    // Can mark as mine
    cell.place_mine();
    assert!(cell.is_mine);
}

#[test]
fn empty_cell_converted_to_expected_string() {
    let mut cell = Cell::default();

    // Unrevealed cell appears as a #
    assert_eq!(cell.as_string(), "#");

    // Revealing the cell makes it appear as an _
    cell.uncover();
    assert_eq!(cell.as_string(), "_");
}

#[test]
fn mined_cell_converted_to_expected_string() {
    let mut cell = Cell {
        is_mine: true,
        ..Default::default()
    };

    // Unrevealed cell appears as a #
    assert_eq!(cell.as_string(), "#");

    // Revealing the cell makes it appear as an X
    cell.uncover();
    assert_eq!(cell.as_string(), "X");
}

fn check_flagged_cell(is_mine: bool, revealed_str: &str) {
    let mut cell = Cell {
        flagged: true,
        is_mine,
        ..Default::default()
    };

    // Unrevealed cell appears as an F
    assert_eq!(cell.as_string(), "F");

    cell.uncover();
    assert_eq!(cell.as_string(), revealed_str);
}

#[test]
fn flagged_cell_converted_to_expected_string_flagged_cell_is_a_mine() {
    check_flagged_cell(true, "X");
}

#[test]
fn flagged_cell_converted_to_expected_string_flagged_cell_is_not_a_mine() {
    check_flagged_cell(false, "_");
}

#[test]
fn unmined_cell_with_mined_neighbours_converted_to_expected_string() {
    for (neighbouring_mines, revealed_str) in
        [(1u8, "1"), (2, "2"), (3, "3"), (4, "4"), (5, "5"), (6, "6"), (7, "7"), (8, "8")]
    {
        let mut cell = Cell {
            neighbouring_mines,
            ..Default::default()
        };

        // Unrevealed cell appears as a #
        assert_eq!(cell.as_string(), "#");

        cell.uncover();
        assert_eq!(cell.as_string(), revealed_str);
    }
}

#[test]
fn mined_cell_with_mined_neighbours_converted_to_expected_string() {
    for neighbouring_mines in 1u8..=8 {
        let mut cell = Cell {
            neighbouring_mines,
            is_mine: true,
            ..Default::default()
        };

        // Unrevealed cell appears as a #
        assert_eq!(cell.as_string(), "#");

        cell.uncover();
        assert_eq!(cell.as_string(), "X");
    }
}

#[test]
fn toggling_a_flag_twice_gives_back_the_cell() {
    let before = Cell {
        revealed: false,
        is_mine: true,
        neighbouring_mines: 3,
        flagged: false,
    };
    let mut cell = before;
    cell.toggle_flag();
    assert_ne!(cell, before);
    cell.toggle_flag();
    assert_eq!(cell, before);
}

#[test]
fn revealed_cell_ignores_its_flag() {
    let cell = Cell {
        flagged: true,
        revealed: true,
        is_mine: false,
        neighbouring_mines: 2,
    };
    assert_eq!(cell.as_string(), "2");
}

#[test]
fn flag_shows_over_a_hidden_count() {
    let cell = Cell {
        flagged: true,
        revealed: false,
        is_mine: false,
        neighbouring_mines: 9,
    };
    assert_eq!(cell.as_string(), "F");
}

#[test]
fn numbers_are_written_in_decimal() {
    assert_eq!(decimal_string(0), "0");
    assert_eq!(decimal_string(9), "9");
    assert_eq!(decimal_string(10), "10");
    assert_eq!(decimal_string(255), "255");
    assert_eq!(decimal_string(9800), "9800");
    assert_eq!(decimal_string(u64::MAX), u64::MAX.to_string());
}
