//! The board: a rectangle of squares, a cursor, and the count of safe squares
//! still hidden.
use vstd::prelude::*;

use crate::components::cell::Cell;
use crate::components::count::{
    count_cells, count_row, count_rows, in_shape, is_rect, lemma_count_none, lemma_count_partial,
};
use crate::components::flood::{flood_count, flood_reveal, flooded, near, rows_view};
use crate::components::mines::{
    counts_consistent, flat_index, lemma_place_post, lemma_place_pre, mine_at, mined_cell, mines_around,
};
use crate::components::text::{decimal, push_decimal};
use vstd::string::*;

verus! {

/// What a board is, as a value: its squares row by row, its size, where the
/// cursor stands and how many safe squares it still counts as hidden.
pub struct GridState {
    pub cells: Seq<Seq<Cell>>,
    pub height: nat,
    pub width: nat,
    pub cursor_row: nat,
    pub cursor_column: nat,
    pub remaining_empty_cells: nat,
}

impl GridState {
    /// A board of at least one square, rectangular, that fits the address
    /// space, with the cursor on it.
    pub open spec fn wf(self) -> bool {
        &&& self.height >= 1
        &&& self.width >= 1
        &&& self.height * self.width <= usize::MAX
        &&& is_rect(self.cells, self.height as int, self.width as int)
        &&& self.cursor_row < self.height
        &&& self.cursor_column < self.width
    }

    /// The cursor stands on a square of the board.
    pub open spec fn cursor_on_board(self) -> bool {
        in_shape(self.cells, self.cursor_row as int, self.cursor_column as int)
    }

    /// The square under the cursor.
    pub open spec fn current(self) -> Cell {
        self.cells[self.cursor_row as int][self.cursor_column as int]
    }

    /// How many squares hold a mine.
    pub open spec fn mine_count(self) -> nat {
        count_cells(|i: int, j: int| self.cells[i][j].is_mine, self.cells)
    }

    /// How many squares without a mine are still hidden.
    pub open spec fn hidden_safe_count(self) -> nat {
        count_cells(|i: int, j: int| !self.cells[i][j].revealed && !self.cells[i][j].is_mine, self.cells)
    }

    /// No square records a mine count different from the mines around it.
    pub open spec fn counts_consistent(self) -> bool {
        counts_consistent(self.cells)
    }

    /// How many hidden squares revealing the square under the cursor uncovers.
    pub open spec fn flood_count(self) -> nat {
        flood_count(self.cells, self.cursor_row as int, self.cursor_column as int)
    }

    /// The board after revealing the square under the cursor: the flood of
    /// revealed squares, and that many fewer safe squares counted as hidden.
    pub open spec fn after_reveal(self) -> GridState {
        GridState {
            cells: flooded(self.cells, self.cursor_row as int, self.cursor_column as int),
            remaining_empty_cells: (self.remaining_empty_cells - self.flood_count()) as nat,
            ..self
        }
    }

    /// The board with the flag under the cursor flipped.
    pub open spec fn after_flag(self) -> GridState {
        GridState {
            cells: self.cells.update(
                self.cursor_row as int,
                self.cells[self.cursor_row as int].update(self.cursor_column as int, self.current().flag_toggled()),
            ),
            ..self
        }
    }

    /// Revealing the square under the cursor takes no more squares than the
    /// board still counts as hidden and safe.
    pub open spec fn reveal_fits(self) -> bool {
        self.flood_count() <= self.remaining_empty_cells
    }

    /// A new board of `h` by `w` squares with `mines` mines: every square hidden,
    /// unflagged and knowing the mines around it, and the cursor at the top left.
    pub open spec fn is_fresh(self, h: nat, w: nat, mines: nat) -> bool {
        &&& self.wf()
        &&& self.height == h
        &&& self.width == w
        &&& self.cursor_row == 0
        &&& self.cursor_column == 0
        &&& self.remaining_empty_cells == h * w - mines
        &&& self.mine_count() == mines
        &&& self.counts_consistent()
        &&& forall|i: int, j: int|
            in_shape(self.cells, i, j) ==> !(#[trigger] self.cells[i][j]).flagged && !self.cells[i][j].revealed
    }
}

/// The position after `c` on a ring of `n` positions.
pub open spec fn next_index(c: nat, n: nat) -> nat {
    (((c as int) + 1) % (n as int)) as nat
}

/// The position before `c` on a ring of `n` positions.
pub open spec fn prev_index(c: nat, n: nat) -> nat {
    if c == 0 {
        (n - 1) as nat
    } else {
        (((c as int) - 1) % (n as int)) as nat
    }
}

/// Stepping forward then back, or back then forward, on a ring comes home.
pub proof fn lemma_ring_steps_undo(c: nat, n: nat)
    requires
        c < n,
    ensures
        prev_index(next_index(c, n), n) == c,
        next_index(prev_index(c, n), n) == c,
{
    if c + 1 < n {
        vstd::arithmetic::div_mod::lemma_small_mod((c + 1) as nat, n);
        vstd::arithmetic::div_mod::lemma_small_mod(c, n);
        assert(next_index(c, n) == c + 1);
    } else {
        vstd::arithmetic::div_mod::lemma_mod_self_0(n as int);
        assert(next_index(c, n) == 0);
    }
    if c == 0 {
        vstd::arithmetic::div_mod::lemma_mod_self_0(n as int);
        assert(prev_index(c, n) == n - 1);
    } else {
        vstd::arithmetic::div_mod::lemma_small_mod((c - 1) as nat, n);
        vstd::arithmetic::div_mod::lemma_small_mod(c, n);
        assert(prev_index(c, n) == c - 1);
    }
}

/// Flagging flips the flag of the square under the cursor and of no other
/// square; the board keeps its shape, its cursor and its count.
pub proof fn lemma_flag_flips_only_cursor(g: GridState)
    requires
        g.cursor_on_board(),
    ensures
        g.after_flag().cells.len() == g.cells.len(),
        forall|i: int| 0 <= i < g.cells.len() ==> #[trigger] g.after_flag().cells[i].len() == g.cells[i].len(),
        forall|i: int, j: int|
            in_shape(g.cells, i, j) ==> #[trigger] g.after_flag().cells[i][j] == (if i == g.cursor_row && j
                == g.cursor_column {
                Cell {
                    flagged: !g.cells[i][j].flagged,
                    revealed: g.cells[i][j].revealed,
                    is_mine: g.cells[i][j].is_mine,
                    neighbouring_mines: g.cells[i][j].neighbouring_mines,
                }
            } else {
                g.cells[i][j]
            }),
        g.after_flag().height == g.height,
        g.after_flag().width == g.width,
        g.after_flag().cursor_row == g.cursor_row,
        g.after_flag().cursor_column == g.cursor_column,
        g.after_flag().remaining_empty_cells == g.remaining_empty_cells,
{
}

/// A board of squares with a cursor on it.
#[derive(Debug)]
pub struct Grid {
    number_of_rows: usize,
    number_of_columns: usize,
    rows: Vec<Vec<Cell>>,
    cursor_row: usize,
    cursor_column: usize,
    remaining_empty_cells: usize,
}

impl View for Grid {
    type V = GridState;

    closed spec fn view(&self) -> GridState {
        GridState {
            cells: rows_view(self.rows@),
            height: self.number_of_rows as nat,
            width: self.number_of_columns as nat,
            cursor_row: self.cursor_row as nat,
            cursor_column: self.cursor_column as nat,
            remaining_empty_cells: self.remaining_empty_cells as nat,
        }
    }
}

/// Why a board cannot be made.
#[derive(Debug, Clone, Copy, PartialEq, Eq, Structural)]
pub enum GridError {
    /// A board needs at least one mine.
    NoMines,
    /// More mines were asked for than the board has squares.
    TooManyMines {
        total_cells: usize,
        number_of_rows: usize,
        number_of_columns: usize,
        number_of_mines: usize,
    },
}

impl GridError {
    /// The text of the error.
    pub open spec fn text(self) -> Seq<char> {
        match self {
            GridError::NoMines => "Cannot create a grid with no mines"@,
            GridError::TooManyMines { total_cells, number_of_rows, number_of_columns, number_of_mines } => {
                "Attempting to create a grid with more mines than cells: "@ + decimal(total_cells as nat) + " cells ("@
                    + decimal(number_of_rows as nat) + "x"@ + decimal(number_of_columns as nat)
                    + " grid), but tried to insert "@ + decimal(number_of_mines as nat) + " mines"@
            },
        }
    }

    /// The text of the error, as a string.
    pub fn message(&self) -> (s: String)
        ensures
            s@ == self.text(),
    {
        match self {
            GridError::NoMines => String::from_str("Cannot create a grid with no mines"),
            GridError::TooManyMines { total_cells, number_of_rows, number_of_columns, number_of_mines } => {
                let mut s = String::from_str("Attempting to create a grid with more mines than cells: ");
                push_decimal(&mut s, *total_cells as u64);
                s.append(" cells (");
                push_decimal(&mut s, *number_of_rows as u64);
                s.append("x");
                push_decimal(&mut s, *number_of_columns as u64);
                s.append(" grid), but tried to insert ");
                push_decimal(&mut s, *number_of_mines as u64);
                s.append(" mines");
                s
            },
        }
    }
}

/// The thread-local random generator of `rand`.
#[verifier::external_type_specification]
#[verifier::external_body]
pub struct ExThreadRng(rand::rngs::ThreadRng);

/// Calls `rand::rng`: a handle to the thread-local generator. Nothing is
/// promised of it.
#[verifier::external_body]
fn thread_rng() -> rand::rngs::ThreadRng {
    rand::rng()
}

/// Calls `rand::seq::index::sample` and turns the `IndexVec` it gives into a
/// `Vec`. The crate documents the result as exactly `amount` distinct indices
/// from `0..length` in random order, and a panic when `amount > length`, which
/// the `requires` rules out. Which indices come back is left open: it is chance.
#[verifier::external_body]
fn sample_indices(rng: &mut rand::rngs::ThreadRng, length: usize, amount: usize) -> (indices: Vec<usize>)
    requires
        amount <= length,
    ensures
        indices@.len() == amount,
        forall|k: int| 0 <= k < indices@.len() ==> #[trigger] indices@[k] < length,
        forall|k: int, l: int| 0 <= k < l < indices@.len() ==> indices@[k] != indices@[l],
{
    rand::seq::index::sample(rng, length, amount).into_vec()
}

impl Grid {
    /// Puts a mine on square number `mined_cell_index` (counted row by row) and
    /// adds one to the count of mined neighbours of every square of the block
    /// around it, the square itself included.
    pub fn place_mine(rows: &mut Vec<Vec<Cell>>, number_of_columns: usize, mined_cell_index: usize)
        requires
            number_of_columns > 0,
            mined_cell_index / number_of_columns < old(rows)@.len(),
            mined_cell_index % number_of_columns < old(rows)@[(mined_cell_index / number_of_columns) as int]@.len(),
            forall|i: int, j: int|
                in_shape(rows_view(old(rows)@), i, j) && near(
                    i,
                    j,
                    (mined_cell_index / number_of_columns) as int,
                    (mined_cell_index % number_of_columns) as int,
                ) ==> (#[trigger] rows_view(old(rows)@)[i][j]).neighbouring_mines < 255,
        ensures
            final(rows)@.len() == old(rows)@.len(),
            forall|i: int| 0 <= i < old(rows)@.len() ==> (#[trigger] final(rows)@[i])@.len() == old(rows)@[i]@.len(),
            forall|i: int, j: int|
                in_shape(rows_view(old(rows)@), i, j) ==> #[trigger] rows_view(final(rows)@)[i][j] == mined_cell(
                    rows_view(old(rows)@),
                    (mined_cell_index / number_of_columns) as int,
                    (mined_cell_index % number_of_columns) as int,
                    i,
                    j,
                ),
    {
        let ghost c0 = rows_view(rows@);
        let row_index = mined_cell_index / number_of_columns;
        let column_index = mined_cell_index % number_of_columns;
        let ghost r = row_index as int;
        let ghost c = column_index as int;
        let lo_i = if row_index > 0 { row_index - 1 } else { 0 };
        let hi_i = if rows.len() - row_index >= 2 { row_index + 2 } else { rows.len() };
        rows[row_index][column_index].place_mine();
        let lo_j = if column_index > 0 { column_index - 1 } else { 0 };
        let mut i = lo_i;
        while i < hi_i
            invariant
                lo_i <= i <= hi_i,
                hi_i <= rows@.len(),
                lo_i == (if r > 0 { r - 1 } else { 0 }),
                hi_i == (if r + 2 < c0.len() { r + 2 } else { c0.len() as int }),
                lo_j == (if c > 0 { c - 1 } else { 0 }),
                row_index == r,
                column_index == c,
                rows@.len() == c0.len(),
                0 <= r < c0.len(),
                0 <= c < c0[r].len(),
                forall|x: int| 0 <= x < c0.len() ==> (#[trigger] rows@[x])@.len() == c0[x].len(),
                forall|x: int, y: int| in_shape(c0, x, y) && near(x, y, r, c) ==> (#[trigger] c0[x][y]).neighbouring_mines < 255,
                forall|x: int, y: int|
                    in_shape(c0, x, y) ==> #[trigger] rows_view(rows@)[x][y] == (if x < i {
                        mined_cell(c0, r, c, x, y)
                    } else {
                        Cell { is_mine: c0[x][y].is_mine || (x == r && y == c), ..c0[x][y] }
                    }),
            decreases hi_i - i,
        {
            let hi_j = if rows[i].len() > column_index && rows[i].len() - column_index >= 2 {
                column_index + 2
            } else {
                rows[i].len()
            };
            let mut j = lo_j;
            while j < hi_j
                invariant
                    lo_i <= i < hi_i,
                    hi_i <= rows@.len(),
                    lo_i == (if r > 0 { r - 1 } else { 0 }),
                    hi_i == (if r + 2 < c0.len() { r + 2 } else { c0.len() as int }),
                    lo_j == (if c > 0 { c - 1 } else { 0 }),
                    hi_j == (if c + 2 < c0[i as int].len() { c + 2 } else { c0[i as int].len() as int }),
                    lo_j <= j,
                    j <= hi_j || hi_j < lo_j,
                    row_index == r,
                    column_index == c,
                    rows@.len() == c0.len(),
                    0 <= r < c0.len(),
                    0 <= c < c0[r].len(),
                    forall|x: int| 0 <= x < c0.len() ==> (#[trigger] rows@[x])@.len() == c0[x].len(),
                    forall|x: int, y: int| in_shape(c0, x, y) && near(x, y, r, c) ==> (#[trigger] c0[x][y]).neighbouring_mines < 255,
                    forall|x: int, y: int|
                        in_shape(c0, x, y) ==> #[trigger] rows_view(rows@)[x][y] == (if x < i || (x == i && y < j) {
                            mined_cell(c0, r, c, x, y)
                        } else {
                            Cell { is_mine: c0[x][y].is_mine || (x == r && y == c), ..c0[x][y] }
                        }),
                decreases hi_j - j,
            {
                let ghost before = rows@;
                proof {
                    assert(in_shape(c0, i as int, j as int));
                    assert(rows_view(rows@)[i as int] == rows@[i as int]@);
                    assert(near(i as int, j as int, r, c));
                }
                rows[i][j].neighbouring_mines = rows[i][j].neighbouring_mines + 1;
                proof {
                    assert forall|x: int| 0 <= x < c0.len() implies (#[trigger] rows@[x])@.len() == c0[x].len() by {
                        if x != i {
                            assert(rows@[x] == before[x]);
                        }
                    }
                    assert forall|x: int, y: int| in_shape(c0, x, y) implies #[trigger] rows_view(rows@)[x][y] == (
                    if x < i || (x == i && y < j + 1) {
                        mined_cell(c0, r, c, x, y)
                    } else {
                        Cell { is_mine: c0[x][y].is_mine || (x == r && y == c), ..c0[x][y] }
                    }) by {
                        assert(rows_view(rows@)[x] == rows@[x]@);
                        assert(rows_view(before)[x] == before[x]@);
                        if x != i {
                            assert(rows@[x] == before[x]);
                        }
                    }
                }
                j = j + 1;
            }
            proof {
                assert forall|x: int, y: int| in_shape(c0, x, y) implies #[trigger] rows_view(rows@)[x][y] == (if x < i + 1 {
                    mined_cell(c0, r, c, x, y)
                } else {
                    Cell { is_mine: c0[x][y].is_mine || (x == r && y == c), ..c0[x][y] }
                }) by {
                    if x == i && y >= j {
                        assert(!near(x, y, r, c));
                    }
                }
            }
            i = i + 1;
        }
        proof {
            assert forall|x: int, y: int| in_shape(c0, x, y) implies #[trigger] rows_view(rows@)[x][y] == mined_cell(
                c0,
                r,
                c,
                x,
                y,
            ) by {
                if x >= i {
                    assert(!near(x, y, r, c));
                }
            }
        }
    }


}

/// A hidden, unflagged board of `h` rows of `w` squares, none mined.
fn blank_rows(h: usize, w: usize) -> (rows: Vec<Vec<Cell>>)
    ensures
        is_rect(rows_view(rows@), h as int, w as int),
        forall|i: int, j: int| in_shape(rows_view(rows@), i, j) ==> #[trigger] rows_view(rows@)[i][j] == Cell::blank(),
{
    let mut rows: Vec<Vec<Cell>> = Vec::new();
    let mut i: usize = 0;
    while i < h
        invariant
            i <= h,
            is_rect(rows_view(rows@), i as int, w as int),
            forall|x: int, y: int| in_shape(rows_view(rows@), x, y) ==> #[trigger] rows_view(rows@)[x][y] == Cell::blank(),
        decreases h - i,
    {
        let mut row: Vec<Cell> = Vec::new();
        let mut j: usize = 0;
        while j < w
            invariant
                j <= w,
                row@.len() == j,
                forall|y: int| 0 <= y < j ==> #[trigger] row@[y] == Cell::blank(),
            decreases w - j,
        {
            row.push(Cell::default());
            j = j + 1;
        }
        let ghost before = rows@;
        rows.push(row);
        proof {
            assert forall|x: int| 0 <= x < i + 1 implies #[trigger] rows_view(rows@)[x].len() == w by {
                assert(rows_view(rows@)[x] == rows@[x]@);
                if x < i {
                    assert(rows@[x] == before[x]);
                    assert(rows_view(before)[x] == before[x]@);
                }
            }
            assert forall|x: int, y: int| in_shape(rows_view(rows@), x, y) implies #[trigger] rows_view(
                rows@,
            )[x][y] == Cell::blank() by {
                assert(rows_view(rows@)[x] == rows@[x]@);
                if x < i {
                    assert(rows@[x] == before[x]);
                    assert(rows_view(before)[x] == before[x]@);
                    assert(in_shape(rows_view(before), x, y));
                }
            }
        }
        i = i + 1;
    }
    rows
}

impl Grid {
    /// A well-formed board.
    pub open spec fn wf(&self) -> bool {
        self@.wf()
    }

    /// The board of `number_of_rows` by `number_of_columns` squares with a mine
    /// on each square whose number (counted row by row) is in `mine_indices`,
    /// every square hidden and unflagged and knowing the mines around it, and
    /// the cursor in the top left corner.
    pub fn from_mine_indices(number_of_rows: usize, number_of_columns: usize, mine_indices: &Vec<usize>) -> (grid: Grid)
        requires
            number_of_rows >= 1,
            number_of_columns >= 1,
            number_of_rows * number_of_columns <= usize::MAX,
            mine_indices@.len() <= number_of_rows * number_of_columns,
            forall|k: int| 0 <= k < mine_indices@.len() ==> #[trigger] mine_indices@[k] < number_of_rows * number_of_columns,
            forall|k: int, l: int| 0 <= k < l < mine_indices@.len() ==> mine_indices@[k] != mine_indices@[l],
        ensures
            grid.wf(),
            grid@.height == number_of_rows,
            grid@.width == number_of_columns,
            grid@.cursor_row == 0,
            grid@.cursor_column == 0,
            grid@.remaining_empty_cells == number_of_rows * number_of_columns - mine_indices@.len(),
            forall|i: int, j: int|
                in_shape(grid@.cells, i, j) ==> {
                    let c = #[trigger] grid@.cells[i][j];
                    &&& !c.flagged
                    &&& !c.revealed
                    &&& c.is_mine == mine_indices@.contains(flat_index(i, j, number_of_columns as int) as usize)
                },
            grid@.counts_consistent(),
            grid@.mine_count() == mine_indices@.len(),
    {
        let h = number_of_rows;
        let w = number_of_columns;
        let mut rows = blank_rows(h, w);
        let mut k: usize = 0;
        proof {
            let c = rows_view(rows@);
            assert forall|i: int, j: int| in_shape(c, i, j) implies #[trigger] c[i][j].neighbouring_mines
                == mines_around(c, i, j) by {
                assert(mine_at(c, i - 1, j - 1) == 0);
                assert(mine_at(c, i - 1, j) == 0);
                assert(mine_at(c, i - 1, j + 1) == 0);
                assert(mine_at(c, i, j - 1) == 0);
                assert(mine_at(c, i, j) == 0);
                assert(mine_at(c, i, j + 1) == 0);
                assert(mine_at(c, i + 1, j - 1) == 0);
                assert(mine_at(c, i + 1, j) == 0);
                assert(mine_at(c, i + 1, j + 1) == 0);
            }
            lemma_count_none(|i: int, j: int| c[i][j].is_mine, c);
            assert(mine_indices@.subrange(0, 0) =~= Seq::<usize>::empty());
        }
        while k < mine_indices.len()
            invariant
                k <= mine_indices@.len(),
                h == number_of_rows,
                w == number_of_columns,
                h >= 1,
                w >= 1,
                h * w <= usize::MAX,
                forall|t: int| 0 <= t < mine_indices@.len() ==> #[trigger] mine_indices@[t] < h * w,
                forall|t: int, l: int| 0 <= t < l < mine_indices@.len() ==> mine_indices@[t] != mine_indices@[l],
                is_rect(rows_view(rows@), h as int, w as int),
                forall|i: int, j: int|
                    in_shape(rows_view(rows@), i, j) ==> {
                        let c = #[trigger] rows_view(rows@)[i][j];
                        &&& !c.flagged
                        &&& !c.revealed
                        &&& c.is_mine == mine_indices@.subrange(0, k as int).contains(flat_index(i, j, w as int) as usize)
                    },
                counts_consistent(rows_view(rows@)),
                count_cells(|i: int, j: int| rows_view(rows@)[i][j].is_mine, rows_view(rows@)) == k,
            decreases mine_indices@.len() - k,
        {
            let idx = mine_indices[k];
            let ghost c0 = rows_view(rows@);
            let ghost prefix = mine_indices@.subrange(0, k as int);
            proof {
                if prefix.contains(idx) {
                    let t = choose|t: int| 0 <= t < k && prefix[t] == idx;
                    assert(mine_indices@[t] == mine_indices@[k as int]);
                }
                lemma_place_pre(c0, h as int, w as int, prefix, idx as int);
            }
            Grid::place_mine(&mut rows, w, idx);
            proof {
                let c1 = rows_view(rows@);
                assert(mine_indices@.subrange(0, k + 1) =~= prefix.push(idx));
                assert forall|i: int| 0 <= i < c0.len() implies #[trigger] c1[i].len() == c0[i].len() by {
                    assert(c1[i] == rows@[i]@);
                }
                lemma_place_post(c0, c1, h as int, w as int, prefix, idx);
            }
            k = k + 1;
        }
        proof {
            assert(mine_indices@.subrange(0, mine_indices@.len() as int) =~= mine_indices@);
        }
        Grid {
            number_of_rows: h,
            number_of_columns: w,
            rows,
            cursor_row: 0,
            cursor_column: 0,
            remaining_empty_cells: h * w - mine_indices.len(),
        }
    }
    /// A new board of `number_of_rows` by `number_of_columns` squares with
    /// `number_of_mines` mines on squares drawn at random: every square hidden,
    /// unflagged and knowing the mines around it, and the cursor at the top
    /// left. Refused without mines, or with more mines than squares.
    pub fn new(number_of_rows: usize, number_of_columns: usize, number_of_mines: usize) -> (result: Result<Grid, GridError>)
        requires
            number_of_mines > 0 ==> number_of_rows * number_of_columns <= usize::MAX,
        ensures
            number_of_mines == 0 ==> result == Err::<Grid, GridError>(GridError::NoMines),
            number_of_mines > 0 && number_of_mines > number_of_rows * number_of_columns ==> result == Err::<
                Grid,
                GridError,
            >(
                GridError::TooManyMines {
                    total_cells: (number_of_rows * number_of_columns) as usize,
                    number_of_rows,
                    number_of_columns,
                    number_of_mines,
                },
            ),
            number_of_mines > 0 && number_of_mines <= number_of_rows * number_of_columns ==> (result matches Ok(
                grid,
            ) && grid@.is_fresh(number_of_rows as nat, number_of_columns as nat, number_of_mines as nat)),
    {
        if number_of_mines == 0 {
            return Err(GridError::NoMines);
        }
        let total_cells = number_of_rows * number_of_columns;
        if number_of_mines > total_cells {
            return Err(
                GridError::TooManyMines { total_cells, number_of_rows, number_of_columns, number_of_mines },
            );
        }
        proof {
            if number_of_rows == 0 || number_of_columns == 0 {
                assert(number_of_rows * number_of_columns == 0) by (nonlinear_arith)
                    requires
                        number_of_rows == 0 || number_of_columns == 0,
                ;
            }
        }
        let mut rng = thread_rng();
        let mine_indices = sample_indices(&mut rng, total_cells, number_of_mines);
        let grid = Grid::from_mine_indices(number_of_rows, number_of_columns, &mine_indices);
        Ok(grid)
    }

    /// A board of the given rows of squares (at least one row; the rows may
    /// differ in length), as wide as its first row, with the cursor at the top
    /// left, counting as safe and hidden all the squares of a full rectangle
    /// less the mines it holds.
    pub fn custom(rows: Vec<Vec<Cell>>) -> (grid: Grid)
        requires
            rows@.len() > 0,
            rows@.len() * rows@[0]@.len() <= usize::MAX,
            count_cells(|i: int, j: int| rows_view(rows@)[i][j].is_mine, rows_view(rows@)) <= rows@.len()
                * rows@[0]@.len(),
        ensures
            grid@ == (GridState {
                cells: rows_view(rows@),
                height: rows@.len(),
                width: rows@[0]@.len(),
                cursor_row: 0,
                cursor_column: 0,
                remaining_empty_cells: (rows@.len() * rows@[0]@.len() - count_cells(
                    |i: int, j: int| rows_view(rows@)[i][j].is_mine,
                    rows_view(rows@),
                )) as nat,
            }),
    {
        let number_of_rows = rows.len();
        let number_of_columns = rows[0].len();
        let number_of_mines = count_mines(&rows);
        Grid {
            rows: rows,
            number_of_rows,
            number_of_columns,
            cursor_row: 0,
            cursor_column: 0,
            remaining_empty_cells: (number_of_rows * number_of_columns) - number_of_mines,
        }
    }

    /// The square under the cursor.
    pub fn current_cell(&self) -> (cell: &Cell)
        requires
            self@.cursor_on_board(),
        ensures
            *cell == self@.current(),
    {
        proof {
            assert(self@.cells[self.cursor_row as int] == self.rows@[self.cursor_row as int]@);
        }
        &self.rows[self.cursor_row][self.cursor_column]
    }

    /// Moves the cursor one column right, from the last column to the first.
    pub fn move_cursor_right(&mut self)
        requires
            old(self)@.width > 0,
            old(self)@.cursor_column < usize::MAX,
        ensures
            final(self)@ == (GridState {
                cursor_column: next_index(old(self)@.cursor_column, old(self)@.width),
                ..old(self)@
            }),
    {
        self.cursor_column = (self.cursor_column + 1) % self.number_of_columns;
    }

    /// Moves the cursor one column left, from the first column to the last.
    pub fn move_cursor_left(&mut self)
        requires
            old(self)@.width > 0,
        ensures
            final(self)@ == (GridState {
                cursor_column: prev_index(old(self)@.cursor_column, old(self)@.width),
                ..old(self)@
            }),
    {
        let step = match self.cursor_column.checked_sub(1) {
            Some(c) => c,
            None => self.number_of_columns - 1,
        };
        proof {
            if self.cursor_column == 0 {
                vstd::arithmetic::div_mod::lemma_small_mod(step as nat, self.number_of_columns as nat);
            }
        }
        self.cursor_column = step % self.number_of_columns;
    }

    /// Moves the cursor one row down, from the last row to the first.
    pub fn move_cursor_down(&mut self)
        requires
            old(self)@.height > 0,
            old(self)@.cursor_row < usize::MAX,
        ensures
            final(self)@ == (GridState { cursor_row: next_index(old(self)@.cursor_row, old(self)@.height), ..old(self)@ }),
    {
        self.cursor_row = (self.cursor_row + 1) % self.number_of_rows;
    }

    /// Moves the cursor one row up, from the first row to the last.
    pub fn move_cursor_up(&mut self)
        requires
            old(self)@.height > 0,
        ensures
            final(self)@ == (GridState { cursor_row: prev_index(old(self)@.cursor_row, old(self)@.height), ..old(self)@ }),
    {
        let step = match self.cursor_row.checked_sub(1) {
            Some(c) => c,
            None => self.number_of_rows - 1,
        };
        proof {
            if self.cursor_row == 0 {
                vstd::arithmetic::div_mod::lemma_small_mod(step as nat, self.number_of_rows as nat);
            }
        }
        self.cursor_row = step % self.number_of_rows;
    }

    /// Reveals the square under the cursor and floods on from every revealed
    /// square with no mine around it; the board counts that many fewer safe
    /// squares as hidden.
    pub fn reveal_cell(&mut self)
        requires
            old(self).wf(),
            old(self)@.reveal_fits(),
        ensures
            final(self).wf(),
            final(self)@ == old(self)@.after_reveal(),
    {
        let ghost before = self@;
        let n = flood_reveal(&mut self.rows, self.number_of_rows, self.number_of_columns, self.cursor_row, self.cursor_column);
        self.remaining_empty_cells = self.remaining_empty_cells - n;
        proof {
            let target = flooded(before.cells, before.cursor_row as int, before.cursor_column as int);
            assert forall|i: int| 0 <= i < before.height implies #[trigger] self@.cells[i] =~= target[i] by {
                assert(self@.cells[i].len() == before.width);
                assert(before.cells[i].len() == before.width);
            }
            assert(self@.cells =~= target);
        }
    }

    /// Flips the flag of the square under the cursor.
    pub fn flag_cell(&mut self)
        requires
            old(self)@.cursor_on_board(),
        ensures
            old(self).wf() ==> final(self).wf(),
            final(self)@ == old(self)@.after_flag(),
    {
        let ghost before = self@;
        proof {
            assert(before.cells[self.cursor_row as int] == self.rows@[self.cursor_row as int]@);
        }
        self.rows[self.cursor_row][self.cursor_column].toggle_flag();
        proof {
            let target = before.after_flag().cells;
            assert forall|i: int| 0 <= i < before.cells.len() implies #[trigger] self@.cells[i] =~= target[i] by {
                assert(self@.cells[i] == self.rows@[i]@);
            }
            assert(self@.cells =~= target);
        }
    }

    /// Whether no safe square is left hidden.
    pub fn finished(&self) -> (done: bool)
        ensures
            done == (self@.remaining_empty_cells == 0),
    {
        self.remaining_empty_cells == 0
    }

    /// Whether revealing the square under the cursor fits the count of hidden
    /// safe squares, found by flooding a copy of the board.
    pub fn reveal_fits(&self) -> (fits: bool)
        requires
            self.wf(),
        ensures
            fits == self@.reveal_fits(),
    {
        let mut copy = copy_rows(&self.rows);
        let n = flood_reveal(&mut copy, self.number_of_rows, self.number_of_columns, self.cursor_row, self.cursor_column);
        n <= self.remaining_empty_cells
    }

    /// The number of rows.
    pub fn rows(&self) -> (n: usize)
        ensures
            n == self@.height,
    {
        self.number_of_rows
    }

    /// The number of columns.
    pub fn columns(&self) -> (n: usize)
        ensures
            n == self@.width,
    {
        self.number_of_columns
    }

    /// The number of mined squares.
    pub fn mines(&self) -> (n: usize)
        requires
            self@.mine_count() <= usize::MAX,
        ensures
            n == self@.mine_count(),
    {
        count_mines(&self.rows)
    }

    /// The row of the cursor.
    pub fn cursor_row(&self) -> (r: usize)
        ensures
            r == self@.cursor_row,
    {
        self.cursor_row
    }

    /// The column of the cursor.
    pub fn cursor_column(&self) -> (c: usize)
        ensures
            c == self@.cursor_column,
    {
        self.cursor_column
    }

    /// How many safe squares the board counts as hidden.
    pub fn remaining_empty_cells(&self) -> (n: usize)
        ensures
            n == self@.remaining_empty_cells,
    {
        self.remaining_empty_cells
    }

    /// The squares, row by row.
    pub fn cells(&self) -> (rows: &Vec<Vec<Cell>>)
        ensures
            rows_view(rows@) == self@.cells,
    {
        &self.rows
    }
}

impl Default for Grid {
    /// The board without squares.
    fn default() -> (grid: Grid)
        ensures
            grid@ == (GridState {
                cells: Seq::empty(),
                height: 0,
                width: 0,
                cursor_row: 0,
                cursor_column: 0,
                remaining_empty_cells: 0,
            }),
    {
        let grid = Grid {
            number_of_rows: 0,
            number_of_columns: 0,
            rows: Vec::new(),
            cursor_row: 0,
            cursor_column: 0,
            remaining_empty_cells: 0,
        };
        proof {
            assert(grid@.cells =~= Seq::<Seq<Cell>>::empty());
        }
        grid
    }
}

/// The number of mined squares of the rows, walked row by row.
fn count_mines(rows: &Vec<Vec<Cell>>) -> (n: usize)
    requires
        count_cells(|i: int, j: int| rows_view(rows@)[i][j].is_mine, rows_view(rows@)) <= usize::MAX,
    ensures
        n == count_cells(|i: int, j: int| rows_view(rows@)[i][j].is_mine, rows_view(rows@)),
{
    let ghost c = rows_view(rows@);
    let ghost f = |i: int, j: int| c[i][j].is_mine;
    let mut n: usize = 0;
    let mut i: usize = 0;
    while i < rows.len()
        invariant
            i <= rows@.len(),
            c == rows_view(rows@),
            f == (|i: int, j: int| c[i][j].is_mine),
            count_cells(f, c) <= usize::MAX,
            n == count_rows(f, c, i as int),
        decreases rows@.len() - i,
    {
        let mut j: usize = 0;
        proof {
            assert(c[i as int] == rows@[i as int]@);
        }
        while j < rows[i].len()
            invariant
                i < rows@.len(),
                j <= rows@[i as int]@.len(),
                c == rows_view(rows@),
                c[i as int] == rows@[i as int]@,
                f == (|i: int, j: int| c[i][j].is_mine),
                count_cells(f, c) <= usize::MAX,
                n == count_rows(f, c, i as int) + count_row(f, i as int, j as int),
            decreases rows@[i as int]@.len() - j,
        {
            proof {
                lemma_count_partial(f, c, i as int, (j + 1) as int);
            }
            if rows[i][j].is_mine {
                n = n + 1;
            }
            j = j + 1;
        }
        i = i + 1;
    }
    n
}

/// A copy of the rows, square by square.
fn copy_rows(rows: &Vec<Vec<Cell>>) -> (copy: Vec<Vec<Cell>>)
    ensures
        rows_view(copy@) == rows_view(rows@),
{
    let mut copy: Vec<Vec<Cell>> = Vec::new();
    let mut i: usize = 0;
    while i < rows.len()
        invariant
            i <= rows@.len(),
            copy@.len() == i,
            forall|x: int| 0 <= x < i ==> (#[trigger] copy@[x])@ == rows@[x]@,
        decreases rows@.len() - i,
    {
        let mut row: Vec<Cell> = Vec::new();
        let mut j: usize = 0;
        while j < rows[i].len()
            invariant
                i < rows@.len(),
                j <= rows@[i as int]@.len(),
                row@ == rows@[i as int]@.subrange(0, j as int),
            decreases rows@[i as int]@.len() - j,
        {
            row.push(rows[i][j]);
            j = j + 1;
            proof {
                assert(row@ =~= rows@[i as int]@.subrange(0, j as int));
            }
        }
        proof {
            assert(row@ =~= rows@[i as int]@);
        }
        copy.push(row);
        i = i + 1;
    }
    proof {
        assert(rows_view(copy@) =~= rows_view(rows@));
    }
    copy
}

} // verus!
