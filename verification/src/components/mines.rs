//! Where the mines are, and how each square counts the mines around it.
use vstd::prelude::*;

use crate::components::cell::Cell;
use crate::components::count::{
    count_cells, in_shape, is_rect, lemma_count_insert, lemma_count_same_shape,
};
use crate::components::flood::near;

verus! {

/// `1` where `(i, j)` is a mined square of the board, `0` elsewhere (off the board too).
pub open spec fn mine_at(cells: Seq<Seq<Cell>>, i: int, j: int) -> nat {
    if in_shape(cells, i, j) && cells[i][j].is_mine {
        1
    } else {
        0
    }
}

/// The number of mines in the three by three block centred on `(i, j)`,
/// the square itself included.
pub open spec fn mines_around(cells: Seq<Seq<Cell>>, i: int, j: int) -> nat {
    mine_at(cells, i - 1, j - 1) + mine_at(cells, i - 1, j) + mine_at(cells, i - 1, j + 1)
        + mine_at(cells, i, j - 1) + mine_at(cells, i, j) + mine_at(cells, i, j + 1)
        + mine_at(cells, i + 1, j - 1) + mine_at(cells, i + 1, j) + mine_at(cells, i + 1, j + 1)
}

/// Every square records the number of mines in its block.
pub open spec fn counts_consistent(cells: Seq<Seq<Cell>>) -> bool {
    forall|i: int, j: int|
        in_shape(cells, i, j) ==> #[trigger] cells[i][j].neighbouring_mines == mines_around(cells, i, j)
}

/// The square at `(i, j)` once a mine is placed at `(r, c)`: the mine itself
/// at `(r, c)`, and one more mined neighbour in the block around `(r, c)`.
pub open spec fn mined_cell(cells: Seq<Seq<Cell>>, r: int, c: int, i: int, j: int) -> Cell {
    let old_cell = cells[i][j];
    Cell {
        is_mine: old_cell.is_mine || (i == r && j == c),
        neighbouring_mines: if near(i, j, r, c) {
            (old_cell.neighbouring_mines + 1) as u8
        } else {
            old_cell.neighbouring_mines
        },
        ..old_cell
    }
}


pub(crate) proof fn lemma_contains_push<T>(s: Seq<T>, e: T, x: T)
    ensures
        s.push(e).contains(x) == (s.contains(x) || x == e),
{
    if s.contains(x) {
        let k = choose|k: int| 0 <= k < s.len() && s[k] == x;
        assert(s.push(e)[k] == x);
    }
    if x == e {
        assert(s.push(e)[s.len() as int] == e);
    }
    if s.push(e).contains(x) {
        let k = choose|k: int| 0 <= k < s.push(e).len() && s.push(e)[k] == x;
        if k < s.len() {
            assert(s[k] == x);
        }
    }
}

/// The number of square `(i, j)` of a board `w` columns wide, counted row by row.
#[verifier::opaque]
pub open spec fn flat_index(i: int, j: int, w: int) -> int {
    i * w + j
}

/// A square of an `h` by `w` board has a number below `h * w`.
pub(crate) proof fn lemma_flat_index_bound(i: int, j: int, h: int, w: int)
    requires
        0 <= i < h,
        0 <= j < w,
    ensures
        0 <= flat_index(i, j, w) < h * w,
{
    reveal(flat_index);
    assert(0 <= i * w + j < h * w) by (nonlinear_arith)
        requires
            0 <= i < h,
            0 <= j < w,
    ;
}

/// Square `(i, j)` of a `w` columns wide board is square number `i * w + j`.
pub(crate) proof fn lemma_flat_index(i: int, j: int, w: int, idx: int)
    requires
        w > 0,
        0 <= j < w,
        0 <= idx,
    ensures
        (flat_index(i, j, w) == idx) <==> (i == idx / w && j == idx % w),
{
    reveal(flat_index);
    vstd::arithmetic::div_mod::lemma_fundamental_div_mod(idx, w);
    if i * w + j == idx {
        vstd::arithmetic::div_mod::lemma_fundamental_div_mod_converse_div(idx, w, i, j);
        vstd::arithmetic::div_mod::lemma_fundamental_div_mod_converse_mod(idx, w, i, j);
    }
    if i == idx / w && j == idx % w {
        assert(w * (idx / w) == i * w) by (nonlinear_arith) requires i == idx / w;
    }
}

/// Placing a mine at `(r, cc)` adds a mine there and nowhere else.
pub(crate) proof fn lemma_mine_at_after(c0: Seq<Seq<Cell>>, c1: Seq<Seq<Cell>>, r: int, cc: int, x: int, y: int)
    requires
        c0.len() == c1.len(),
        forall|i: int| 0 <= i < c0.len() ==> #[trigger] c1[i].len() == c0[i].len(),
        forall|i: int, j: int| in_shape(c0, i, j) ==> #[trigger] c1[i][j] == mined_cell(c0, r, cc, i, j),
        in_shape(c0, r, cc),
        !c0[r][cc].is_mine,
    ensures
        mine_at(c1, x, y) == mine_at(c0, x, y) + (if x == r && y == cc { 1int } else { 0int }),
{
    if in_shape(c0, x, y) {
        assert(c1[x][y] == mined_cell(c0, r, cc, x, y));
    }
}

pub(crate) proof fn lemma_mines_around_after(c0: Seq<Seq<Cell>>, c1: Seq<Seq<Cell>>, r: int, cc: int, i: int, j: int)
    requires
        c0.len() == c1.len(),
        forall|i: int| 0 <= i < c0.len() ==> #[trigger] c1[i].len() == c0[i].len(),
        forall|i: int, j: int| in_shape(c0, i, j) ==> #[trigger] c1[i][j] == mined_cell(c0, r, cc, i, j),
        in_shape(c0, r, cc),
        !c0[r][cc].is_mine,
    ensures
        mines_around(c1, i, j) == mines_around(c0, i, j) + (if near(i, j, r, cc) { 1int } else { 0int }),
        mines_around(c0, i, j) <= 9,
{
    lemma_mine_at_after(c0, c1, r, cc, i - 1, j - 1);
    lemma_mine_at_after(c0, c1, r, cc, i - 1, j);
    lemma_mine_at_after(c0, c1, r, cc, i - 1, j + 1);
    lemma_mine_at_after(c0, c1, r, cc, i, j - 1);
    lemma_mine_at_after(c0, c1, r, cc, i, j);
    lemma_mine_at_after(c0, c1, r, cc, i, j + 1);
    lemma_mine_at_after(c0, c1, r, cc, i + 1, j - 1);
    lemma_mine_at_after(c0, c1, r, cc, i + 1, j);
    lemma_mine_at_after(c0, c1, r, cc, i + 1, j + 1);
}

pub(crate) proof fn lemma_count_after_cell(c0: Seq<Seq<Cell>>, c1: Seq<Seq<Cell>>, r: int, cc: int, i: int, j: int)
    requires
        c0.len() == c1.len(),
        forall|i: int| 0 <= i < c0.len() ==> #[trigger] c1[i].len() == c0[i].len(),
        forall|i: int, j: int| in_shape(c0, i, j) ==> #[trigger] c1[i][j] == mined_cell(c0, r, cc, i, j),
        counts_consistent(c0),
        in_shape(c0, r, cc),
        !c0[r][cc].is_mine,
        in_shape(c1, i, j),
    ensures
        c1[i][j].neighbouring_mines == mines_around(c1, i, j),
{
    assert(in_shape(c0, i, j));
    assert(c1[i][j] == mined_cell(c0, r, cc, i, j));
    assert(c0[i][j].neighbouring_mines == mines_around(c0, i, j));
    lemma_mines_around_after(c0, c1, r, cc, i, j);
}

/// Placing a mine on a square without one keeps every square's count of
/// mines around it right, and adds one mine to the board.
#[verifier::spinoff_prover]
pub(crate) proof fn lemma_place_keeps_counts(c0: Seq<Seq<Cell>>, c1: Seq<Seq<Cell>>, r: int, cc: int)
    requires
        c0.len() == c1.len(),
        forall|i: int| 0 <= i < c0.len() ==> #[trigger] c1[i].len() == c0[i].len(),
        forall|i: int, j: int| in_shape(c0, i, j) ==> #[trigger] c1[i][j] == mined_cell(c0, r, cc, i, j),
        counts_consistent(c0),
        in_shape(c0, r, cc),
        !c0[r][cc].is_mine,
    ensures
        counts_consistent(c1),
        count_cells(|i: int, j: int| c1[i][j].is_mine, c1) == count_cells(|i: int, j: int| c0[i][j].is_mine, c0) + 1,
{
    assert forall|i: int, j: int| in_shape(c1, i, j) implies #[trigger] c1[i][j].neighbouring_mines
        == mines_around(c1, i, j) by {
        lemma_count_after_cell(c0, c1, r, cc, i, j);
    }
    assert(c1[r][cc] == mined_cell(c0, r, cc, r, cc));
    assert forall|i: int, j: int| in_shape(c0, i, j) && !(i == r && j == cc) implies #[trigger] c0[i][j].is_mine
        == c1[i][j].is_mine by {
        assert(c1[i][j] == mined_cell(c0, r, cc, i, j));
    }
    lemma_count_insert(|i: int, j: int| c0[i][j].is_mine, |i: int, j: int| c1[i][j].is_mine, c0, r, cc);
    lemma_count_same_shape(|i: int, j: int| c1[i][j].is_mine, c0, c1);
}

/// Before placing mine number `idx` (not placed yet) on a board whose mines are
/// those of `prefix`: its square is on the board, holds no mine, and the squares
/// around it have room to count one more mine.
pub(crate) proof fn lemma_place_pre(c0: Seq<Seq<Cell>>, h: int, w: int, prefix: Seq<usize>, idx: int)
    requires
        h >= 1,
        w >= 1,
        0 <= idx < h * w,
        is_rect(c0, h, w),
        !prefix.contains(idx as usize),
        forall|i: int, j: int|
            in_shape(c0, i, j) ==> (#[trigger] c0[i][j]).is_mine == prefix.contains(flat_index(i, j, w) as usize),
        counts_consistent(c0),
    ensures
        0 <= idx / w < h,
        in_shape(c0, idx / w, idx % w),
        !c0[idx / w][idx % w].is_mine,
        forall|i: int, j: int|
            in_shape(c0, i, j) && near(i, j, idx / w, idx % w) ==> (#[trigger] c0[i][j]).neighbouring_mines < 255,
{
    let r = idx / w;
    let cc = idx % w;
    vstd::arithmetic::div_mod::lemma_fundamental_div_mod(idx, w);
    assert(r < h) by (nonlinear_arith)
        requires
            w >= 1,
            idx == w * r + cc,
            0 <= cc,
            idx < h * w,
            r >= 0,
    ;
    assert(c0[r].len() == w);
    lemma_flat_index(r, cc, w, idx);
    assert(flat_index(r, cc, w) == idx);
    assert(c0[r][cc].is_mine == prefix.contains(flat_index(r, cc, w) as usize));
    assert forall|i: int, j: int| in_shape(c0, i, j) && near(i, j, r, cc) implies (
    #[trigger] c0[i][j]).neighbouring_mines < 255 by {
        assert(c0[i][j].neighbouring_mines == mines_around(c0, i, j));
    }
}

#[verifier::spinoff_prover]
pub(crate) proof fn lemma_place_post_cell(
    c0: Seq<Seq<Cell>>,
    c1: Seq<Seq<Cell>>,
    h: int,
    w: int,
    prefix: Seq<usize>,
    idx: usize,
    i: int,
    j: int,
)
    requires
        h >= 1,
        w >= 1,
        0 <= idx < h * w,
        h * w <= usize::MAX,
        is_rect(c0, h, w),
        c0.len() == c1.len(),
        forall|i: int| 0 <= i < c0.len() ==> #[trigger] c1[i].len() == c0[i].len(),
        forall|i: int, j: int|
            in_shape(c0, i, j) ==> #[trigger] c1[i][j] == mined_cell(c0, (idx as int) / w, (idx as int) % w, i, j),
        forall|i: int, j: int|
            in_shape(c0, i, j) ==> {
                let c = #[trigger] c0[i][j];
                &&& !c.flagged
                &&& !c.revealed
                &&& c.is_mine == prefix.contains(flat_index(i, j, w) as usize)
            },
        in_shape(c1, i, j),
    ensures
        !c1[i][j].flagged,
        !c1[i][j].revealed,
        c1[i][j].is_mine == prefix.push(idx).contains(flat_index(i, j, w) as usize),
{
    assert(in_shape(c0, i, j));
    assert(c1[i][j] == mined_cell(c0, (idx as int) / w, (idx as int) % w, i, j));
    lemma_contains_push(prefix, idx, flat_index(i, j, w) as usize);
    lemma_flat_index(i, j, w, idx as int);
    lemma_flat_index_bound(i, j, h, w);
}

/// After placing mine number `idx`, the board's mines are those of
/// `prefix.push(idx)`, every count is still right and there is one more mine.
#[verifier::spinoff_prover]
pub(crate) proof fn lemma_place_post(c0: Seq<Seq<Cell>>, c1: Seq<Seq<Cell>>, h: int, w: int, prefix: Seq<usize>, idx: usize)
    requires
        h >= 1,
        w >= 1,
        0 <= idx < h * w,
        h * w <= usize::MAX,
        is_rect(c0, h, w),
        c0.len() == c1.len(),
        forall|i: int| 0 <= i < c0.len() ==> #[trigger] c1[i].len() == c0[i].len(),
        forall|i: int, j: int|
            in_shape(c0, i, j) ==> #[trigger] c1[i][j] == mined_cell(c0, (idx as int) / w, (idx as int) % w, i, j),
        0 <= (idx as int) / w < h,
        in_shape(c0, (idx as int) / w, (idx as int) % w),
        !c0[(idx as int) / w][(idx as int) % w].is_mine,
        forall|i: int, j: int|
            in_shape(c0, i, j) ==> {
                let c = #[trigger] c0[i][j];
                &&& !c.flagged
                &&& !c.revealed
                &&& c.is_mine == prefix.contains(flat_index(i, j, w) as usize)
            },
        counts_consistent(c0),
    ensures
        is_rect(c1, h, w),
        forall|i: int, j: int|
            in_shape(c1, i, j) ==> {
                let c = #[trigger] c1[i][j];
                &&& !c.flagged
                &&& !c.revealed
                &&& c.is_mine == prefix.push(idx).contains(flat_index(i, j, w) as usize)
            },
        counts_consistent(c1),
        count_cells(|i: int, j: int| c1[i][j].is_mine, c1) == count_cells(|i: int, j: int| c0[i][j].is_mine, c0) + 1,
{
    let r = (idx as int) / w;
    let cc = (idx as int) % w;
    assert forall|i: int| 0 <= i < h implies #[trigger] c1[i].len() == w by {
        assert(c0[i].len() == w);
    }
    assert forall|i: int, j: int| in_shape(c1, i, j) implies {
        let c = #[trigger] c1[i][j];
        &&& !c.flagged
        &&& !c.revealed
        &&& c.is_mine == prefix.push(idx).contains(flat_index(i, j, w) as usize)
    } by {
        lemma_place_post_cell(c0, c1, h, w, prefix, idx, i, j);
    }
    lemma_place_keeps_counts(c0, c1, r, cc);
}

} // verus!
