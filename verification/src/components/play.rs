//! What the board keeps true through a round: the count of hidden safe
//! squares stays right, so the round ends exactly when every safe square is
//! revealed; the flood never opens a mine; and the other moves change nothing
//! that matters.
use vstd::prelude::*;

use crate::components::cell::Cell;
use crate::components::count::{
    count_cells, in_shape, lemma_count_all, lemma_count_ext, lemma_count_insert, lemma_count_mono,
    lemma_count_none, lemma_count_same_shape, lemma_count_split,
};
use crate::components::flood::{flood_count, flooded, flooded_cell, in_reach, near, reached};
use crate::components::grid::GridState;
use crate::components::mines::{counts_consistent, mine_at, mines_around};

verus! {

impl GridState {
    /// A board in play: well formed, every square knowing the mines around
    /// it, and the count of hidden safe squares right.
    pub open spec fn in_play(self) -> bool {
        &&& self.wf()
        &&& self.counts_consistent()
        &&& self.remaining_empty_cells == self.hidden_safe_count()
    }

    /// Every square without a mine is revealed.
    pub open spec fn cleared(self) -> bool {
        forall|i: int, j: int| in_shape(self.cells, i, j) && !(#[trigger] self.cells[i][j]).is_mine ==> self.cells[i][j].revealed
    }
}

/// A square next to one that has no mine around it holds no mine.
proof fn lemma_no_mine_next_to_zero(cells: Seq<Seq<Cell>>, a: int, b: int, i: int, j: int)
    requires
        mines_around(cells, a, b) == 0,
        near(a, b, i, j),
        in_shape(cells, i, j),
    ensures
        !cells[i][j].is_mine,
{
    assert(mine_at(cells, i, j) == 0) by {
        if i == a - 1 && j == b - 1 {
        } else if i == a - 1 && j == b {
        } else if i == a - 1 && j == b + 1 {
        } else if i == a && j == b - 1 {
        } else if i == a && j == b {
        } else if i == a && j == b + 1 {
        } else if i == a + 1 && j == b - 1 {
        } else if i == a + 1 && j == b {
        } else {
            assert(i == a + 1 && j == b + 1);
        }
    }
}

/// From a safe start on a board whose squares know the mines around them,
/// the flood reaches no mine.
pub proof fn lemma_flood_avoids_mines(cells: Seq<Seq<Cell>>, si: int, sj: int, k: nat, i: int, j: int)
    requires
        counts_consistent(cells),
        in_shape(cells, si, sj),
        !cells[si][sj].is_mine,
        in_reach(cells, si, sj, k, i, j),
    ensures
        !cells[i][j].is_mine,
    decreases k,
{
    if k > 0 {
        if in_reach(cells, si, sj, (k - 1) as nat, i, j) {
            lemma_flood_avoids_mines(cells, si, sj, (k - 1) as nat, i, j);
        } else {
            let (a, b) = choose|a: int, b: int|
                #[trigger] near(a, b, i, j) && in_shape(cells, a, b) && cells[a][b].neighbouring_mines == 0
                    && in_reach(cells, si, sj, (k - 1) as nat, a, b);
            assert(cells[a][b].neighbouring_mines == mines_around(cells, a, b));
            lemma_no_mine_next_to_zero(cells, a, b, i, j);
        }
    }
}

/// From a mined start on a board whose squares know the mines around them,
/// the flood reaches nothing but the start.
pub proof fn lemma_flood_from_mine(cells: Seq<Seq<Cell>>, si: int, sj: int, k: nat, i: int, j: int)
    requires
        counts_consistent(cells),
        in_shape(cells, si, sj),
        cells[si][sj].is_mine,
        in_reach(cells, si, sj, k, i, j),
    ensures
        i == si && j == sj,
    decreases k,
{
    if k > 0 {
        if in_reach(cells, si, sj, (k - 1) as nat, i, j) {
            lemma_flood_from_mine(cells, si, sj, (k - 1) as nat, i, j);
        } else {
            let (a, b) = choose|a: int, b: int|
                #[trigger] near(a, b, i, j) && in_shape(cells, a, b) && cells[a][b].neighbouring_mines == 0
                    && in_reach(cells, si, sj, (k - 1) as nat, a, b);
            lemma_flood_from_mine(cells, si, sj, (k - 1) as nat, a, b);
            assert(cells[si][sj].neighbouring_mines == mines_around(cells, si, sj));
            assert(mine_at(cells, si, sj) == 1);
        }
    }
}

/// From a revealed start the flood reaches nothing.
pub proof fn lemma_flood_from_revealed(cells: Seq<Seq<Cell>>, si: int, sj: int, k: nat, i: int, j: int)
    requires
        in_shape(cells, si, sj),
        cells[si][sj].revealed,
    ensures
        !in_reach(cells, si, sj, k, i, j),
    decreases k,
{
    if k > 0 {
        lemma_flood_from_revealed(cells, si, sj, (k - 1) as nat, i, j);
        assert forall|a: int, b: int| #[trigger] near(a, b, i, j) implies !in_reach(
            cells,
            si,
            sj,
            (k - 1) as nat,
            a,
            b,
        ) by {
            lemma_flood_from_revealed(cells, si, sj, (k - 1) as nat, a, b);
        }
    }
}

/// The flood changes nothing but which squares are revealed, so the squares
/// still know the mines around them.
proof fn lemma_flood_keeps_counts(cells: Seq<Seq<Cell>>, si: int, sj: int)
    requires
        counts_consistent(cells),
    ensures
        counts_consistent(flooded(cells, si, sj)),
{
    let f = flooded(cells, si, sj);
    assert forall|x: int, y: int| true implies #[trigger] mine_at(f, x, y) == mine_at(cells, x, y) by {
        if in_shape(cells, x, y) {
            assert(f[x][y] == flooded_cell(cells, si, sj, x, y));
        }
    }
    assert forall|i: int, j: int| in_shape(f, i, j) implies #[trigger] f[i][j].neighbouring_mines == mines_around(
        f,
        i,
        j,
    ) by {
        assert(f[i][j] == flooded_cell(cells, si, sj, i, j));
        assert(cells[i][j].neighbouring_mines == mines_around(cells, i, j));
        assert(mine_at(f, i - 1, j - 1) == mine_at(cells, i - 1, j - 1));
        assert(mine_at(f, i - 1, j) == mine_at(cells, i - 1, j));
        assert(mine_at(f, i - 1, j + 1) == mine_at(cells, i - 1, j + 1));
        assert(mine_at(f, i, j - 1) == mine_at(cells, i, j - 1));
        assert(mine_at(f, i, j) == mine_at(cells, i, j));
        assert(mine_at(f, i, j + 1) == mine_at(cells, i, j + 1));
        assert(mine_at(f, i + 1, j - 1) == mine_at(cells, i + 1, j - 1));
        assert(mine_at(f, i + 1, j) == mine_at(cells, i + 1, j));
        assert(mine_at(f, i + 1, j + 1) == mine_at(cells, i + 1, j + 1));
    }
}

/// A new board is in play: all its safe squares are hidden and counted.
pub proof fn lemma_fresh_board_in_play(g: GridState, h: nat, w: nat, mines: nat)
    requires
        g.is_fresh(h, w, mines),
    ensures
        g.in_play(),
{
    let c = g.cells;
    let t = |i: int, j: int| true;
    let mine = |i: int, j: int| c[i][j].is_mine;
    lemma_count_split(t, mine, c);
    lemma_count_all(t, c, h as int, w as int);
    lemma_count_ext(|a: int, b: int| t(a, b) && mine(a, b), mine, c);
    let safe = |a: int, b: int| t(a, b) && !mine(a, b);
    let hidden_safe = |a: int, b: int| !c[a][b].revealed && !c[a][b].is_mine;
    assert forall|i: int, j: int| in_shape(c, i, j) implies #[trigger] safe(i, j) == hidden_safe(i, j) by {
        assert(!c[i][j].revealed);
    }
    lemma_count_ext(safe, hidden_safe, c);
}

/// Revealing a safe square of a board in play fits the count of hidden safe
/// squares, opens no mine, and leaves the board in play.
pub proof fn lemma_reveal_safe_square(g: GridState)
    requires
        g.in_play(),
        !g.current().is_mine,
    ensures
        g.reveal_fits(),
        g.after_reveal().in_play(),
        !g.after_reveal().current().is_mine,
        forall|i: int, j: int|
            in_shape(g.cells, i, j) ==> (#[trigger] g.after_reveal().cells[i][j]).is_mine == g.cells[i][j].is_mine,
{
    let c = g.cells;
    let si = g.cursor_row as int;
    let sj = g.cursor_column as int;
    let f = flooded(c, si, sj);
    let hs = |i: int, j: int| !c[i][j].revealed && !c[i][j].is_mine;
    let rc = |i: int, j: int| reached(c, si, sj, i, j);
    assert(c[si].len() == g.width);
    // every square the flood reaches is hidden and safe
    assert forall|i: int, j: int| in_shape(c, i, j) && #[trigger] rc(i, j) implies hs(i, j) by {
        let k = choose|k: nat| #[trigger] in_reach(c, si, sj, k, i, j);
        lemma_flood_avoids_mines(c, si, sj, k, i, j);
        crate::components::flood::lemma_in_reach_hidden(c, si, sj, k, i, j);
    }
    lemma_count_mono(rc, hs, c);
    // the hidden safe squares split into those the flood reaches and the rest
    lemma_count_split(hs, rc, c);
    lemma_count_ext(|a: int, b: int| hs(a, b) && rc(a, b), rc, c);
    assert(f.len() == c.len());
    assert forall|i: int| 0 <= i < c.len() implies #[trigger] f[i].len() == c[i].len() by {}
    let rest = |a: int, b: int| hs(a, b) && !rc(a, b);
    let hs_after = |a: int, b: int| !f[a][b].revealed && !f[a][b].is_mine;
    assert forall|i: int, j: int| in_shape(c, i, j) implies #[trigger] rest(i, j) == hs_after(i, j) by {
        assert(f[i][j] == flooded_cell(c, si, sj, i, j));
    }
    lemma_count_ext(rest, hs_after, c);
    lemma_count_same_shape(hs_after, c, f);
    lemma_flood_keeps_counts(c, si, sj);
    assert(f[si][sj] == flooded_cell(c, si, sj, si, sj));
    assert forall|i: int, j: int| in_shape(c, i, j) implies (#[trigger] g.after_reveal().cells[i][j]).is_mine
        == c[i][j].is_mine by {
        assert(f[i][j] == flooded_cell(c, si, sj, i, j));
    }
    assert forall|i: int| 0 <= i < g.height implies #[trigger] f[i].len() == g.width by {}
}

/// Revealing a hidden mine on a board whose squares know the mines around them
/// opens that square alone: the flood counts one square.
pub proof fn lemma_reveal_mine(g: GridState)
    requires
        g.wf(),
        g.counts_consistent(),
        g.current().is_mine,
        !g.current().revealed,
    ensures
        g.flood_count() == 1,
        g.reveal_fits() == (g.remaining_empty_cells >= 1),
        forall|i: int, j: int|
            in_shape(g.cells, i, j) ==> #[trigger] g.after_reveal().cells[i][j] == (if i == g.cursor_row
                && j == g.cursor_column {
                g.cells[i][j].as_revealed()
            } else {
                g.cells[i][j]
            }),
{
    let c = g.cells;
    let si = g.cursor_row as int;
    let sj = g.cursor_column as int;
    let rc = |i: int, j: int| reached(c, si, sj, i, j);
    let none = |i: int, j: int| false;
    assert(c[si].len() == g.width);
    assert(in_reach(c, si, sj, 0, si, sj));
    assert(rc(si, sj));
    assert forall|i: int, j: int| in_shape(c, i, j) && !(i == si && j == sj) implies #[trigger] none(i, j) == rc(i, j) by {
        if rc(i, j) {
            let k = choose|k: nat| #[trigger] in_reach(c, si, sj, k, i, j);
            lemma_flood_from_mine(c, si, sj, k, i, j);
        }
    }
    lemma_count_none(none, c);
    lemma_count_insert(none, rc, c, si, sj);
    assert forall|i: int, j: int| in_shape(c, i, j) implies #[trigger] g.after_reveal().cells[i][j] == (if i == si
        && j == sj {
        c[i][j].as_revealed()
    } else {
        c[i][j]
    }) by {
        if rc(i, j) {
            let k = choose|k: nat| #[trigger] in_reach(c, si, sj, k, i, j);
            lemma_flood_from_mine(c, si, sj, k, i, j);
        }
    }
}

/// Revealing a square already revealed changes nothing.
pub proof fn lemma_reveal_revealed(g: GridState)
    requires
        g.wf(),
        g.current().revealed,
    ensures
        g.flood_count() == 0,
        g.reveal_fits(),
        g.after_reveal() == g,
{
    let c = g.cells;
    let si = g.cursor_row as int;
    let sj = g.cursor_column as int;
    let rc = |i: int, j: int| reached(c, si, sj, i, j);
    assert(c[si].len() == g.width);
    assert forall|i: int, j: int| in_shape(c, i, j) implies !#[trigger] rc(i, j) by {
        if rc(i, j) {
            let k = choose|k: nat| #[trigger] in_reach(c, si, sj, k, i, j);
            lemma_flood_from_revealed(c, si, sj, k, i, j);
        }
    }
    lemma_count_none(rc, c);
    let f = flooded(c, si, sj);
    assert forall|i: int| 0 <= i < c.len() implies #[trigger] f[i] =~= c[i] by {
        assert forall|j: int| 0 <= j < c[i].len() implies #[trigger] f[i][j] == c[i][j] by {
            assert(!rc(i, j));
        }
    }
    assert(f =~= c);
}

/// After a reveal, every neighbour of a square the flood reached that has no
/// mine around it is revealed.
pub proof fn lemma_flood_opens_around_empty(g: GridState, i: int, j: int, a: int, b: int)
    requires
        g.wf(),
        reached(g.cells, g.cursor_row as int, g.cursor_column as int, i, j),
        in_shape(g.cells, i, j),
        g.cells[i][j].neighbouring_mines == 0,
        in_shape(g.cells, a, b),
        near(i, j, a, b),
    ensures
        g.after_reveal().cells[a][b].revealed,
{
    let c = g.cells;
    let si = g.cursor_row as int;
    let sj = g.cursor_column as int;
    let f = flooded(c, si, sj);
    assert(f[a][b] == flooded_cell(c, si, sj, a, b));
    if !c[a][b].revealed {
        let k = choose|k: nat| #[trigger] in_reach(c, si, sj, k, i, j);
        assert(near(i, j, a, b));
        assert(in_reach(c, si, sj, k + 1, a, b));
    }
}

/// On a board in play, the count of hidden safe squares is zero exactly when
/// every safe square is revealed.
pub proof fn lemma_finished_iff_cleared(g: GridState)
    requires
        g.in_play(),
    ensures
        (g.remaining_empty_cells == 0) == g.cleared(),
{
    let c = g.cells;
    let hs = |i: int, j: int| !c[i][j].revealed && !c[i][j].is_mine;
    if g.cleared() {
        assert forall|i: int, j: int| in_shape(c, i, j) implies !#[trigger] hs(i, j) by {
            if !c[i][j].is_mine {
                assert(c[i][j].revealed);
            }
        }
        lemma_count_none(hs, c);
    } else {
        let (i, j) = choose|i: int, j: int|
            in_shape(c, i, j) && !(#[trigger] c[i][j]).is_mine && !c[i][j].revealed;
        let others = |a: int, b: int| hs(a, b) && !(a == i && b == j);
        lemma_count_insert(others, hs, c, i, j);
    }
}

/// Flipping a flag leaves a board in play.
pub proof fn lemma_flag_keeps_play(g: GridState)
    requires
        g.in_play(),
    ensures
        g.after_flag().in_play(),
{
    let c = g.cells;
    let f = g.after_flag().cells;
    let r = g.cursor_row as int;
    let col = g.cursor_column as int;
    assert(c[r].len() == g.width);
    assert forall|x: int, y: int| true implies #[trigger] mine_at(f, x, y) == mine_at(c, x, y) by {}
    assert forall|i: int, j: int| in_shape(f, i, j) implies #[trigger] f[i][j].neighbouring_mines == mines_around(
        f,
        i,
        j,
    ) by {
        assert(c[i][j].neighbouring_mines == mines_around(c, i, j));
        assert(mine_at(f, i - 1, j - 1) == mine_at(c, i - 1, j - 1));
        assert(mine_at(f, i - 1, j) == mine_at(c, i - 1, j));
        assert(mine_at(f, i - 1, j + 1) == mine_at(c, i - 1, j + 1));
        assert(mine_at(f, i, j - 1) == mine_at(c, i, j - 1));
        assert(mine_at(f, i, j) == mine_at(c, i, j));
        assert(mine_at(f, i, j + 1) == mine_at(c, i, j + 1));
        assert(mine_at(f, i + 1, j - 1) == mine_at(c, i + 1, j - 1));
        assert(mine_at(f, i + 1, j) == mine_at(c, i + 1, j));
        assert(mine_at(f, i + 1, j + 1) == mine_at(c, i + 1, j + 1));
    }
    lemma_count_ext(
        |a: int, b: int| !c[a][b].revealed && !c[a][b].is_mine,
        |a: int, b: int| !f[a][b].revealed && !f[a][b].is_mine,
        c,
    );
    assert forall|i: int| 0 <= i < c.len() implies #[trigger] f[i].len() == c[i].len() by {}
    lemma_count_same_shape(|a: int, b: int| !f[a][b].revealed && !f[a][b].is_mine, c, f);
}

} // verus!
