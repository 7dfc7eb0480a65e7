//! The flood reveal: revealing a square that has no mine around it reveals its
//! neighbours too, and so on from every such square reached.
use vstd::prelude::*;

use crate::components::cell::Cell;
use crate::components::count::{
    count_cells, in_shape, is_rect, lemma_count_bound, lemma_count_ext, lemma_count_insert, lemma_count_none,
};

verus! {

/// The contents of a board held as rows of squares.
pub open spec fn rows_view(rows: Seq<Vec<Cell>>) -> Seq<Seq<Cell>> {
    rows.map_values(|r: Vec<Cell>| r@)
}

/// `(a, b)` lies in the three by three block centred on `(i, j)`.
pub open spec fn near(a: int, b: int, i: int, j: int) -> bool {
    -1 <= a - i <= 1 && -1 <= b - j <= 1
}

/// `(i, j)` is reached from `(si, sj)` within `k` steps: it is the start and
/// hidden, or it is hidden and neighbours a square reached within `k - 1`
/// steps that has no mine around it.
pub open spec fn in_reach(cells: Seq<Seq<Cell>>, si: int, sj: int, k: nat, i: int, j: int) -> bool
    decreases k,
{
    if k == 0 {
        i == si && j == sj && in_shape(cells, i, j) && !cells[i][j].revealed
    } else {
        ||| in_reach(cells, si, sj, (k - 1) as nat, i, j)
        ||| {
            &&& in_shape(cells, i, j)
            &&& !cells[i][j].revealed
            &&& exists|a: int, b: int|
                #[trigger] near(a, b, i, j) && in_shape(cells, a, b) && cells[a][b].neighbouring_mines == 0
                    && in_reach(cells, si, sj, (k - 1) as nat, a, b)
        }
    }
}

/// `(i, j)` is revealed when `(si, sj)` is revealed.
pub open spec fn reached(cells: Seq<Seq<Cell>>, si: int, sj: int, i: int, j: int) -> bool {
    exists|k: nat| #[trigger] in_reach(cells, si, sj, k, i, j)
}

/// How many hidden squares revealing `(si, sj)` uncovers.
pub open spec fn flood_count(cells: Seq<Seq<Cell>>, si: int, sj: int) -> nat {
    count_cells(|i: int, j: int| reached(cells, si, sj, i, j), cells)
}

/// The square at `(i, j)` after revealing `(si, sj)`.
pub open spec fn flooded_cell(cells: Seq<Seq<Cell>>, si: int, sj: int, i: int, j: int) -> Cell {
    if reached(cells, si, sj, i, j) {
        cells[i][j].as_revealed()
    } else {
        cells[i][j]
    }
}

/// The board after revealing `(si, sj)`.
pub open spec fn flooded(cells: Seq<Seq<Cell>>, si: int, sj: int) -> Seq<Seq<Cell>> {
    Seq::new(cells.len(), |i: int| Seq::new(cells[i].len(), |j: int| flooded_cell(cells, si, sj, i, j)))
}

/// A square reached is a hidden square of the board.
pub proof fn lemma_in_reach_hidden(cells: Seq<Seq<Cell>>, si: int, sj: int, k: nat, i: int, j: int)
    requires
        in_reach(cells, si, sj, k, i, j),
    ensures
        in_shape(cells, i, j),
        !cells[i][j].revealed,
    decreases k,
{
    if k > 0 && in_reach(cells, si, sj, (k - 1) as nat, i, j) {
        lemma_in_reach_hidden(cells, si, sj, (k - 1) as nat, i, j);
    }
}

spec fn newly(c0: Seq<Seq<Cell>>, c: Seq<Seq<Cell>>, i: int, j: int) -> bool {
    c[i][j].revealed && !c0[i][j].revealed
}

/// Every square that the flood has revealed and that has no mine around it has
/// each neighbour revealed or still waiting on the stack.
spec fn closed_but_stack(c0: Seq<Seq<Cell>>, c: Seq<Seq<Cell>>, stack: Seq<(usize, usize)>) -> bool {
    forall|i: int, j: int, a: int, b: int|
        #![trigger near(i, j, a, b), newly(c0, c, i, j)]
        in_shape(c0, i, j) && in_shape(c0, a, b) && near(i, j, a, b) && newly(c0, c, i, j)
            && c0[i][j].neighbouring_mines == 0 ==> c[a][b].revealed || stack.contains(
            (a as usize, b as usize),
        )
}

/// Pushes every position of the board in the block around `(a, b)`.
fn push_neighbours(stack: &mut Vec<(usize, usize)>, a: usize, b: usize, h: usize, w: usize)
    requires
        a < h,
        b < w,
    ensures
        final(stack)@.len() >= old(stack)@.len(),
        forall|k: int| 0 <= k < old(stack)@.len() ==> #[trigger] final(stack)@[k] == old(stack)@[k],
        forall|k: int|
            old(stack)@.len() <= k < final(stack)@.len() ==> {
                let p = #[trigger] final(stack)@[k];
                p.0 < h && p.1 < w && near(p.0 as int, p.1 as int, a as int, b as int)
            },
        forall|x: int, y: int|
            0 <= x < h && 0 <= y < w && #[trigger] near(x, y, a as int, b as int) ==> final(stack)@.contains(
                (x as usize, y as usize),
            ),
{
    let lo_i = if a > 0 { a - 1 } else { 0 };
    let hi_i = if a + 1 < h { a + 2 } else { h };
    let lo_j = if b > 0 { b - 1 } else { 0 };
    let hi_j = if b + 1 < w { b + 2 } else { w };
    let ghost s0 = stack@;
    let mut i = lo_i;
    while i < hi_i
        invariant
            lo_i <= i <= hi_i,
            lo_i == (if a > 0 { a - 1 } else { 0 }),
            hi_i == (if a + 1 < h { a + 2 } else { h as int }),
            lo_j == (if b > 0 { b - 1 } else { 0 }),
            hi_j == (if b + 1 < w { b + 2 } else { w as int }),
            a < h,
            b < w,
            stack@.len() >= s0.len(),
            forall|k: int| 0 <= k < s0.len() ==> #[trigger] stack@[k] == s0[k],
            forall|k: int|
                s0.len() <= k < stack@.len() ==> {
                    let p = #[trigger] stack@[k];
                    p.0 < h && p.1 < w && near(p.0 as int, p.1 as int, a as int, b as int)
                },
            forall|x: int, y: int|
                lo_i <= x < i && lo_j <= y < hi_j ==> #[trigger] stack@.contains((x as usize, y as usize)),
        decreases hi_i - i,
    {
        let mut j = lo_j;
        while j < hi_j
            invariant
                lo_i <= i < hi_i,
                lo_j <= j <= hi_j,
                lo_i == (if a > 0 { a - 1 } else { 0 }),
                hi_i == (if a + 1 < h { a + 2 } else { h as int }),
                lo_j == (if b > 0 { b - 1 } else { 0 }),
                hi_j == (if b + 1 < w { b + 2 } else { w as int }),
                a < h,
                b < w,
                stack@.len() >= s0.len(),
                forall|k: int| 0 <= k < s0.len() ==> #[trigger] stack@[k] == s0[k],
                forall|k: int|
                    s0.len() <= k < stack@.len() ==> {
                        let p = #[trigger] stack@[k];
                        p.0 < h && p.1 < w && near(p.0 as int, p.1 as int, a as int, b as int)
                    },
                forall|x: int, y: int|
                    lo_i <= x < i && lo_j <= y < hi_j ==> #[trigger] stack@.contains((x as usize, y as usize)),
                forall|y: int| lo_j <= y < j ==> #[trigger] stack@.contains((i, y as usize)),
            decreases hi_j - j,
        {
            let ghost before = stack@;
            stack.push((i, j));
            assert forall|x: int, y: int|
                lo_i <= x < i && lo_j <= y < hi_j implies #[trigger] stack@.contains((x as usize, y as usize)) by {
                assert(before.contains((x as usize, y as usize)));
                let k = choose|k: int| 0 <= k < before.len() && before[k] == (x as usize, y as usize);
                assert(stack@[k] == before[k]);
            }
            assert forall|y: int| lo_j <= y < j + 1 implies #[trigger] stack@.contains((i, y as usize)) by {
                if y == j {
                    assert(stack@[before.len() as int] == (i, j));
                } else {
                    assert(before.contains((i, y as usize)));
                    let k = choose|k: int| 0 <= k < before.len() && before[k] == (i, y as usize);
                    assert(stack@[k] == before[k]);
                }
            }
            j = j + 1;
        }
        i = i + 1;
    }
}

/// Reveals `(si, sj)` and, from every revealed square with no mine around it,
/// its neighbours; returns how many squares it revealed.
pub fn flood_reveal(cells: &mut Vec<Vec<Cell>>, h: usize, w: usize, si: usize, sj: usize) -> (n: usize)
    requires
        is_rect(rows_view(old(cells)@), h as int, w as int),
        h * w <= usize::MAX,
        si < h,
        sj < w,
    ensures
        is_rect(rows_view(final(cells)@), h as int, w as int),
        forall|i: int, j: int|
            0 <= i < h && 0 <= j < w ==> #[trigger] rows_view(final(cells)@)[i][j] == flooded_cell(
                rows_view(old(cells)@),
                si as int,
                sj as int,
                i,
                j,
            ),
        n == flood_count(rows_view(old(cells)@), si as int, sj as int),
{
    let ghost c0 = rows_view(cells@);
    let mut stack: Vec<(usize, usize)> = Vec::new();
    stack.push((si, sj));
    let mut n: usize = 0;
    proof {
        assert(stack@[0] == (si, sj));
        if !c0[si as int][sj as int].revealed {
            assert(in_reach(c0, si as int, sj as int, 0, si as int, sj as int));
        }
        lemma_count_none(|i: int, j: int| newly(c0, c0, i, j), c0);
        assert(c0 == rows_view(cells@));
    }
    while stack.len() > 0
        invariant
            is_rect(c0, h as int, w as int),
            is_rect(rows_view(cells@), h as int, w as int),
            h * w <= usize::MAX,
            si < h,
            sj < w,
            forall|i: int, j: int|
                0 <= i < h && 0 <= j < w ==> #[trigger] rows_view(cells@)[i][j] == (Cell {
                    revealed: rows_view(cells@)[i][j].revealed,
                    ..c0[i][j]
                }),
            forall|i: int, j: int|
                0 <= i < h && 0 <= j < w ==> (#[trigger] rows_view(cells@)[i][j]).revealed == (c0[i][j].revealed
                    || (rows_view(cells@)[i][j].revealed && reached(c0, si as int, sj as int, i, j))),
            forall|k: int|
                0 <= k < stack@.len() ==> {
                    let p = #[trigger] stack@[k];
                    p.0 < h && p.1 < w && (c0[p.0 as int][p.1 as int].revealed || reached(
                        c0,
                        si as int,
                        sj as int,
                        p.0 as int,
                        p.1 as int,
                    ))
                },
            closed_but_stack(c0, rows_view(cells@), stack@),
            rows_view(cells@)[si as int][sj as int].revealed || stack@.contains((si, sj)),
            n == count_cells(|i: int, j: int| newly(c0, rows_view(cells@), i, j), c0),
        decreases count_cells(|i: int, j: int| !rows_view(cells@)[i][j].revealed, c0), stack@.len(),
    {
        let ghost c_prev = rows_view(cells@);
        let ghost stack_prev = stack@;
        let top = stack.pop().unwrap();
        let a = top.0;
        let b = top.1;
        proof {
            assert(stack_prev[stack_prev.len() - 1] == top);
            assert(stack@ == stack_prev.drop_last());
            assert(c_prev[a as int] == cells@[a as int]@);
        }
        if !cells[a][b].revealed {
            proof {
                assert(c_prev[a as int][b as int] == cells@[a as int]@[b as int]);
            }
            let ghost cells_prev = cells@;
            cells[a][b].revealed = true;
            let ghost c_now = rows_view(cells@);
            proof {
                assert forall|i: int, j: int|
                    0 <= i < h && 0 <= j < w implies #[trigger] c_now[i][j] == (if i == a && j == b {
                        c_prev[i][j].as_revealed()
                    } else {
                        c_prev[i][j]
                    }) by {
                    assert(c_now[i] == cells@[i]@);
                }
                assert forall|i: int| 0 <= i < h implies #[trigger] c_now[i].len() == w by {
                    assert(c_now[i] == cells@[i]@);
                    assert(c_prev[i] == cells_prev[i]@);
                    if i != a {
                        assert(cells@[i] == cells_prev[i]);
                    }
                }
                // the count of newly revealed squares grows by one
                lemma_count_insert(
                    |i: int, j: int| newly(c0, c_prev, i, j),
                    |i: int, j: int| newly(c0, c_now, i, j),
                    c0,
                    a as int,
                    b as int,
                );
                lemma_count_bound(|i: int, j: int| newly(c0, c_now, i, j), c0, h as int, w as int);
                // the count of hidden squares shrinks by one
                lemma_count_insert(
                    |i: int, j: int| !c_now[i][j].revealed,
                    |i: int, j: int| !c_prev[i][j].revealed,
                    c0,
                    a as int,
                    b as int,
                );
            }
            n = n + 1;
            if cells[a][b].neighbouring_mines == 0 {
                let ghost s_mid = stack@;
                push_neighbours(&mut stack, a, b, h, w);
                proof {
                    // (a, b) was reached, so its hidden neighbours are reached one step later
                    let ka = choose|k: nat| #[trigger] in_reach(c0, si as int, sj as int, k, a as int, b as int);
                    assert forall|k: int| 0 <= k < stack@.len() implies {
                        let p = #[trigger] stack@[k];
                        p.0 < h && p.1 < w && (c0[p.0 as int][p.1 as int].revealed || reached(
                            c0,
                            si as int,
                            sj as int,
                            p.0 as int,
                            p.1 as int,
                        ))
                    } by {
                        if k < s_mid.len() {
                            assert(stack@[k] == s_mid[k]);
                            assert(s_mid[k] == stack_prev[k]);
                        } else {
                            let p = stack@[k];
                            if !c0[p.0 as int][p.1 as int].revealed {
                                assert(near(a as int, b as int, p.0 as int, p.1 as int));
                                assert(in_reach(c0, si as int, sj as int, ka + 1, p.0 as int, p.1 as int));
                            }
                        }
                    }
                    assert forall|i: int, j: int, x: int, y: int|
                        #![trigger near(i, j, x, y), newly(c0, c_now, i, j)]
                        in_shape(c0, i, j) && in_shape(c0, x, y) && near(i, j, x, y) && newly(c0, c_now, i, j)
                            && c0[i][j].neighbouring_mines == 0 implies c_now[x][y].revealed
                        || stack@.contains((x as usize, y as usize)) by {
                        if i == a && j == b {
                            assert(near(x, y, a as int, b as int));
                        } else {
                            assert(newly(c0, c_prev, i, j));
                            if !c_prev[x][y].revealed && !(x == a && y == b) {
                                assert(stack_prev.contains((x as usize, y as usize)));
                                let k = choose|k: int|
                                    0 <= k < stack_prev.len() && stack_prev[k] == (x as usize, y as usize);
                                assert(k < stack_prev.len() - 1);
                                assert(stack@[k] == s_mid[k]);
                            }
                        }
                    }
                    if !c_now[si as int][sj as int].revealed {
                        let k = choose|k: int| 0 <= k < stack_prev.len() && stack_prev[k] == (si, sj);
                        assert(stack@[k] == s_mid[k]);
                    }
                }
            } else {
                proof {
                    assert forall|i: int, j: int, x: int, y: int|
                        #![trigger near(i, j, x, y), newly(c0, c_now, i, j)]
                        in_shape(c0, i, j) && in_shape(c0, x, y) && near(i, j, x, y) && newly(c0, c_now, i, j)
                            && c0[i][j].neighbouring_mines == 0 implies c_now[x][y].revealed
                        || stack@.contains((x as usize, y as usize)) by {
                        assert(!(i == a && j == b));
                        assert(newly(c0, c_prev, i, j));
                        if !c_prev[x][y].revealed && !(x == a && y == b) {
                            let k = choose|k: int|
                                0 <= k < stack_prev.len() && stack_prev[k] == (x as usize, y as usize);
                            assert(k < stack_prev.len() - 1);
                            assert(stack@[k] == stack_prev[k]);
                        }
                    }
                    if !c_now[si as int][sj as int].revealed {
                        let k = choose|k: int| 0 <= k < stack_prev.len() && stack_prev[k] == (si, sj);
                        assert(stack@[k] == stack_prev[k]);
                    }
                }
            }
        } else {
            proof {
                assert(rows_view(cells@) == c_prev);
                assert forall|i: int, j: int, x: int, y: int|
                    #![trigger near(i, j, x, y), newly(c0, c_prev, i, j)]
                    in_shape(c0, i, j) && in_shape(c0, x, y) && near(i, j, x, y) && newly(c0, c_prev, i, j)
                        && c0[i][j].neighbouring_mines == 0 implies c_prev[x][y].revealed
                    || stack@.contains((x as usize, y as usize)) by {
                    if !c_prev[x][y].revealed {
                        let k = choose|k: int|
                            0 <= k < stack_prev.len() && stack_prev[k] == (x as usize, y as usize);
                        if k == stack_prev.len() - 1 {
                            assert(x == a && y == b);
                        } else {
                            assert(stack@[k] == stack_prev[k]);
                        }
                    }
                }
                if !c_prev[si as int][sj as int].revealed {
                    let k = choose|k: int| 0 <= k < stack_prev.len() && stack_prev[k] == (si, sj);
                    assert(stack@[k] == stack_prev[k]);
                }
            }
        }
    }
    proof {
        let c = rows_view(cells@);
        assert forall|i: int, j: int| 0 <= i < h && 0 <= j < w implies #[trigger] c[i][j].revealed == (
        c0[i][j].revealed || reached(c0, si as int, sj as int, i, j)) by {
            if reached(c0, si as int, sj as int, i, j) {
                let k = choose|k: nat| #[trigger] in_reach(c0, si as int, sj as int, k, i, j);
                lemma_flood_closed(c0, c, si as int, sj as int, k, i, j);
            }
        }
        assert forall|i: int, j: int| in_shape(c0, i, j) implies #[trigger] newly(c0, c, i, j) == reached(
            c0,
            si as int,
            sj as int,
            i,
            j,
        ) by {
            if reached(c0, si as int, sj as int, i, j) {
                let k = choose|k: nat| #[trigger] in_reach(c0, si as int, sj as int, k, i, j);
                lemma_in_reach_hidden(c0, si as int, sj as int, k, i, j);
            }
        }
        lemma_count_ext(
            |i: int, j: int| newly(c0, c, i, j),
            |i: int, j: int| reached(c0, si as int, sj as int, i, j),
            c0,
        );
    }
    n
}

/// Once the stack is empty, every square reached has been revealed.
proof fn lemma_flood_closed(c0: Seq<Seq<Cell>>, c: Seq<Seq<Cell>>, si: int, sj: int, k: nat, i: int, j: int)
    requires
        in_reach(c0, si, sj, k, i, j),
        closed_but_stack(c0, c, Seq::empty()),
        c[si][sj].revealed,
        forall|x: int, y: int| in_shape(c0, x, y) ==> (#[trigger] c[x][y]).revealed || !c0[x][y].revealed,
    ensures
        c[i][j].revealed,
    decreases k,
{
    if k > 0 {
        if in_reach(c0, si, sj, (k - 1) as nat, i, j) {
            lemma_flood_closed(c0, c, si, sj, (k - 1) as nat, i, j);
        } else {
            let (a, b) = choose|a: int, b: int|
                #[trigger] near(a, b, i, j) && in_shape(c0, a, b) && c0[a][b].neighbouring_mines == 0
                    && in_reach(c0, si, sj, (k - 1) as nat, a, b);
            lemma_flood_closed(c0, c, si, sj, (k - 1) as nat, a, b);
            lemma_in_reach_hidden(c0, si, sj, (k - 1) as nat, a, b);
            lemma_in_reach_hidden(c0, si, sj, k, i, j);
            assert(newly(c0, c, a, b));
            assert(near(a, b, i, j));
            assert(!Seq::<(usize, usize)>::empty().contains((i as usize, j as usize)));
        }
    }
}

} // verus!
