//! Counting the positions of a (possibly ragged) board at which a predicate holds.
use vstd::prelude::*;

verus! {

/// Number of columns `j < n` of row `i` at which `f` holds.
pub open spec fn count_row(f: spec_fn(int, int) -> bool, i: int, n: int) -> nat
    decreases n,
{
    if n <= 0 {
        0
    } else {
        count_row(f, i, n - 1) + if f(i, n - 1) { 1nat } else { 0nat }
    }
}

/// Number of positions in the first `r` rows of `shape` at which `f` holds.
pub open spec fn count_rows<T>(f: spec_fn(int, int) -> bool, shape: Seq<Seq<T>>, r: int) -> nat
    decreases r,
{
    if r <= 0 {
        0
    } else {
        count_rows(f, shape, r - 1) + count_row(f, r - 1, shape[r - 1].len() as int)
    }
}

/// Number of positions of `shape` at which `f` holds.
pub open spec fn count_cells<T>(f: spec_fn(int, int) -> bool, shape: Seq<Seq<T>>) -> nat {
    count_rows(f, shape, shape.len() as int)
}

/// `(i, j)` is a position of `shape`.
pub open spec fn in_shape<T>(shape: Seq<Seq<T>>, i: int, j: int) -> bool {
    0 <= i < shape.len() && 0 <= j < shape[i].len()
}

/// Every row of `shape` has `w` entries and there are `h` rows.
pub open spec fn is_rect<T>(shape: Seq<Seq<T>>, h: int, w: int) -> bool {
    &&& shape.len() == h
    &&& forall|i: int| 0 <= i < h ==> #[trigger] shape[i].len() == w
}

proof fn lemma_count_row_mono(f: spec_fn(int, int) -> bool, g: spec_fn(int, int) -> bool, i: int, n: int)
    requires
        forall|j: int| 0 <= j < n && #[trigger] f(i, j) ==> g(i, j),
    ensures
        count_row(f, i, n) <= count_row(g, i, n),
    decreases n,
{
    if n > 0 {
        lemma_count_row_mono(f, g, i, n - 1);
    }
}

proof fn lemma_count_rows_mono<T>(
    f: spec_fn(int, int) -> bool,
    g: spec_fn(int, int) -> bool,
    shape: Seq<Seq<T>>,
    r: int,
)
    requires
        r <= shape.len(),
        forall|i: int, j: int| in_shape(shape, i, j) && #[trigger] f(i, j) ==> g(i, j),
    ensures
        count_rows(f, shape, r) <= count_rows(g, shape, r),
    decreases r,
{
    if r > 0 {
        lemma_count_rows_mono(f, g, shape, r - 1);
        assert forall|j: int| 0 <= j < shape[r - 1].len() && #[trigger] f(r - 1, j) implies g(r - 1, j) by {
            assert(in_shape(shape, r - 1, j));
        }
        lemma_count_row_mono(f, g, r - 1, shape[r - 1].len() as int);
    }
}

/// Counting is monotone in the predicate.
pub proof fn lemma_count_mono<T>(f: spec_fn(int, int) -> bool, g: spec_fn(int, int) -> bool, shape: Seq<Seq<T>>)
    requires
        forall|i: int, j: int| in_shape(shape, i, j) && #[trigger] f(i, j) ==> g(i, j),
    ensures
        count_cells(f, shape) <= count_cells(g, shape),
{
    lemma_count_rows_mono(f, g, shape, shape.len() as int);
}

/// Predicates that agree on every position have the same count.
pub proof fn lemma_count_ext<T>(f: spec_fn(int, int) -> bool, g: spec_fn(int, int) -> bool, shape: Seq<Seq<T>>)
    requires
        forall|i: int, j: int| in_shape(shape, i, j) ==> #[trigger] f(i, j) == g(i, j),
    ensures
        count_cells(f, shape) == count_cells(g, shape),
{
    lemma_count_mono(f, g, shape);
    lemma_count_mono(g, f, shape);
}

proof fn lemma_count_row_insert(f: spec_fn(int, int) -> bool, g: spec_fn(int, int) -> bool, i: int, n: int, b: int)
    requires
        0 <= b < n,
        !f(i, b),
        g(i, b),
        forall|j: int| 0 <= j < n && j != b ==> #[trigger] f(i, j) == g(i, j),
    ensures
        count_row(g, i, n) == count_row(f, i, n) + 1,
    decreases n,
{
    if n - 1 == b {
        lemma_count_row_same(f, g, i, n - 1);
    } else {
        lemma_count_row_insert(f, g, i, n - 1, b);
    }
}

proof fn lemma_count_row_same(f: spec_fn(int, int) -> bool, g: spec_fn(int, int) -> bool, i: int, n: int)
    requires
        forall|j: int| 0 <= j < n ==> #[trigger] f(i, j) == g(i, j),
    ensures
        count_row(g, i, n) == count_row(f, i, n),
    decreases n,
{
    if n > 0 {
        lemma_count_row_same(f, g, i, n - 1);
    }
}

proof fn lemma_count_rows_insert<T>(
    f: spec_fn(int, int) -> bool,
    g: spec_fn(int, int) -> bool,
    shape: Seq<Seq<T>>,
    r: int,
    a: int,
    b: int,
)
    requires
        r <= shape.len(),
        0 <= a < r,
        in_shape(shape, a, b),
        !f(a, b),
        g(a, b),
        forall|i: int, j: int| in_shape(shape, i, j) && !(i == a && j == b) ==> #[trigger] f(i, j) == g(i, j),
    ensures
        count_rows(g, shape, r) == count_rows(f, shape, r) + 1,
    decreases r,
{
    let n = shape[r - 1].len() as int;
    if r - 1 == a {
        lemma_count_rows_same(f, g, shape, r - 1);
        assert forall|j: int| 0 <= j < n && j != b implies #[trigger] f(a, j) == g(a, j) by {
            assert(in_shape(shape, a, j));
        }
        lemma_count_row_insert(f, g, a, n, b);
    } else {
        lemma_count_rows_insert(f, g, shape, r - 1, a, b);
        assert forall|j: int| 0 <= j < n implies #[trigger] f(r - 1, j) == g(r - 1, j) by {
            assert(in_shape(shape, r - 1, j));
        }
        lemma_count_row_same(f, g, r - 1, n);
    }
}

proof fn lemma_count_rows_same<T>(f: spec_fn(int, int) -> bool, g: spec_fn(int, int) -> bool, shape: Seq<Seq<T>>, r: int)
    requires
        r <= shape.len(),
        forall|i: int, j: int| 0 <= i < r && in_shape(shape, i, j) ==> #[trigger] f(i, j) == g(i, j),
    ensures
        count_rows(g, shape, r) == count_rows(f, shape, r),
    decreases r,
{
    if r > 0 {
        lemma_count_rows_same(f, g, shape, r - 1);
        let n = shape[r - 1].len() as int;
        assert forall|j: int| 0 <= j < n implies #[trigger] f(r - 1, j) == g(r - 1, j) by {
            assert(in_shape(shape, r - 1, j));
        }
        lemma_count_row_same(f, g, r - 1, n);
    }
}

/// Turning the predicate on at one more position raises the count by one.
pub proof fn lemma_count_insert<T>(
    f: spec_fn(int, int) -> bool,
    g: spec_fn(int, int) -> bool,
    shape: Seq<Seq<T>>,
    a: int,
    b: int,
)
    requires
        in_shape(shape, a, b),
        !f(a, b),
        g(a, b),
        forall|i: int, j: int| in_shape(shape, i, j) && !(i == a && j == b) ==> #[trigger] f(i, j) == g(i, j),
    ensures
        count_cells(g, shape) == count_cells(f, shape) + 1,
{
    lemma_count_rows_insert(f, g, shape, shape.len() as int, a, b);
}

proof fn lemma_count_row_split(f: spec_fn(int, int) -> bool, g: spec_fn(int, int) -> bool, i: int, n: int)
    ensures
        count_row(f, i, n) == count_row(|a: int, b: int| f(a, b) && g(a, b), i, n)
            + count_row(|a: int, b: int| f(a, b) && !g(a, b), i, n),
    decreases n,
{
    if n > 0 {
        lemma_count_row_split(f, g, i, n - 1);
    }
}

proof fn lemma_count_rows_split<T>(f: spec_fn(int, int) -> bool, g: spec_fn(int, int) -> bool, shape: Seq<Seq<T>>, r: int)
    ensures
        count_rows(f, shape, r) == count_rows(|a: int, b: int| f(a, b) && g(a, b), shape, r)
            + count_rows(|a: int, b: int| f(a, b) && !g(a, b), shape, r),
    decreases r,
{
    if r > 0 {
        lemma_count_rows_split(f, g, shape, r - 1);
        lemma_count_row_split(f, g, r - 1, shape[r - 1].len() as int);
    }
}

/// The positions where `f` holds split into those where `g` holds too and the rest.
pub proof fn lemma_count_split<T>(f: spec_fn(int, int) -> bool, g: spec_fn(int, int) -> bool, shape: Seq<Seq<T>>)
    ensures
        count_cells(f, shape) == count_cells(|a: int, b: int| f(a, b) && g(a, b), shape)
            + count_cells(|a: int, b: int| f(a, b) && !g(a, b), shape),
{
    lemma_count_rows_split(f, g, shape, shape.len() as int);
}

proof fn lemma_count_row_all(f: spec_fn(int, int) -> bool, i: int, n: int)
    requires
        n >= 0,
        forall|j: int| 0 <= j < n ==> #[trigger] f(i, j),
    ensures
        count_row(f, i, n) == n,
    decreases n,
{
    if n > 0 {
        lemma_count_row_all(f, i, n - 1);
    }
}

proof fn lemma_count_rows_all<T>(f: spec_fn(int, int) -> bool, shape: Seq<Seq<T>>, r: int, w: int)
    requires
        0 <= r <= shape.len(),
        w >= 0,
        is_rect(shape, shape.len() as int, w),
        forall|i: int, j: int| in_shape(shape, i, j) ==> #[trigger] f(i, j),
    ensures
        count_rows(f, shape, r) == r * w,
    decreases r,
{
    if r > 0 {
        lemma_count_rows_all(f, shape, r - 1, w);
        assert(shape[r - 1].len() == w);
        assert forall|j: int| 0 <= j < w implies #[trigger] f(r - 1, j) by {
            assert(in_shape(shape, r - 1, j));
        }
        lemma_count_row_all(f, r - 1, w);
        assert((r - 1) * w + w == r * w) by (nonlinear_arith);
    } else {
        assert(r * w == 0) by (nonlinear_arith) requires r == 0;
    }
}

/// On a rectangular `h` by `w` shape, a predicate that holds everywhere counts `h * w`.
pub proof fn lemma_count_all<T>(f: spec_fn(int, int) -> bool, shape: Seq<Seq<T>>, h: int, w: int)
    requires
        h >= 0,
        w >= 0,
        is_rect(shape, h, w),
        forall|i: int, j: int| in_shape(shape, i, j) ==> #[trigger] f(i, j),
    ensures
        count_cells(f, shape) == h * w,
{
    lemma_count_rows_all(f, shape, h, w);
}

/// On a rectangular shape, no predicate counts more than `h * w`.
pub proof fn lemma_count_bound<T>(f: spec_fn(int, int) -> bool, shape: Seq<Seq<T>>, h: int, w: int)
    requires
        h >= 0,
        w >= 0,
        is_rect(shape, h, w),
    ensures
        count_cells(f, shape) <= h * w,
{
    let t = |i: int, j: int| true;
    lemma_count_all(t, shape, h, w);
    lemma_count_mono(f, t, shape);
}

/// A predicate that holds nowhere counts zero.
pub proof fn lemma_count_none<T>(f: spec_fn(int, int) -> bool, shape: Seq<Seq<T>>)
    requires
        forall|i: int, j: int| in_shape(shape, i, j) ==> !#[trigger] f(i, j),
    ensures
        count_cells(f, shape) == 0,
{
    lemma_count_rows_none(f, shape, shape.len() as int);
}

proof fn lemma_count_row_none(f: spec_fn(int, int) -> bool, i: int, n: int)
    requires
        forall|j: int| 0 <= j < n ==> !#[trigger] f(i, j),
    ensures
        count_row(f, i, n) == 0,
    decreases n,
{
    if n > 0 {
        lemma_count_row_none(f, i, n - 1);
    }
}

proof fn lemma_count_rows_none<T>(f: spec_fn(int, int) -> bool, shape: Seq<Seq<T>>, r: int)
    requires
        r <= shape.len(),
        forall|i: int, j: int| in_shape(shape, i, j) ==> !#[trigger] f(i, j),
    ensures
        count_rows(f, shape, r) == 0,
    decreases r,
{
    if r > 0 {
        lemma_count_rows_none(f, shape, r - 1);
        assert forall|j: int| 0 <= j < shape[r - 1].len() implies !#[trigger] f(r - 1, j) by {
            assert(in_shape(shape, r - 1, j));
        }
        lemma_count_row_none(f, r - 1, shape[r - 1].len() as int);
    }
}

proof fn lemma_count_rows_same_shape<A, B>(f: spec_fn(int, int) -> bool, s1: Seq<Seq<A>>, s2: Seq<Seq<B>>, r: int)
    requires
        r <= s1.len(),
        s1.len() == s2.len(),
        forall|i: int| 0 <= i < s1.len() ==> #[trigger] s1[i].len() == s2[i].len(),
    ensures
        count_rows(f, s1, r) == count_rows(f, s2, r),
    decreases r,
{
    if r > 0 {
        lemma_count_rows_same_shape(f, s1, s2, r - 1);
        assert(s1[r - 1].len() == s2[r - 1].len());
    }
}

/// The count depends on the shape only through the lengths of its rows.
pub proof fn lemma_count_same_shape<A, B>(f: spec_fn(int, int) -> bool, s1: Seq<Seq<A>>, s2: Seq<Seq<B>>)
    requires
        s1.len() == s2.len(),
        forall|i: int| 0 <= i < s1.len() ==> #[trigger] s1[i].len() == s2[i].len(),
    ensures
        count_cells(f, s1) == count_cells(f, s2),
{
    lemma_count_rows_same_shape(f, s1, s2, s1.len() as int);
}

proof fn lemma_count_row_prefix(f: spec_fn(int, int) -> bool, i: int, j: int, n: int)
    requires
        j <= n,
    ensures
        count_row(f, i, j) <= count_row(f, i, n),
    decreases n - j,
{
    if j < n {
        lemma_count_row_prefix(f, i, j, n - 1);
    }
}

proof fn lemma_count_rows_prefix<T>(f: spec_fn(int, int) -> bool, shape: Seq<Seq<T>>, r: int, m: int)
    requires
        r <= m,
    ensures
        count_rows(f, shape, r) <= count_rows(f, shape, m),
    decreases m - r,
{
    if r < m {
        lemma_count_rows_prefix(f, shape, r, m - 1);
    }
}

/// The positions counted while walking the shape row by row, up to column `j`
/// of row `i`, are no more than all of them.
pub proof fn lemma_count_partial<T>(f: spec_fn(int, int) -> bool, shape: Seq<Seq<T>>, i: int, j: int)
    requires
        0 <= i < shape.len(),
        0 <= j <= shape[i].len(),
    ensures
        count_rows(f, shape, i) + count_row(f, i, j) <= count_cells(f, shape),
{
    lemma_count_row_prefix(f, i, j, shape[i].len() as int);
    lemma_count_rows_prefix(f, shape, i + 1, shape.len() as int);
}

} // verus!
