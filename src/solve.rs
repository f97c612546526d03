//! Unpivoted Gaussian elimination followed by back substitution, in place.
use vstd::prelude::*;
use crate::scalar::Scalar;

verus! {

/// `a` is an `n`-by-`n` grid of rows.
pub open spec fn is_square<T>(a: Seq<Seq<T>>, n: nat) -> bool {
    a.len() == n && forall|i: int| 0 <= i < n ==> (#[trigger] a[i]).len() == n
}

/// The row multiplier that clears `a[row][norm]` with pivot row `norm`.
pub open spec fn multiplier<T: Scalar>(a: Seq<Seq<T>>, norm: int, row: int) -> T {
    T::quot(a[row][norm], a[norm][norm])
}

/// Row `row` after subtracting `m` times pivot row `norm` over the columns
/// `norm..n`; columns before `norm` keep their values.
pub open spec fn reduced_row<T: Scalar>(a: Seq<Seq<T>>, norm: int, row: int, m: T) -> Seq<T> {
    Seq::new(
        a[row].len(),
        |col: int|
            if col >= norm {
                T::diff(a[row][col], T::prod(a[norm][col], m))
            } else {
                a[row][col]
            },
    )
}

/// The system after one row operation: row `row` of `a` and entry `row` of
/// `b` reduced by pivot row `norm`.
pub open spec fn row_step<T: Scalar>(s: (Seq<Seq<T>>, Seq<T>), norm: int, row: int) -> (
    Seq<Seq<T>>,
    Seq<T>,
) {
    let m = multiplier(s.0, norm, row);
    (
        s.0.update(row, reduced_row(s.0, norm, row, m)),
        s.1.update(row, T::diff(s.1[row], T::prod(s.1[norm], m))),
    )
}

/// The system after pivot row `norm` has reduced rows `norm + 1 .. end`,
/// in increasing order.
pub open spec fn pivot_rows<T: Scalar>(s: (Seq<Seq<T>>, Seq<T>), norm: int, end: int) -> (
    Seq<Seq<T>>,
    Seq<T>,
)
    decreases end - norm,
{
    if end <= norm + 1 {
        s
    } else {
        row_step(pivot_rows(s, norm, end - 1), norm, end - 1)
    }
}

/// The system after forward elimination with the pivot rows `0 .. k`, in
/// increasing order, each reducing every row below it.
pub open spec fn eliminated<T: Scalar>(a: Seq<Seq<T>>, b: Seq<T>, k: int) -> (
    Seq<Seq<T>>,
    Seq<T>,
)
    decreases k,
{
    if k <= 0 {
        (a, b)
    } else {
        pivot_rows(eliminated(a, b, k - 1), k - 1, a.len() as int)
    }
}

/// The partial value of unknown `row` once the columns `row + 1 .. c` of the
/// triangular system have been subtracted, in increasing order.
pub open spec fn partial<T: Scalar>(a: Seq<Seq<T>>, b: Seq<T>, x: Seq<T>, row: int, c: int) -> T
    decreases c - row,
{
    if c <= row + 1 {
        b[row]
    } else {
        T::diff(partial(a, b, x, row, c - 1), T::prod(a[row][c - 1], x[c - 1]))
    }
}

/// The unknowns after back substitution has solved the last `k` rows of the
/// triangular system `(a, b)`, from the bottom up, starting from `x`.
pub open spec fn substituted<T: Scalar>(a: Seq<Seq<T>>, b: Seq<T>, x: Seq<T>, k: int) -> Seq<T>
    decreases k,
{
    if k <= 0 {
        x
    } else {
        let y = substituted(a, b, x, k - 1);
        let row = a.len() - k;
        y.update(row, T::quot(partial(a, b, y, row, a.len() as int), a[row][row]))
    }
}

/// The rows of a matrix held as vectors, as sequences.
pub open spec fn rows<T>(a: Seq<Vec<T>>) -> Seq<Seq<T>> {
    a.map_values(|r: Vec<T>| r@)
}

pub(crate) proof fn lemma_rows<T>(a: Seq<Vec<T>>)
    ensures
        rows(a).len() == a.len(),
        forall|i: int| 0 <= i < a.len() ==> #[trigger] rows(a)[i] == a[i]@,
{
}

/// Reduces row `row` of `a` and entry `row` of `b` by pivot row `norm`.
fn reduce_row<T: Scalar>(n: usize, a: &mut Vec<Vec<T>>, b: &mut Vec<T>, norm: usize, row: usize)
    requires
        is_square(rows(old(a)@), n as nat),
        old(b)@.len() == n,
        norm < row < n,
    ensures
        (rows(final(a)@), final(b)@) == row_step((rows(old(a)@), old(b)@), norm as int, row as int),
{
    let ghost a0 = rows(a@);
    proof {
        lemma_rows(a@);
        assert(a0[row as int].len() == n && a0[norm as int].len() == n);
    }
    let m = a[row][norm].over(&a[norm][norm]);
    let mut r: Vec<T> = Vec::new();
    std::mem::swap(&mut r, &mut a[row]);
    let mut col: usize = norm;
    while col < n
        invariant
            norm <= col <= n,
            norm < row < n,
            a@.len() == n,
            r@.len() == n,
            m == multiplier(a0, norm as int, row as int),
            is_square(a0, n as nat),
            forall|i: int| 0 <= i < n && i != row ==> (#[trigger] a@[i])@ == a0[i],
            forall|c: int|
                norm <= c < col ==> #[trigger] r@[c] == T::diff(
                    a0[row as int][c],
                    T::prod(a0[norm as int][c], m),
                ),
            forall|c: int| 0 <= c < n && !(norm <= c < col) ==> #[trigger] r@[c] == a0[row as int][c],
        decreases n - col,
    {
        let v = r[col].minus(&a[norm][col].times(&m));
        r.set(col, v);
        col = col + 1;
    }
    std::mem::swap(&mut r, &mut a[row]);
    let v = b[row].minus(&b[norm].times(&m));
    b.set(row, v);
    proof {
        let e = row_step((a0, old(b)@), norm as int, row as int);
        assert(a@[row as int]@ =~= e.0[row as int]);
        assert(rows(a@) =~= e.0);
        assert(b@ =~= e.1);
    }
}

proof fn lemma_row_step_shape<T: Scalar>(s: (Seq<Seq<T>>, Seq<T>), n: nat, norm: int, row: int)
    requires
        is_square(s.0, n),
        s.1.len() == n,
        0 <= norm < row < n,
    ensures
        is_square(row_step(s, norm, row).0, n),
        row_step(s, norm, row).1.len() == n,
{
    let e = row_step(s, norm, row).0;
    assert forall|i: int| 0 <= i < n implies (#[trigger] e[i]).len() == n by {
        if i != row {
            assert(e[i] == s.0[i]);
        }
    }
}

/// Forward elimination: reduces every row below each pivot row `0 .. n - 1`.
fn eliminate<T: Scalar>(n: usize, a: &mut Vec<Vec<T>>, b: &mut Vec<T>)
    requires
        n >= 1,
        is_square(rows(old(a)@), n as nat),
        old(b)@.len() == n,
    ensures
        (rows(final(a)@), final(b)@) == eliminated(rows(old(a)@), old(b)@, n - 1),
        is_square(rows(final(a)@), n as nat),
        final(b)@.len() == n,
{
    let ghost a0 = rows(a@);
    let ghost b0 = b@;
    let mut norm: usize = 0;
    while norm < n - 1
        invariant
            n >= 1,
            a0.len() == n,
            0 <= norm <= n - 1,
            (rows(a@), b@) == eliminated(a0, b0, norm as int),
            is_square(rows(a@), n as nat),
            b@.len() == n,
        decreases n - norm,
    {
        let mut row: usize = norm + 1;
        while row < n
            invariant
                n >= 1,
                a0.len() == n,
                norm < n - 1,
                norm + 1 <= row <= n,
                (rows(a@), b@) == pivot_rows(eliminated(a0, b0, norm as int), norm as int, row as int),
                is_square(rows(a@), n as nat),
                b@.len() == n,
            decreases n - row,
        {
            proof {
                lemma_row_step_shape((rows(a@), b@), n as nat, norm as int, row as int);
            }
            reduce_row(n, a, b, norm, row);
            row = row + 1;
        }
        norm = norm + 1;
    }
}

/// Back substitution: solves the triangular system `(a, b)` into `x`, from
/// the last row up.
fn back_substitute<T: Scalar>(n: usize, a: &Vec<Vec<T>>, b: &Vec<T>, x: &mut Vec<T>)
    requires
        is_square(rows(a@), n as nat),
        b@.len() == n,
        old(x)@.len() == n,
    ensures
        final(x)@ == substituted(rows(a@), b@, old(x)@, n as int),
{
    let ghost m = rows(a@);
    let ghost x0 = x@;
    proof {
        lemma_rows(a@);
    }
    let mut k: usize = 0;
    while k < n
        invariant
            is_square(m, n as nat),
            m == rows(a@),
            forall|i: int| 0 <= i < a@.len() ==> #[trigger] m[i] == a@[i]@,
            b@.len() == n,
            0 <= k <= n,
            x@.len() == n,
            x@ == substituted(m, b@, x0, k as int),
        decreases n - k,
    {
        let row = n - 1 - k;
        assert(m[row as int].len() == n);
        let mut acc = b[row].copied();
        let mut col: usize = row + 1;
        while col < n
            invariant
                is_square(m, n as nat),
                forall|i: int| 0 <= i < a@.len() ==> #[trigger] m[i] == a@[i]@,
                b@.len() == n,
                x@.len() == n,
                m.len() == n,
                a@.len() == n,
                row < n,
                m[row as int].len() == n,
                row + 1 <= col <= n,
                acc == partial(m, b@, x@, row as int, col as int),
            decreases n - col,
        {
            assert(m[row as int] == a@[row as int]@);
            acc = acc.minus(&a[row][col].times(&x[col]));
            col = col + 1;
        }
        let v = acc.over(&a[row][row]);
        x.set(row, v);
        k = k + 1;
    }
}

/// Solves `A·x = b` by forward elimination without pivoting, then back
/// substitution.
///
/// `a` and `b` are reduced in place: on return they hold the triangular
/// system that elimination produced. Every entry of the result is the
/// value of its prescribed chain of operations; a zero pivot is not
/// detected and its quotient flows on into the later entries.
pub fn gauss<T: Scalar>(n: usize, a: &mut Vec<Vec<T>>, b: &mut Vec<T>, x: Vec<T>) -> (r: Vec<T>)
    requires
        n >= 1,
        is_square(rows(old(a)@), n as nat),
        old(b)@.len() == n,
        x@.len() == n,
    ensures
        (rows(final(a)@), final(b)@) == eliminated(rows(old(a)@), old(b)@, n - 1),
        r@ == substituted(rows(final(a)@), final(b)@, x@, n as int),
{
    eliminate(n, a, b);
    let mut x = x;
    back_substitute(n, a, b, &mut x);
    x
}

proof fn lemma_pivot_rows<T: Scalar>(s: (Seq<Seq<T>>, Seq<T>), n: nat, norm: int, end: int)
    requires
        is_square(s.0, n),
        s.1.len() == n,
        0 <= norm < n,
        norm < end <= n,
    ensures
        is_square(pivot_rows(s, norm, end).0, n),
        pivot_rows(s, norm, end).1.len() == n,
        forall|i: int, j: int|
            0 <= i < n && 0 <= j < n && (i <= norm || i >= end || j < norm) ==> (#[trigger] pivot_rows(
                s,
                norm,
                end,
            ).0[i][j]) == s.0[i][j],
        forall|i: int|
            norm < i < end ==> (#[trigger] pivot_rows(s, norm, end).0[i][norm]) == T::diff(
                s.0[i][norm],
                T::prod(s.0[norm][norm], T::quot(s.0[i][norm], s.0[norm][norm])),
            ),
    decreases end - norm,
{
    if end > norm + 1 {
        let p = pivot_rows(s, norm, end - 1);
        lemma_pivot_rows(s, n, norm, end - 1);
        lemma_row_step_shape(p, n, norm, end - 1);
        let r = pivot_rows(s, norm, end);
        assert(r == row_step(p, norm, end - 1));
        assert(p.0[norm] == s.0[norm]) by {
            assert forall|j: int| 0 <= j < n implies p.0[norm][j] == s.0[norm][j] by {
                assert(p.0[norm][j] == s.0[norm][j]);
            }
            assert(p.0[norm] =~= s.0[norm]);
        }
        assert(p.0[end - 1][norm] == s.0[end - 1][norm]);
    }
}

proof fn lemma_eliminated_lower<T: Scalar>(a: Seq<Seq<T>>, b: Seq<T>, n: nat, k: int, zero: T)
    requires
        is_square(a, n),
        b.len() == n,
        0 <= k < n,
        forall|v: T, p: T| p != zero ==> #[trigger] T::diff(v, T::prod(p, T::quot(v, p))) == zero,
        forall|j: int| 0 <= j < k ==> (#[trigger] eliminated(a, b, j).0[j][j]) != zero,
    ensures
        is_square(eliminated(a, b, k).0, n),
        eliminated(a, b, k).1.len() == n,
        forall|row: int, col: int|
            0 <= col < k && col < row < n ==> (#[trigger] eliminated(a, b, k).0[row][col]) == zero,
    decreases k,
{
    if k > 0 {
        lemma_eliminated_lower(a, b, n, k - 1, zero);
        let e = eliminated(a, b, k - 1);
        lemma_pivot_rows(e, n, k - 1, n as int);
        assert(eliminated(a, b, k) == pivot_rows(e, k - 1, n as int));
        assert forall|row: int, col: int| 0 <= col < k && col < row < n implies (#[trigger] eliminated(
            a,
            b,
            k,
        ).0[row][col]) == zero by {
            if col < k - 1 {
                assert(pivot_rows(e, k - 1, n as int).0[row][col] == e.0[row][col]);
            } else {
                let x = e.0[row][col];
                let p = e.0[col][col];
                assert(pivot_rows(e, k - 1, n as int).0[row][col] == T::diff(
                    x,
                    T::prod(p, T::quot(x, p)),
                ));
            }
        }
    }
}

/// Forward elimination leaves the matrix upper triangular: in arithmetic
/// where `v - p·(v/p)` is exactly `zero` for every nonzero `p`, and with every
/// pivot met along the way nonzero, each entry below the diagonal of the
/// eliminated matrix is `zero`.
pub proof fn lemma_elimination_triangular<T: Scalar>(a: Seq<Seq<T>>, b: Seq<T>, n: nat, zero: T)
    requires
        n >= 1,
        is_square(a, n),
        b.len() == n,
        forall|v: T, p: T| p != zero ==> #[trigger] T::diff(v, T::prod(p, T::quot(v, p))) == zero,
        forall|j: int| 0 <= j < n - 1 ==> (#[trigger] eliminated(a, b, j).0[j][j]) != zero,
    ensures
        forall|row: int, col: int|
            0 <= col < row < n ==> (#[trigger] eliminated(a, b, n - 1).0[row][col]) == zero,
{
    lemma_eliminated_lower(a, b, n, n - 1, zero);
}

/// A single equation `a[0][0]·x[0] = b[0]` goes through no elimination, and
/// back substitution gives `x[0] = b[0] / a[0][0]`.
pub proof fn lemma_single_equation<T: Scalar>(a: Seq<Seq<T>>, b: Seq<T>, x: Seq<T>)
    requires
        is_square(a, 1),
        b.len() == 1,
        x.len() == 1,
    ensures
        eliminated(a, b, 0) == (a, b),
        substituted(a, b, x, 1) == seq![T::quot(b[0], a[0][0])],
{
    assert(substituted(a, b, x, 0) == x);
    assert(partial(a, b, x, 0, 1) == b[0]);
    assert(substituted(a, b, x, 1) =~= seq![T::quot(b[0], a[0][0])]);
}

} // verus!
