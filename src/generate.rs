//! The seeded generator of a system `A·x = b`, as the raw 32-bit draws of
//! each entry in the order in which they leave the stream.
use vstd::prelude::*;
use crate::random::{seeded, next_draw};

verus! {

/// The largest dimension a system may have.
pub const MAX_DIMENSION: usize = 500;

/// Position in the stream of the draw for entry `(row, col)` of `A`: each
/// column of `A` is drawn top to bottom and followed by its entry of `b`.
pub open spec fn matrix_slot(n: int, row: int, col: int) -> int {
    col * (n + 1) + row
}

/// Position in the stream of the draw for entry `col` of `b`.
pub open spec fn rhs_slot(n: int, col: int) -> int {
    col * (n + 1) + n
}

/// The draws of `A` for dimension `n` and the given seed.
pub open spec fn generated_matrix(n: nat, seed: u64) -> Seq<Seq<u32>> {
    Seq::new(
        n,
        |row: int|
            Seq::new(
                n,
                |col: int| crate::random::draw_at(seed, matrix_slot(n as int, row, col) as nat),
            ),
    )
}

/// The draws of `b` for dimension `n` and the given seed.
pub open spec fn generated_rhs(n: nat, seed: u64) -> Seq<u32> {
    Seq::new(n, |col: int| crate::random::draw_at(seed, rhs_slot(n as int, col) as nat))
}

/// Draws the entries of `A` (`n` by `n`) and `b` (length `n`) from the
/// stream seeded with `seed`, column by column: all of column `c` of `A`,
/// top to bottom, then `b[c]`.
pub fn generate(n: usize, seed: u64) -> (r: (Vec<Vec<u32>>, Vec<u32>))
    requires
        1 <= n <= MAX_DIMENSION,
    ensures
        crate::solve::rows(r.0@) == generated_matrix(n as nat, seed),
        r.1@ == generated_rhs(n as nat, seed),
{
    let mut a: Vec<Vec<u32>> = Vec::new();
    let mut i: usize = 0;
    while i < n
        invariant
            i <= n,
            a@.len() == i,
            forall|k: int| 0 <= k < i ==> (#[trigger] a@[k])@.len() == n,
        decreases n - i,
    {
        a.push(vec![0u32; n]);
        i = i + 1;
    }
    let mut b: Vec<u32> = vec![0u32; n];
    let mut rng = seeded(seed);
    let mut col: usize = 0;
    while col < n
        invariant
            1 <= n <= MAX_DIMENSION,
            col <= n,
            a@.len() == n,
            b@.len() == n,
            forall|k: int| 0 <= k < n ==> (#[trigger] a@[k])@.len() == n,
            stream_pos_is(rng, seed, col * (n + 1)),
            forall|r: int, c: int|
                0 <= r < n && 0 <= c < col ==> #[trigger] a@[r]@[c] == crate::random::draw_at(
                    seed,
                    matrix_slot(n as int, r, c) as nat,
                ),
            forall|c: int|
                0 <= c < col ==> #[trigger] b@[c] == crate::random::draw_at(
                    seed,
                    rhs_slot(n as int, c) as nat,
                ),
        decreases n - col,
    {
        let mut row: usize = 0;
        while row < n
            invariant
                1 <= n <= MAX_DIMENSION,
                col < n,
                row <= n,
                a@.len() == n,
                b@.len() == n,
                forall|k: int| 0 <= k < n ==> (#[trigger] a@[k])@.len() == n,
                stream_pos_is(rng, seed, col * (n + 1) + row),
                forall|r: int, c: int|
                    0 <= r < n && 0 <= c < col ==> #[trigger] a@[r]@[c] == crate::random::draw_at(
                        seed,
                        matrix_slot(n as int, r, c) as nat,
                    ),
                forall|r: int|
                    0 <= r < row ==> #[trigger] a@[r]@[col as int] == crate::random::draw_at(
                        seed,
                        matrix_slot(n as int, r, col as int) as nat,
                    ),
                forall|c: int|
                    0 <= c < col ==> #[trigger] b@[c] == crate::random::draw_at(
                        seed,
                        rhs_slot(n as int, c) as nat,
                    ),
            decreases n - row,
        {
            let v = next_draw(&mut rng);
            a[row].set(col, v);
            row = row + 1;
        }
        let v = next_draw(&mut rng);
        b.set(col, v);
        proof {
            assert((col + 1) * (n + 1) == col * (n + 1) + n + 1) by (nonlinear_arith);
        }
        col = col + 1;
    }
    proof {
        crate::solve::lemma_rows(a@);
        assert(crate::solve::rows(a@) =~~= generated_matrix(n as nat, seed));
        assert(b@ =~= generated_rhs(n as nat, seed));
    }
    (a, b)
}

/// The stream was seeded with `seed` and `pos` words have been drawn.
pub open spec fn stream_pos_is(rng: rand::rngs::StdRng, seed: u64, pos: int) -> bool {
    crate::random::stream_of(rng) == (seed, pos as nat)
}

/// Generation is deterministic: two results of [`generate`] for the same
/// dimension and seed hold the same draws, entry for entry.
pub proof fn lemma_generate_deterministic(
    n: nat,
    seed: u64,
    a1: Seq<Seq<u32>>,
    b1: Seq<u32>,
    a2: Seq<Seq<u32>>,
    b2: Seq<u32>,
)
    requires
        1 <= n <= MAX_DIMENSION,
        a1 == generated_matrix(n, seed),
        b1 == generated_rhs(n, seed),
        a2 == generated_matrix(n, seed),
        b2 == generated_rhs(n, seed),
    ensures
        a1 == a2,
        b1 == b2,
{
}

} // verus!
