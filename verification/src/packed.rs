//! Packed storage of symmetric matrices: one entry per unordered index pair.

use vstd::prelude::*;

verus! {

/// The number of unordered pairs, with repetition, of indices below `n`.
pub open spec fn triangle(n: int) -> int {
    n * (n + 1) / 2
}

/// Position of the unordered pair `{i, j}` in packed storage.
pub open spec fn pair_index(i: int, j: int) -> int {
    if i > j {
        triangle(i) + j
    } else {
        triangle(j) + i
    }
}

/// `triangle` grows by one row at a time.
pub proof fn lemma_triangle_step(n: int)
    requires
        n >= 0,
    ensures
        triangle(n + 1) == triangle(n) + n + 1,
        triangle(n) >= 0,
        n >= 1 ==> triangle(n) >= n,
        triangle(n) * 2 == n * (n + 1),
    decreases n,
{
    assert((n + 1) * (n + 2) == n * (n + 1) + 2 * (n + 1)) by (nonlinear_arith);
    if n == 0 {
        assert(n * (n + 1) == 0) by (nonlinear_arith)
            requires
                n == 0,
        ;
    } else {
        lemma_triangle_step(n - 1);
        assert((n - 1) * n + 2 * n == n * (n + 1)) by (nonlinear_arith);
    }
}

/// `triangle` is monotone.
pub proof fn lemma_triangle_monotone(a: int, b: int)
    requires
        0 <= a <= b,
    ensures
        triangle(a) <= triangle(b),
    decreases b - a,
{
    if a < b {
        lemma_triangle_monotone(a, b - 1);
        lemma_triangle_step(b - 1);
    }
}

/// The packed index does not depend on the order of the pair, stays inside
/// packed storage, and tells different pairs apart.
pub proof fn law_pair_index(n: int, i: int, j: int, k: int, l: int)
    requires
        0 <= i < n,
        0 <= j < n,
        0 <= k < n,
        0 <= l < n,
    ensures
        pair_index(i, j) == pair_index(j, i),
        0 <= pair_index(i, j) < triangle(n),
        pair_index(i, j) == pair_index(k, l) ==> (i == k && j == l) || (i == l && j == k),
{
    let (hi, lo) = if i > j { (i, j) } else { (j, i) };
    let (hk, lk) = if k > l { (k, l) } else { (l, k) };
    lemma_triangle_step(hi);
    lemma_triangle_step(hk);
    lemma_triangle_monotone(hi + 1, n);
    if hi < hk {
        lemma_triangle_monotone(hi + 1, hk);
    }
    if hk < hi {
        lemma_triangle_monotone(hk + 1, hi);
    }
}

/// Every position of packed storage belongs to a pair.
pub proof fn law_pair_index_onto(n: int, p: int)
    requires
        0 <= p < triangle(n),
        0 <= n,
    ensures
        exists|i: int, j: int| 0 <= j <= i < n && #[trigger] pair_index(i, j) == p,
    decreases n,
{
    if n == 0 {
        lemma_triangle_step(0);
    } else {
        lemma_triangle_step(n - 1);
        if p >= triangle(n - 1) {
            let (i, j) = (n - 1, p - triangle(n - 1));
            assert(pair_index(i, j) == p);
        } else {
            law_pair_index_onto(n - 1, p);
            let (i, j) = choose|i: int, j: int|
                0 <= j <= i < n - 1 && #[trigger] pair_index(i, j) == p;
            assert(0 <= j <= i < n && pair_index(i, j) == p);
        }
    }
}

/// Position of the unordered pair `{i, j}` in compressed pairwise storage.
pub fn ij0(i: usize, j: usize) -> (p: usize)
    requires
        i > j ==> i * (i + 1) <= usize::MAX,
        j >= i ==> j * (j + 1) <= usize::MAX,
    ensures
        p == pair_index(i as int, j as int),
{
    proof {
        lemma_triangle_step(i as int);
        lemma_triangle_step(j as int);
    }
    if i > j {
        i * (i + 1) / 2 + j
    } else {
        j * (j + 1) / 2 + i
    }
}

/// The number of entries of a packed symmetric matrix of order `n`.
pub fn packed_len(n: usize) -> (len: usize)
    requires
        n * (n + 1) <= usize::MAX,
    ensures
        len == triangle(n as int),
{
    proof {
        lemma_triangle_step(n as int);
    }
    n * (n + 1) / 2
}

/// Packed storage goes through the pairs row by row: it starts with the first pair, the next
/// column follows at once, and the next row follows the diagonal.
pub proof fn law_pair_order(i: int, j: int)
    requires
        0 <= j <= i,
    ensures
        pair_index(0, 0) == 0,
        j < i ==> pair_index(i, j + 1) == pair_index(i, j) + 1,
        pair_index(i + 1, 0) == pair_index(i, i) + 1,
        triangle(i + 1) == triangle(i) + i + 1,
        triangle(0) == 0,
{
    lemma_triangle_step(i);
}

} // verus!
