//! Conversion between packed symmetric matrices and full ones stored by columns.

use crate::packed::{
    ij0, law_pair_index, law_pair_index_onto, lemma_triangle_monotone, lemma_triangle_step,
    pair_index, triangle,
};
use vstd::arithmetic::div_mod::lemma_fundamental_div_mod_converse;
use vstd::prelude::*;

verus! {

/// The packed form of a full matrix stored by columns: of each of the first `columns`
/// columns the entries down to the diagonal.
pub open spec fn upper_part<T>(full: Seq<T>, n: int, columns: int) -> Seq<T>
    decreases columns,
{
    if columns <= 0 {
        seq![]
    } else {
        upper_part(full, n, columns - 1) + full.subrange(
            n * (columns - 1),
            n * (columns - 1) + columns,
        )
    }
}

/// The full symmetric matrix, stored by columns, of a packed one.
pub open spec fn symmetric_full<T>(upper: Seq<T>, n: int) -> Seq<T> {
    Seq::new((n * n) as nat, |p: int| upper[pair_index(p % n, p / n)])
}

/// A column of a matrix lies inside its storage.
proof fn lemma_column(n: int, j: int)
    requires
        0 <= j < n,
    ensures
        0 <= n * j,
        n * j + n <= n * n,
        n * (j + 1) == n * j + n,
{
    assert(n * (j + 1) == n * j + n) by (nonlinear_arith);
    assert(n * (j + 1) <= n * n) by (nonlinear_arith)
        requires
            j + 1 <= n,
            0 <= n,
    ;
    assert(0 <= n * j) by (nonlinear_arith)
        requires
            0 <= n,
            0 <= j,
    ;
}

/// Packs the upper triangle of a full matrix.
pub fn pack_upper<T: Copy>(full: &Vec<T>, n: usize) -> (r: Vec<T>)
    requires
        full@.len() == n * n,
    ensures
        r@ == upper_part(full@, n as int, n as int),
{
    let mut r: Vec<T> = Vec::new();
    let mut j: usize = 0;
    let mut start: usize = 0;
    proof {
        assert(full.len() == n * n);
        assert(n * 0 == 0);
    }
    while j < n
        invariant
            j <= n,
            full@.len() == n * n,
            n * n <= usize::MAX,
            start == n * j,
            r@ == upper_part(full@, n as int, j as int),
        decreases n - j,
    {
        proof {
            lemma_column(n as int, j as int);
        }
        let ghost before = r@;
        let mut i: usize = 0;
        assert(r@ =~= before + full@.subrange(start as int, start + i));
        while i <= j
            invariant
                i <= j + 1,
                j < n,
                full@.len() == n * n,
                n * n <= usize::MAX,
                start + n <= n * n,
                r@ == before + full@.subrange(start as int, start + i),
            decreases j + 1 - i,
        {
            r.push(full[start + i]);
            i += 1;
            assert(r@ =~= before + full@.subrange(start as int, start + i));
        }
        j += 1;
        start += n;
    }
    r
}

/// Restores the full symmetric matrix from its packed form.
pub fn unpack_symmetric<T: Copy>(upper: &Vec<T>, n: usize) -> (r: Vec<T>)
    requires
        upper@.len() == triangle(n as int),
        n * (n + 1) <= usize::MAX,
    ensures
        r@ == symmetric_full(upper@, n as int),
{
    let mut r: Vec<T> = Vec::new();
    let mut j: usize = 0;
    assert(n * 0 == 0);
    while j < n
        invariant
            j <= n,
            upper@.len() == triangle(n as int),
            n * (n + 1) <= usize::MAX,
            r@.len() == n * j,
            forall|p: int|
                0 <= p < n * j ==> #[trigger] r@[p] == upper@[pair_index(
                    p % n as int,
                    p / n as int,
                )],
        decreases n - j,
    {
        proof {
            lemma_column(n as int, j as int);
        }
        let mut i: usize = 0;
        while i < n
            invariant
                i <= n,
                j < n,
                upper@.len() == triangle(n as int),
                n * (n + 1) <= usize::MAX,
                r@.len() == n * j + i,
                forall|p: int|
                    0 <= p < n * j + i ==> #[trigger] r@[p] == upper@[pair_index(
                        p % n as int,
                        p / n as int,
                    )],
            decreases n - i,
        {
            proof {
                law_pair_index(n as int, i as int, j as int, i as int, j as int);
                let p = n * j + i;
                assert(p == j * n + i) by (nonlinear_arith)
                    requires
                        p == n * j + i,
                ;
                lemma_fundamental_div_mod_converse(p, n as int, j as int, i as int);
                assert(i * (i + 1) <= n * (n + 1) && j * (j + 1) <= n * (n + 1))
                    by (nonlinear_arith)
                    requires
                        0 <= i <= n,
                        0 <= j <= n,
                ;
            }
            r.push(upper[ij0(i, j)]);
            i += 1;
        }
        j += 1;
    }
    assert(r@ =~= symmetric_full(upper@, n as int));
    r
}

/// Entry `(i, j)` of a full matrix is found at the packed index of the pair.
pub proof fn law_upper_part<T>(full: Seq<T>, n: int, columns: int, i: int, j: int)
    requires
        full.len() == n * n,
        0 <= columns <= n,
        0 <= i <= j < columns,
    ensures
        upper_part(full, n, columns).len() == triangle(columns),
        upper_part(full, n, columns)[pair_index(i, j)] == full[i + n * j],
    decreases columns,
{
    lemma_upper_len(full, n, columns);
    lemma_upper_len(full, n, columns - 1);
    lemma_triangle_step(columns - 1);
    lemma_column(n, columns - 1);
    lemma_triangle_step(j);
    if j < columns - 1 {
        law_upper_part(full, n, columns - 1, i, j);
        lemma_triangle_monotone(j + 1, columns - 1);
    }
}

proof fn lemma_upper_len<T>(full: Seq<T>, n: int, columns: int)
    requires
        full.len() == n * n,
        0 <= columns <= n,
    ensures
        upper_part(full, n, columns).len() == triangle(columns),
    decreases columns,
{
    if columns > 0 {
        lemma_upper_len(full, n, columns - 1);
        lemma_triangle_step(columns - 1);
        lemma_column(n, columns - 1);
    }
}

/// Packing gives back what was unpacked, and the unpacked matrix is symmetric.
pub proof fn law_pack_unpack<T>(upper: Seq<T>, n: int, i: int, j: int)
    requires
        0 <= n,
        upper.len() == triangle(n),
        0 <= i < n,
        0 <= j < n,
    ensures
        upper_part(symmetric_full(upper, n), n, n) == upper,
        symmetric_full(upper, n)[i + n * j] == symmetric_full(upper, n)[j + n * i],
        symmetric_full(upper, n)[i + n * j] == upper[pair_index(i, j)],
{
    let full = symmetric_full(upper, n);
    assert(0 <= n * n) by (nonlinear_arith)
        requires
            0 <= n,
    ;
    lemma_upper_len(full, n, n);
    let packed = upper_part(full, n, n);
    assert forall|p: int| 0 <= p < triangle(n) implies #[trigger] packed[p] == upper[p] by {
        law_pair_index_onto(n, p);
        let (a, b) = choose|a: int, b: int| 0 <= b <= a < n && #[trigger] pair_index(a, b) == p;
        law_pair_index(n, a, b, a, b);
        law_upper_part(full, n, n, b, a);
        lemma_full_entry(upper, n, b, a);
    }
    assert(packed =~= upper);
    lemma_full_entry(upper, n, i, j);
    lemma_full_entry(upper, n, j, i);
    law_pair_index(n, i, j, i, j);
}

proof fn lemma_full_entry<T>(upper: Seq<T>, n: int, i: int, j: int)
    requires
        0 <= i < n,
        0 <= j < n,
    ensures
        0 <= i + n * j < n * n,
        symmetric_full(upper, n)[i + n * j] == upper[pair_index(i, j)],
{
    lemma_column(n, j);
    let p = i + n * j;
    assert(p == j * n + i) by (nonlinear_arith)
        requires
            p == i + n * j,
    ;
    lemma_fundamental_div_mod_converse(p, n, j, i);
}

} // verus!
