//! What the contractions with folded integrals add up to. Integrals and densities are whole
//! numbers here, so that sums do not depend on their order.
//!
//! `eri(b, q)` is entry `q` of integral block `b`, and `d(c, m)` is element `m` of density
//! column `c`.

use crate::packed::{
    law_pair_index, lemma_triangle_monotone, lemma_triangle_step, pair_index, triangle,
};
use crate::scf_io::erifold::{
    coulomb_term, exchange_pass, pair_passes, range_passes, row_step, CoulombTerm, ExchangePass,
    RowStep,
};
use crate::scf_io::folded::{range_terms, shared_passes, single_passes, thread_passes};
use crate::scf_io::partition::{chunk, divisible, law_chunks_tile};
use vstd::prelude::*;

verus! {

/// The product of `k` block entries from `start` on with as many density elements.
pub open spec fn dot_value(
    start: int,
    b: int,
    c: int,
    k: int,
    eri: spec_fn(int, int) -> int,
    d: spec_fn(int, int) -> int,
) -> int
    decreases k,
{
    if k <= 0 {
        0
    } else {
        dot_value(start, b, c, k - 1, eri, d) + eri(b, start + k - 1) * d(c, k - 1)
    }
}

/// What a step adds to target `t`.
pub open spec fn step_value(
    s: RowStep,
    t: int,
    b: int,
    c: int,
    eri: spec_fn(int, int) -> int,
    d: spec_fn(int, int) -> int,
) -> int {
    (if t < s.axpy {
        eri(b, s.start + t) * d(c, s.k as int)
    } else {
        0
    }) + (if s.own && t == s.k {
        dot_value(s.start as int, b, c, s.k as int, eri, d) + eri(b, s.start + s.k) * d(
            c,
            s.k as int,
        )
    } else {
        0
    })
}

/// What the steps of row `row` from density element `from` to before `to` add to target `t`.
pub open spec fn row_value(
    from: int,
    to: int,
    row: int,
    t: int,
    b: int,
    c: int,
    eri: spec_fn(int, int) -> int,
    d: spec_fn(int, int) -> int,
) -> int
    decreases to - from,
{
    if to <= from {
        0
    } else {
        row_value(from, to - 1, row, t, b, c, eri, d) + step_value(
            row_step(to - 1, row),
            t,
            b,
            c,
            eri,
            d,
        )
    }
}

/// The sum over the first `e` elements of a density column, each with the integral of its pair
/// with `t`.
pub open spec fn column_value(
    t: int,
    b: int,
    c: int,
    e: int,
    eri: spec_fn(int, int) -> int,
    d: spec_fn(int, int) -> int,
) -> int
    decreases e,
{
    if e <= 0 {
        0
    } else {
        column_value(t, b, c, e - 1, eri, d) + eri(b, pair_index(t, e - 1)) * d(c, e - 1)
    }
}

/// The part of a column sum that steps before `e` have added.
pub open spec fn reached_value(
    t: int,
    b: int,
    c: int,
    e: int,
    eri: spec_fn(int, int) -> int,
    d: spec_fn(int, int) -> int,
) -> int {
    if e <= t {
        0
    } else {
        column_value(t, b, c, e, eri, d)
    }
}

proof fn lemma_dot_value(
    t: int,
    b: int,
    c: int,
    k: int,
    eri: spec_fn(int, int) -> int,
    d: spec_fn(int, int) -> int,
)
    requires
        0 <= k <= t,
    ensures
        dot_value(triangle(t), b, c, k, eri, d) == column_value(
            t,
            b,
            c,
            k,
            eri,
            d,
        ),
    decreases k,
{
    if k > 0 {
        lemma_dot_value(t, b, c, k - 1, eri, d);
        assert(pair_index(t, k - 1) == triangle(t) + k - 1);
    }
}

proof fn lemma_row_value(
    from: int,
    to: int,
    n: int,
    row: int,
    t: int,
    b: int,
    c: int,
    eri: spec_fn(int, int) -> int,
    d: spec_fn(int, int) -> int,
)
    requires
        0 <= from <= to <= n,
        0 <= t <= row < n,
        n * (n + 1) <= usize::MAX,
    ensures
        row_value(from, to, row, t, b, c, eri, d) == reached_value(t, b, c, to, eri, d)
            - reached_value(t, b, c, from, eri, d),
    decreases to - from,
{
    if from < to {
        let k = to - 1;
        lemma_row_value(from, k, n, row, t, b, c, eri, d);
        lemma_triangle_step(k);
        lemma_triangle_step(n);
        lemma_triangle_monotone(to, n);
        assert(n <= n * (n + 1)) by (nonlinear_arith)
            requires
                n >= 1,
        ;
        let s = row_step(k, row);
        assert(s.k == k && s.start == triangle(k));
        if k == t {
            lemma_dot_value(t, b, c, t, eri, d);
            assert(pair_index(t, t) == triangle(t) + t);
        } else if k > t {
            assert(s.axpy == (if k <= row { k } else { row + 1 }));
            assert(pair_index(t, k) == triangle(k) + t);
        }
    }
}

/// What passes add to target `t` of row `row`.
pub open spec fn passes_value(
    passes: Seq<ExchangePass>,
    n: int,
    row: int,
    t: int,
    eri: spec_fn(int, int) -> int,
    d: spec_fn(int, int) -> int,
) -> int
    decreases passes.len(),
{
    if passes.len() == 0 {
        0
    } else {
        let x = passes.last();
        passes_value(passes.drop_last(), n, row, t, eri, d) + (if x.row == row {
            row_value(0, n, row, t, x.block as int, x.column as int, eri, d)
        } else {
            0
        })
    }
}

proof fn lemma_passes_push(
    passes: Seq<ExchangePass>,
    x: ExchangePass,
    n: int,
    row: int,
    t: int,
    eri: spec_fn(int, int) -> int,
    d: spec_fn(int, int) -> int,
)
    ensures
        passes_value(passes.push(x), n, row, t, eri, d) == passes_value(
            passes,
            n,
            row,
            t,
            eri,
            d,
        ) + (if x.row == row {
            row_value(0, n, row, t, x.block as int, x.column as int, eri, d)
        } else {
            0
        }),
{
    assert(passes.push(x).drop_last() =~= passes);
}

proof fn lemma_passes_concat(
    a: Seq<ExchangePass>,
    b: Seq<ExchangePass>,
    n: int,
    row: int,
    t: int,
    eri: spec_fn(int, int) -> int,
    d: spec_fn(int, int) -> int,
)
    ensures
        passes_value(a + b, n, row, t, eri, d) == passes_value(a, n, row, t, eri, d)
            + passes_value(b, n, row, t, eri, d),
    decreases b.len(),
{
    if b.len() == 0 {
        assert(a + b =~= a);
    } else {
        assert((a + b).drop_last() =~= a + b.drop_last());
        lemma_passes_concat(a, b.drop_last(), n, row, t, eri, d);
    }
}

/// The sum over the first `e` density columns of all their elements, each with the integral of
/// the pairs `{row, column}` and `{t, element}`. With `e` the number of basis functions this is
/// the element of the exchange matrix.
pub open spec fn exchange_sum(
    n: int,
    row: int,
    t: int,
    e: int,
    eri: spec_fn(int, int) -> int,
    d: spec_fn(int, int) -> int,
) -> int
    decreases e,
{
    if e <= 0 {
        0
    } else {
        exchange_sum(n, row, t, e - 1, eri, d) + column_value(
            t,
            pair_index(row, e - 1),
            e - 1,
            n,
            eri,
            d,
        )
    }
}

/// The pass of a row and a column adds the sum over that column.
proof fn lemma_pass_value(
    n: int,
    row: int,
    t: int,
    column: int,
    eri: spec_fn(int, int) -> int,
    d: spec_fn(int, int) -> int,
)
    requires
        0 <= t <= row < n,
        0 <= column < n,
        n * (n + 1) <= usize::MAX,
    ensures
        exchange_pass(row, column).row == row,
        exchange_pass(row, column).column == column,
        exchange_pass(row, column).block == pair_index(row, column),
        row_value(0, n, row, t, pair_index(row, column), column, eri, d) == column_value(
            t,
            pair_index(row, column),
            column,
            n,
            eri,
            d,
        ),
{
    assert(n <= n * (n + 1)) by (nonlinear_arith)
        requires
            n >= 1,
    ;
    law_pair_index(n, row, column, row, column);
    lemma_triangle_step(n);
    lemma_row_value(0, n, n, row, t, pair_index(row, column), column, eri, d);
}

proof fn lemma_pair_value(
    j: int,
    i: int,
    n: int,
    row: int,
    t: int,
    eri: spec_fn(int, int) -> int,
    d: spec_fn(int, int) -> int,
)
    requires
        0 <= i <= j < n,
        0 <= t <= row < n,
        n * (n + 1) <= usize::MAX,
    ensures
        passes_value(pair_passes(j, i), n, row, t, eri, d) == (if row < i {
            column_value(t, pair_index(row, j), j, n, eri, d)
        } else {
            0
        }) + (if row == j {
            exchange_sum(n, row, t, i, eri, d)
        } else {
            0
        }),
    decreases i,
{
    if i > 0 {
        lemma_pair_value(j, i - 1, n, row, t, eri, d);
        let earlier = pair_passes(j, i - 1);
        let (a, b) = (exchange_pass(i - 1, j), exchange_pass(j, i - 1));
        lemma_passes_push(earlier, a, n, row, t, eri, d);
        lemma_passes_push(earlier.push(a), b, n, row, t, eri, d);
        assert(n <= n * (n + 1)) by (nonlinear_arith)
            requires
                n >= 1,
        ;
        assert(a.row == i - 1 && b.row == j);
        if row == i - 1 {
            lemma_pass_value(n, row, t, j, eri, d);
        }
        if row == j {
            lemma_pass_value(n, row, t, i - 1, eri, d);
        }
    }
}

/// What the passes of the functions before `e` have added.
pub open spec fn passed_value(
    n: int,
    row: int,
    t: int,
    e: int,
    eri: spec_fn(int, int) -> int,
    d: spec_fn(int, int) -> int,
) -> int {
    if e <= row {
        0
    } else {
        exchange_sum(n, row, t, e, eri, d)
    }
}

proof fn lemma_range_value(
    start: int,
    end: int,
    n: int,
    row: int,
    t: int,
    eri: spec_fn(int, int) -> int,
    d: spec_fn(int, int) -> int,
)
    requires
        0 <= start <= end <= n,
        0 <= t <= row < n,
        n * (n + 1) <= usize::MAX,
    ensures
        passes_value(range_passes(start, end), n, row, t, eri, d) == passed_value(
            n,
            row,
            t,
            end,
            eri,
            d,
        ) - passed_value(n, row, t, start, eri, d),
    decreases end - start,
{
    if start < end {
        let j = end - 1;
        let own = pair_passes(j, j);
        let x = exchange_pass(j, j);
        lemma_range_value(start, j, n, row, t, eri, d);
        lemma_pair_value(j, j, n, row, t, eri, d);
        lemma_passes_push(own, x, n, row, t, eri, d);
        lemma_passes_concat(range_passes(start, j), own.push(x), n, row, t, eri, d);
        assert(n <= n * (n + 1)) by (nonlinear_arith)
            requires
                n >= 1,
        ;
        assert(x.row == j);
        if row == j {
            lemma_pass_value(n, row, t, j, eri, d);
        }
    }
}

/// What the first `k` of `p` threads, each with its own rows, add to target `t` of row `row`.
pub open spec fn threads_value(
    n: int,
    p: int,
    k: int,
    row: int,
    t: int,
    eri: spec_fn(int, int) -> int,
    d: spec_fn(int, int) -> int,
) -> int
    decreases k,
{
    if k <= 0 {
        0
    } else {
        threads_value(n, p, k - 1, row, t, eri, d) + passes_value(
            thread_passes(n, p, k - 1),
            n,
            row,
            t,
            eri,
            d,
        )
    }
}

proof fn lemma_threads_value(
    n: int,
    p: int,
    k: int,
    row: int,
    t: int,
    eri: spec_fn(int, int) -> int,
    d: spec_fn(int, int) -> int,
)
    requires
        divisible(n, p),
        0 < k <= p,
        0 <= t <= row < n,
        n * (n + 1) <= usize::MAX,
    ensures
        threads_value(n, p, k, row, t, eri, d) == passed_value(
            n,
            row,
            t,
            chunk(n, p, k - 1).1,
            eri,
            d,
        ),
    decreases k,
{
    law_chunks_tile(n, p, k - 1);
    lemma_range_value(chunk(n, p, k - 1).0, chunk(n, p, k - 1).1, n, row, t, eri, d);
    if k > 1 {
        lemma_threads_value(n, p, k - 1, row, t, eri, d);
        law_chunks_tile(n, p, k - 2);
    } else {
        assert(threads_value(n, p, 0, row, t, eri, d) == 0);
    }
}

/// The passes divided among threads add up to the exchange matrix: its element for `row` and
/// `t` is the sum, over all density elements, of the integral of the pairs `{row, column}` and
/// `{t, element}` times the density element. It is the same for every number of threads, and
/// so the same as without threads.
pub proof fn law_exchange_value(
    n: int,
    p: int,
    row: int,
    t: int,
    eri: spec_fn(int, int) -> int,
    d: spec_fn(int, int) -> int,
)
    requires
        divisible(n, p),
        0 <= t <= row < n,
        n * (n + 1) <= usize::MAX,
    ensures
        threads_value(n, p, p, row, t, eri, d) == exchange_sum(n, row, t, n, eri, d),
        threads_value(n, p, p, row, t, eri, d) == threads_value(n, 1, 1, row, t, eri, d),
{
    lemma_threads_value(n, p, p, row, t, eri, d);
    law_chunks_tile(n, p, p - 1);
    assert(n % 1 == 0);
    lemma_threads_value(n, 1, 1, row, t, eri, d);
    law_chunks_tile(n, 1, 0);
}

/// What the first `k` of `p` threads add to target `t` in a pass that they share.
pub open spec fn shares_value(
    n: int,
    p: int,
    k: int,
    row: int,
    t: int,
    b: int,
    c: int,
    eri: spec_fn(int, int) -> int,
    d: spec_fn(int, int) -> int,
) -> int
    decreases k,
{
    if k <= 0 {
        0
    } else {
        shares_value(n, p, k - 1, row, t, b, c, eri, d) + row_value(
            chunk(n, p, k - 1).0,
            chunk(n, p, k - 1).1,
            row,
            t,
            b,
            c,
            eri,
            d,
        )
    }
}

proof fn lemma_shares_value(
    n: int,
    p: int,
    k: int,
    row: int,
    t: int,
    b: int,
    c: int,
    eri: spec_fn(int, int) -> int,
    d: spec_fn(int, int) -> int,
)
    requires
        divisible(n, p),
        0 < k <= p,
        0 <= t <= row < n,
        n * (n + 1) <= usize::MAX,
    ensures
        shares_value(n, p, k, row, t, b, c, eri, d) == reached_value(
            t,
            b,
            c,
            chunk(n, p, k - 1).1,
            eri,
            d,
        ),
    decreases k,
{
    law_chunks_tile(n, p, k - 1);
    lemma_row_value(chunk(n, p, k - 1).0, chunk(n, p, k - 1).1, n, row, t, b, c, eri, d);
    if k > 1 {
        lemma_shares_value(n, p, k - 1, row, t, b, c, eri, d);
        law_chunks_tile(n, p, k - 2);
    } else {
        assert(shares_value(n, p, 0, row, t, b, c, eri, d) == 0);
    }
}

/// What passes that all threads share add to target `t` of row `row`.
pub open spec fn shared_value(
    passes: Seq<ExchangePass>,
    n: int,
    p: int,
    row: int,
    t: int,
    eri: spec_fn(int, int) -> int,
    d: spec_fn(int, int) -> int,
) -> int
    decreases passes.len(),
{
    if passes.len() == 0 {
        0
    } else {
        let x = passes.last();
        shared_value(passes.drop_last(), n, p, row, t, eri, d) + (if x.row == row {
            shares_value(n, p, p, row, t, x.block as int, x.column as int, eri, d)
        } else {
            0
        })
    }
}

/// Sharing a pass does not change what it adds.
proof fn lemma_shared_value(
    passes: Seq<ExchangePass>,
    n: int,
    p: int,
    row: int,
    t: int,
    eri: spec_fn(int, int) -> int,
    d: spec_fn(int, int) -> int,
)
    requires
        divisible(n, p),
        0 <= t <= row < n,
        n * (n + 1) <= usize::MAX,
    ensures
        shared_value(passes, n, p, row, t, eri, d) == passes_value(passes, n, row, t, eri, d),
    decreases passes.len(),
{
    if passes.len() > 0 {
        let x = passes.last();
        lemma_shared_value(passes.drop_last(), n, p, row, t, eri, d);
        lemma_shares_value(n, p, p, row, t, x.block as int, x.column as int, eri, d);
        lemma_row_value(0, n, n, row, t, x.block as int, x.column as int, eri, d);
        law_chunks_tile(n, p, p - 1);
    }
}

proof fn lemma_pairs_value(
    m: int,
    n: int,
    row: int,
    t: int,
    eri: spec_fn(int, int) -> int,
    d: spec_fn(int, int) -> int,
)
    requires
        0 <= m <= n,
        0 <= t <= row < n,
        n * (n + 1) <= usize::MAX,
    ensures
        passes_value(shared_passes(m), n, row, t, eri, d) == (if row < m {
            exchange_sum(n, row, t, m, eri, d) - column_value(
                t,
                pair_index(row, row),
                row,
                n,
                eri,
                d,
            )
        } else {
            0
        }),
    decreases m,
{
    if m > 0 {
        lemma_pairs_value(m - 1, n, row, t, eri, d);
        lemma_pair_value(m - 1, m - 1, n, row, t, eri, d);
        lemma_passes_concat(
            shared_passes(m - 1),
            pair_passes(m - 1, m - 1),
            n,
            row,
            t,
            eri,
            d,
        );
    }
}

proof fn lemma_single_value(
    m: int,
    n: int,
    row: int,
    t: int,
    eri: spec_fn(int, int) -> int,
    d: spec_fn(int, int) -> int,
)
    requires
        0 <= m <= n,
        0 <= t <= row < n,
        n * (n + 1) <= usize::MAX,
    ensures
        passes_value(single_passes(m), n, row, t, eri, d) == (if row < m {
            column_value(t, pair_index(row, row), row, n, eri, d)
        } else {
            0
        }),
    decreases m,
{
    if m > 0 {
        let x = exchange_pass(m - 1, m - 1);
        lemma_single_value(m - 1, n, row, t, eri, d);
        assert(single_passes(m) =~= single_passes(m - 1).push(x));
        lemma_passes_push(single_passes(m - 1), x, n, row, t, eri, d);
        assert(n <= n * (n + 1)) by (nonlinear_arith)
            requires
                n >= 1,
        ;
        assert(x.row == m - 1);
        if row == m - 1 {
            lemma_pass_value(n, row, t, row, eri, d);
        }
    } else {
        assert(single_passes(m) =~= seq![]);
    }
}

/// The passes that threads share, with those that one thread makes alone, add up to the
/// exchange matrix too, for every number of threads.
pub proof fn law_shared_exchange_value(
    n: int,
    p: int,
    row: int,
    t: int,
    eri: spec_fn(int, int) -> int,
    d: spec_fn(int, int) -> int,
)
    requires
        divisible(n, p),
        0 <= t <= row < n,
        n * (n + 1) <= usize::MAX,
    ensures
        shared_value(shared_passes(n), n, p, row, t, eri, d) + passes_value(
            single_passes(n),
            n,
            row,
            t,
            eri,
            d,
        ) == exchange_sum(n, row, t, n, eri, d),
{
    lemma_shared_value(shared_passes(n), n, p, row, t, eri, d);
    lemma_pairs_value(n, n, row, t, eri, d);
    lemma_single_value(n, n, row, t, eri, d);
}

/// The weight of a Coulomb term: the sum of its density elements, by their places.
pub open spec fn term_weight(x: CoulombTerm, f: spec_fn(int) -> int) -> int {
    f(x.first as int) + (match x.second {
        Some(s) => f(s as int),
        None => 0,
    })
}

/// What Coulomb terms add to entry `q`.
pub open spec fn terms_value(
    terms: Seq<CoulombTerm>,
    q: int,
    eri: spec_fn(int, int) -> int,
    f: spec_fn(int) -> int,
) -> int
    decreases terms.len(),
{
    if terms.len() == 0 {
        0
    } else {
        terms_value(terms.drop_last(), q, eri, f) + term_weight(terms.last(), f) * eri(
            terms.last().block as int,
            q,
        )
    }
}

/// The integral of the pair `{i, j}` times the density element of row `i` and column `j`.
pub open spec fn coulomb_cell(
    n: int,
    i: int,
    j: int,
    q: int,
    eri: spec_fn(int, int) -> int,
    f: spec_fn(int) -> int,
) -> int {
    f(i * n + j) * eri(pair_index(i, j), q)
}

/// The sum of the first `e` cells of column `j`.
pub open spec fn coulomb_column(
    n: int,
    j: int,
    e: int,
    q: int,
    eri: spec_fn(int, int) -> int,
    f: spec_fn(int) -> int,
) -> int
    decreases e,
{
    if e <= 0 {
        0
    } else {
        coulomb_column(n, j, e - 1, q, eri, f) + coulomb_cell(n, e - 1, j, q, eri, f)
    }
}

/// The sum of the first `e` cells of row `i`.
pub open spec fn coulomb_row(
    n: int,
    i: int,
    e: int,
    q: int,
    eri: spec_fn(int, int) -> int,
    f: spec_fn(int) -> int,
) -> int
    decreases e,
{
    if e <= 0 {
        0
    } else {
        coulomb_row(n, i, e - 1, q, eri, f) + coulomb_cell(n, i, e - 1, q, eri, f)
    }
}

/// The sum over the first `m` columns of their first `e` cells. Over all of them this is entry
/// `q` of the Coulomb matrix.
pub open spec fn coulomb_sum(
    n: int,
    m: int,
    e: int,
    q: int,
    eri: spec_fn(int, int) -> int,
    f: spec_fn(int) -> int,
) -> int
    decreases m,
{
    if m <= 0 {
        0
    } else {
        coulomb_sum(n, m - 1, e, q, eri, f) + coulomb_column(n, m - 1, e, q, eri, f)
    }
}

proof fn lemma_coulomb_more_rows(
    n: int,
    m: int,
    e: int,
    q: int,
    eri: spec_fn(int, int) -> int,
    f: spec_fn(int) -> int,
)
    requires
        0 <= m,
        0 <= e,
    ensures
        coulomb_sum(n, m, e + 1, q, eri, f) == coulomb_sum(n, m, e, q, eri, f) + coulomb_row(
            n,
            e,
            m,
            q,
            eri,
            f,
        ),
    decreases m,
{
    if m > 0 {
        lemma_coulomb_more_rows(n, m - 1, e, q, eri, f);
    }
}

proof fn lemma_terms_push(
    terms: Seq<CoulombTerm>,
    x: CoulombTerm,
    q: int,
    eri: spec_fn(int, int) -> int,
    f: spec_fn(int) -> int,
)
    ensures
        terms_value(terms.push(x), q, eri, f) == terms_value(terms, q, eri, f) + term_weight(x, f)
            * eri(x.block as int, q),
{
    assert(terms.push(x).drop_last() =~= terms);
}

proof fn lemma_terms_concat(
    a: Seq<CoulombTerm>,
    b: Seq<CoulombTerm>,
    q: int,
    eri: spec_fn(int, int) -> int,
    f: spec_fn(int) -> int,
)
    ensures
        terms_value(a + b, q, eri, f) == terms_value(a, q, eri, f) + terms_value(b, q, eri, f),
    decreases b.len(),
{
    if b.len() == 0 {
        assert(a + b =~= a);
    } else {
        assert((a + b).drop_last() =~= a + b.drop_last());
        lemma_terms_concat(a, b.drop_last(), q, eri, f);
    }
}

/// The first `k` terms of the pairs of `j`.
proof fn lemma_row_terms_value(
    k: int,
    j: int,
    n: int,
    q: int,
    eri: spec_fn(int, int) -> int,
    f: spec_fn(int) -> int,
)
    requires
        0 <= k <= j + 1,
        0 <= j < n,
        n * (n + 1) <= usize::MAX,
    ensures
        terms_value(Seq::new(k as nat, |i: int| coulomb_term(i, j, n)), q, eri, f)
            == coulomb_column(n, j, k, q, eri, f) + coulomb_row(
            n,
            j,
            if k <= j {
                k
            } else {
                j
            },
            q,
            eri,
            f,
        ),
    decreases k,
{
    let s = Seq::new(k as nat, |i: int| coulomb_term(i, j, n));
    if k > 0 {
        let i = k - 1;
        lemma_row_terms_value(i, j, n, q, eri, f);
        let earlier = Seq::new(i as nat, |i: int| coulomb_term(i, j, n));
        let x = coulomb_term(i, j, n);
        assert(s =~= earlier.push(x));
        lemma_terms_push(earlier, x, q, eri, f);
        law_pair_index(n, i, j, i, j);
        lemma_triangle_step(n);
        assert(0 <= i * n + j < n * (n + 1) && 0 <= j * n + i < n * (n + 1)) by (nonlinear_arith)
            requires
                0 <= i < n,
                0 <= j < n,
        ;
        assert(x.block == pair_index(i, j) && x.first == i * n + j);
        let e = eri(pair_index(i, j), q);
        if i < j {
            let (a, b) = (f(i * n + j), f(j * n + i));
            assert(term_weight(x, f) == a + b);
            assert((a + b) * e == a * e + b * e) by (nonlinear_arith);
            assert(pair_index(j, i) == pair_index(i, j));
        } else {
            assert(term_weight(x, f) == f(i * n + j));
        }
    } else {
        assert(s =~= seq![]);
    }
}

proof fn lemma_range_terms_value(
    start: int,
    end: int,
    n: int,
    q: int,
    eri: spec_fn(int, int) -> int,
    f: spec_fn(int) -> int,
)
    requires
        0 <= start <= end <= n,
        n * (n + 1) <= usize::MAX,
    ensures
        terms_value(range_terms(start, end, n), q, eri, f) == coulomb_sum(n, end, end, q, eri, f)
            - coulomb_sum(n, start, start, q, eri, f),
    decreases end - start,
{
    if start < end {
        let j = end - 1;
        let own = Seq::new(end as nat, |i: int| coulomb_term(i, j, n));
        lemma_range_terms_value(start, j, n, q, eri, f);
        lemma_row_terms_value(end, j, n, q, eri, f);
        lemma_terms_concat(range_terms(start, j, n), own, q, eri, f);
        lemma_coulomb_more_rows(n, j, j, q, eri, f);
    }
}

/// What the first `k` of `p` threads add to entry `q` of the Coulomb matrix.
pub open spec fn coulomb_threads_value(
    n: int,
    p: int,
    k: int,
    q: int,
    eri: spec_fn(int, int) -> int,
    f: spec_fn(int) -> int,
) -> int
    decreases k,
{
    if k <= 0 {
        0
    } else {
        coulomb_threads_value(n, p, k - 1, q, eri, f) + terms_value(
            range_terms(chunk(n, p, k - 1).0, chunk(n, p, k - 1).1, n),
            q,
            eri,
            f,
        )
    }
}

proof fn lemma_coulomb_threads_value(
    n: int,
    p: int,
    k: int,
    q: int,
    eri: spec_fn(int, int) -> int,
    f: spec_fn(int) -> int,
)
    requires
        0 <= n,
        divisible(n, p),
        0 < k <= p,
        n * (n + 1) <= usize::MAX,
    ensures
        coulomb_threads_value(n, p, k, q, eri, f) == coulomb_sum(
            n,
            chunk(n, p, k - 1).1,
            chunk(n, p, k - 1).1,
            q,
            eri,
            f,
        ),
    decreases k,
{
    law_chunks_tile(n, p, k - 1);
    lemma_range_terms_value(chunk(n, p, k - 1).0, chunk(n, p, k - 1).1, n, q, eri, f);
    if k > 1 {
        lemma_coulomb_threads_value(n, p, k - 1, q, eri, f);
        law_chunks_tile(n, p, k - 2);
    } else {
        assert(coulomb_threads_value(n, p, 0, q, eri, f) == 0);
        assert(coulomb_sum(n, 0, 0, q, eri, f) == 0);
    }
}

/// The terms divided among threads add up to the Coulomb matrix: entry `q` is the sum, over all
/// density elements, of the integral of their pair with `q` times the element. It is the same
/// for every number of threads.
pub proof fn law_coulomb_value(
    n: int,
    p: int,
    q: int,
    eri: spec_fn(int, int) -> int,
    f: spec_fn(int) -> int,
)
    requires
        0 <= n,
        divisible(n, p),
        n * (n + 1) <= usize::MAX,
    ensures
        coulomb_threads_value(n, p, p, q, eri, f) == coulomb_sum(n, n, n, q, eri, f),
        coulomb_threads_value(n, p, p, q, eri, f) == coulomb_threads_value(n, 1, 1, q, eri, f),
{
    lemma_coulomb_threads_value(n, p, p, q, eri, f);
    law_chunks_tile(n, p, p - 1);
    assert(n % 1 == 0);
    lemma_coulomb_threads_value(n, 1, 1, q, eri, f);
    law_chunks_tile(n, 1, 0);
}

} // verus!
