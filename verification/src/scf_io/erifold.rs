//! Contraction of four-centre integrals, folded over the symmetry of both pairs, with a
//! density matrix: which integrals meet which density elements.
//!
//! A folded integral array holds a block for every pair of basis functions, and in every
//! block an entry for every pair; both kinds of pairs are in packed order.

use crate::packed::{lemma_triangle_monotone, lemma_triangle_step, pair_index, triangle};
use vstd::prelude::*;

verus! {

/// One step of an exchange row: the block entries from `start` on meet density element
/// `k`. The first `axpy` of them go to the targets of their own position; if `own`, all `k`
/// entries before the diagonal also meet the density elements of their own position and go
/// to target `k`, and the diagonal entry meets element `k` there.
#[derive(Clone, Copy, Debug, PartialEq, Eq, Structural)]
pub struct RowStep {
    pub k: usize,
    pub start: usize,
    pub axpy: usize,
    pub own: bool,
}

/// Step `k` of an exchange row that ends at target `row`.
pub open spec fn row_step(k: int, row: int) -> RowStep {
    RowStep {
        k: k as usize,
        start: triangle(k) as usize,
        axpy: (if k <= row { k } else { row + 1 }) as usize,
        own: k <= row,
    }
}

/// The steps of an exchange row that ends at target `row`, for `n` basis functions, from
/// density element `from` to before `to`.
pub fn row_steps(from: usize, to: usize, row: usize, n: usize) -> (r: Vec<RowStep>)
    requires
        from <= to <= n,
        row < n,
        n * (n + 1) <= usize::MAX,
    ensures
        r@.len() == to - from,
        forall|x: int| 0 <= x < r@.len() ==> #[trigger] r@[x] == row_step(from + x, row as int),
{
    let mut r: Vec<RowStep> = Vec::new();
    proof {
        lemma_triangle_step(from as int);
        lemma_triangle_step(n as int);
        lemma_triangle_monotone(from as int, n as int);
        assert(from * (from + 1) <= n * (n + 1)) by (nonlinear_arith)
            requires
                0 <= from <= n,
        ;
    }
    let mut start: usize = from * (from + 1) / 2;
    let mut k: usize = from;
    while k < to
        invariant
            from <= k <= to <= n,
            row < n,
            n * (n + 1) <= usize::MAX,
            start == triangle(k as int),
            r@.len() == k - from,
            forall|x: int|
                0 <= x < r@.len() ==> #[trigger] r@[x] == row_step(from + x, row as int),
        decreases to - k,
    {
        proof {
            lemma_triangle_step(k as int);
            lemma_triangle_step(n as int);
            lemma_triangle_monotone(k + 1, n as int);
        }
        if k <= row {
            r.push(RowStep { k, start, axpy: k, own: true });
        } else {
            r.push(RowStep { k, start, axpy: row + 1, own: false });
        }
        start += k + 1;
        k += 1;
    }
    r
}

/// How often a step multiplies block entry `p` with density element `m` for target `t`.
pub open spec fn step_count(s: RowStep, t: int, p: int, m: int) -> nat {
    (if t < s.axpy && p == s.start + t && m == s.k { 1nat } else { 0 }) + (if s.own && t == s.k
        && m < s.k && p == s.start + m {
        1nat
    } else {
        0
    }) + (if s.own && t == s.k && m == s.k && p == s.start + s.k { 1nat } else { 0 })
}

/// How often the steps from density element `from` to before `to` of row `row` multiply
/// block entry `p` with density element `m` for target `t`.
pub open spec fn row_count(from: int, to: int, row: int, t: int, p: int, m: int) -> nat
    decreases to - from,
{
    if to <= from {
        0
    } else {
        row_count(from, to - 1, row, t, p, m) + step_count(row_step(to - 1, row), t, p, m)
    }
}

proof fn lemma_row_count(from: int, to: int, n: int, row: int, t: int, p: int, m: int)
    requires
        0 <= from <= to <= n,
        0 <= t <= row < n,
        0 <= m < n,
        n * (n + 1) <= usize::MAX,
    ensures
        row_count(from, to, row, t, p, m) == (if p == pair_index(t, m) && from <= (if t > m {
            t
        } else {
            m
        }) < to {
            1nat
        } else {
            0
        }),
    decreases to - from,
{
    if from < to {
        lemma_row_count(from, to - 1, n, row, t, p, m);
        lemma_triangle_step(to - 1);
        lemma_triangle_step(n);
        lemma_triangle_monotone(to, n);
        assert(n <= n * (n + 1)) by (nonlinear_arith)
            requires
                n >= 1,
        ;
    }
}

/// Over all steps, target `t` of a row meets every density element `m` exactly once, with
/// the integral of the pair `{t, m}`, and with no other integral.
pub proof fn law_row_complete(n: int, row: int, t: int, p: int, m: int)
    requires
        0 <= t <= row < n,
        0 <= m < n,
        n * (n + 1) <= usize::MAX,
    ensures
        row_count(0, n, row, t, p, m) == (if p == pair_index(t, m) { 1nat } else { 0 }),
{
    lemma_row_count(0, n, n, row, t, p, m);
}

/// Steps divided between two ranges of density elements add up to those of both.
pub proof fn law_row_split(from: int, at: int, to: int, row: int, t: int, p: int, m: int)
    requires
        from <= at <= to,
    ensures
        row_count(from, to, row, t, p, m) == row_count(from, at, row, t, p, m) + row_count(
            at,
            to,
            row,
            t,
            p,
            m,
        ),
    decreases to - at,
{
    if at < to {
        law_row_split(from, at, to - 1, row, t, p, m);
    }
}

/// One pass of the exchange contraction: the integral block of a pair, the density column
/// it meets, and the row it goes to.
#[derive(Clone, Copy, Debug, PartialEq, Eq, Structural)]
pub struct ExchangePass {
    pub row: usize,
    pub column: usize,
    pub block: usize,
}

/// The pass that takes density column `column` to row `row`.
pub open spec fn exchange_pass(row: int, column: int) -> ExchangePass {
    ExchangePass {
        row: row as usize,
        column: column as usize,
        block: pair_index(row, column) as usize,
    }
}

/// The passes of the pairs of `j` with every function below `i`.
pub open spec fn pair_passes(j: int, i: int) -> Seq<ExchangePass>
    decreases i,
{
    if i <= 0 {
        seq![]
    } else {
        pair_passes(j, i - 1).push(exchange_pass(i - 1, j)).push(exchange_pass(j, i - 1))
    }
}

/// The passes of the functions from `start` to before `end`.
pub open spec fn range_passes(start: int, end: int) -> Seq<ExchangePass>
    decreases end - start,
{
    if end <= start {
        seq![]
    } else {
        range_passes(start, end - 1) + pair_passes(end - 1, end - 1).push(
            exchange_pass(end - 1, end - 1),
        )
    }
}

/// The passes of one thread: those of the functions from `start` to before `end`, each with
/// every earlier function and with itself.
pub fn exchange_passes(start: usize, end: usize) -> (r: Vec<ExchangePass>)
    requires
        end * (end + 1) <= usize::MAX,
    ensures
        r@ == range_passes(start as int, end as int),
{
    let mut r: Vec<ExchangePass> = Vec::new();
    let mut j: usize = start;
    while j < end
        invariant
            start <= j,
            start <= end ==> j <= end,
            start > end ==> j == start,
            end * (end + 1) <= usize::MAX,
            r@ == range_passes(start as int, j as int),
        decreases end - j,
    {
        proof {
            lemma_triangle_step(j as int);
            lemma_triangle_step(end as int);
            lemma_triangle_monotone(j + 1, end as int);
            assert(j * (j + 1) <= end * (end + 1)) by (nonlinear_arith)
                requires
                    0 <= j <= end,
            ;
        }
        let base: usize = j * (j + 1) / 2;
        let ghost before = r@;
        let mut i: usize = 0;
        assert(r@ =~= before + pair_passes(j as int, 0));
        while i < j
            invariant
                i <= j,
                base == triangle(j as int),
                triangle(j + 1) == base + j + 1,
                triangle(j + 1) <= usize::MAX,
                r@ == before + pair_passes(j as int, i as int),
            decreases j - i,
        {
            r.push(ExchangePass { row: i, column: j, block: base + i });
            r.push(ExchangePass { row: j, column: i, block: base + i });
            i += 1;
            assert(r@ =~= before + pair_passes(j as int, i as int));
        }
        r.push(ExchangePass { row: j, column: j, block: base + j });
        assert(r@ =~= before + pair_passes(j as int, j as int).push(
            exchange_pass(j as int, j as int),
        ));
        j += 1;
    }
    assert(range_passes(start as int, start as int) =~= seq![]);
    r
}

/// How often a pass occurs in a list.
pub open spec fn pass_count(passes: Seq<ExchangePass>, x: ExchangePass) -> nat
    decreases passes.len(),
{
    if passes.len() == 0 {
        0
    } else {
        pass_count(passes.drop_last(), x) + (if passes.last() == x { 1nat } else { 0 })
    }
}

/// Pushing a pass adds it to the count.
pub proof fn lemma_pass_count_push(passes: Seq<ExchangePass>, y: ExchangePass, x: ExchangePass)
    ensures
        pass_count(passes.push(y), x) == pass_count(passes, x) + (if y == x { 1nat } else { 0 }),
{
    assert(passes.push(y).drop_last() =~= passes);
}

/// Counts of joined lists add up.
pub proof fn lemma_pass_count_concat(a: Seq<ExchangePass>, b: Seq<ExchangePass>, x: ExchangePass)
    ensures
        pass_count(a + b, x) == pass_count(a, x) + pass_count(b, x),
    decreases b.len(),
{
    if b.len() == 0 {
        assert(a + b =~= a);
    } else {
        assert((a + b).drop_last() =~= a + b.drop_last());
        lemma_pass_count_concat(a, b.drop_last(), x);
    }
}

/// The pairs of `j` with the functions below `i` make each of their passes once.
pub proof fn lemma_pair_pass_count(j: int, i: int, row: int, column: int)
    requires
        0 <= i <= j < usize::MAX,
        0 <= row < usize::MAX,
        0 <= column < usize::MAX,
    ensures
        pass_count(pair_passes(j, i), exchange_pass(row, column)) == (if (row < i && column == j)
            || (column < i && row == j) {
            1nat
        } else {
            0
        }),
    decreases i,
{
    if i > 0 {
        lemma_pair_pass_count(j, i - 1, row, column);
        let earlier = pair_passes(j, i - 1);
        let x = exchange_pass(row, column);
        lemma_pass_count_push(earlier, exchange_pass(i - 1, j), x);
        lemma_pass_count_push(
            earlier.push(exchange_pass(i - 1, j)),
            exchange_pass(j, i - 1),
            x,
        );
    }
}

/// A thread makes the pass for a row and a column exactly once if the later of the two
/// functions is among its own, and never otherwise. The block of a pass is that of the
/// pair. Hence threads whose ranges tile all functions make every pass exactly once.
pub proof fn law_passes_once(start: int, end: int, row: int, column: int)
    requires
        0 <= start <= end < usize::MAX,
        0 <= row < usize::MAX,
        0 <= column < usize::MAX,
    ensures
        pass_count(range_passes(start, end), exchange_pass(row, column)) == (if start <= (if row
            > column {
            row
        } else {
            column
        }) < end {
            1nat
        } else {
            0
        }),
    decreases end - start,
{
    if start < end {
        law_passes_once(start, end - 1, row, column);
        let x = exchange_pass(row, column);
        let j = end - 1;
        lemma_pair_pass_count(j, j, row, column);
        lemma_pass_count_push(pair_passes(j, j), exchange_pass(j, j), x);
        lemma_pass_count_concat(
            range_passes(start, end - 1),
            pair_passes(j, j).push(exchange_pass(j, j)),
            x,
        );
    }
}

/// One term of the Coulomb contraction: a block, and the density elements whose sum it is
/// weighted by. A diagonal block has one.
#[derive(Clone, Copy, Debug, PartialEq, Eq, Structural)]
pub struct CoulombTerm {
    pub block: usize,
    pub first: usize,
    pub second: Option<usize>,
}

/// The term of the pair `i <= j`.
pub open spec fn coulomb_term(i: int, j: int, n: int) -> CoulombTerm {
    CoulombTerm {
        block: pair_index(i, j) as usize,
        first: (i * n + j) as usize,
        second: if i == j {
            None
        } else {
            Some((j * n + i) as usize)
        },
    }
}

/// The terms of the pairs of `j` with every function up to it, for `n` functions.
pub fn coulomb_terms(j: usize, n: usize) -> (r: Vec<CoulombTerm>)
    requires
        j < n,
        n * (n + 1) <= usize::MAX,
    ensures
        r@.len() == j + 1,
        forall|i: int| 0 <= i <= j ==> #[trigger] r@[i] == coulomb_term(i, j as int, n as int),
{
    let mut r: Vec<CoulombTerm> = Vec::new();
    proof {
        lemma_triangle_step(j as int);
        lemma_triangle_step(n as int);
        lemma_triangle_monotone(j + 1, n as int);
        assert(j * (j + 1) <= n * (n + 1)) by (nonlinear_arith)
            requires
                0 <= j <= n,
        ;
    }
    let base: usize = j * (j + 1) / 2;
    let mut i: usize = 0;
    while i <= j
        invariant
            i <= j + 1,
            j < n,
            n * (n + 1) <= usize::MAX,
            base == triangle(j as int),
            triangle(j + 1) == base + j + 1,
            triangle(j + 1) <= usize::MAX,
            r@.len() == i,
            forall|x: int| 0 <= x < i ==> #[trigger] r@[x] == coulomb_term(x, j as int, n as int),
        decreases j + 1 - i,
    {
        assert(0 <= i * n + j < n * (n + 1) && 0 <= j * n + i < n * (n + 1) && 0 <= i * n
            && 0 <= j * n) by (nonlinear_arith)
            requires
                0 <= i < n,
                0 <= j < n,
        ;
        if i < j {
            r.push(CoulombTerm { block: base + i, first: i * n + j, second: Some(j * n + i) });
        } else {
            r.push(CoulombTerm { block: base + i, first: i * n + j, second: None });
        }
        i += 1;
    }
    r
}

/// Where block `b` starts in a folded integral array of `n` basis functions.
pub fn block_start(b: usize, n: usize) -> (p: usize)
    requires
        n * (n + 1) <= usize::MAX,
        b < triangle(n as int),
        triangle(n as int) * triangle(n as int) <= usize::MAX,
    ensures
        p == b * triangle(n as int),
        p + triangle(n as int) <= triangle(n as int) * triangle(n as int),
{
    proof {
        lemma_triangle_step(n as int);
        let t = triangle(n as int);
        assert(b * t + t <= t * t) by (nonlinear_arith)
            requires
                0 <= b,
                b + 1 <= t,
        ;
        assert(0 <= b * t) by (nonlinear_arith)
            requires
                0 <= b,
                0 <= t,
        ;
    }
    let pairs: usize = n * (n + 1) / 2;
    b * pairs
}

} // verus!
