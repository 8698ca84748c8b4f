//! Coulomb and exchange matrices from folded four-centre integrals, divided among threads.

use crate::binary64::Real;
use crate::packed::{
    law_pair_index, lemma_triangle_monotone, lemma_triangle_step, packed_len, pair_index, triangle,
};
use crate::scf_io::erifold::{
    coulomb_term, coulomb_terms, exchange_pass, exchange_passes, law_passes_once,
    law_row_complete, law_row_split, lemma_pair_pass_count, lemma_pass_count_concat,
    lemma_pass_count_push, pair_passes, pass_count, range_passes, row_count, row_step, row_steps,
    CoulombTerm, ExchangePass, RowStep,
};
use crate::scf_io::partition::{chunk, divisible, law_chunks_tile, thread_chunks};
use crate::scf_io::setup::{equal_numbers, SCF};
use vstd::prelude::*;

verus! {

/// The number of threads: one unless the input asks for more.
pub open spec fn threads_of(num_threads: Option<usize>) -> int {
    match num_threads {
        Some(p) => p as int,
        None => 1,
    }
}

/// The terms of the functions from `start` to before `end`, each with every function up to
/// it.
pub open spec fn range_terms(start: int, end: int, n: int) -> Seq<CoulombTerm>
    decreases end - start,
{
    if end <= start {
        seq![]
    } else {
        range_terms(start, end - 1, n) + Seq::new(
            end as nat,
            |i: int| coulomb_term(i, end - 1, n),
        )
    }
}

/// The terms of one thread.
fn thread_terms(start: usize, end: usize, n: usize) -> (r: Vec<CoulombTerm>)
    requires
        start <= end <= n,
        n * (n + 1) <= usize::MAX,
    ensures
        r@ == range_terms(start as int, end as int, n as int),
{
    let mut r: Vec<CoulombTerm> = Vec::new();
    let mut j: usize = start;
    while j < end
        invariant
            start <= j <= end <= n,
            n * (n + 1) <= usize::MAX,
            r@ == range_terms(start as int, j as int, n as int),
        decreases end - j,
    {
        let mut own: Vec<CoulombTerm> = coulomb_terms(j, n);
        assert(own@ =~= Seq::new((j + 1) as nat, |i: int| coulomb_term(i, j as int, n as int)));
        r.append(&mut own);
        j += 1;
    }
    r
}

/// What holds of both matrices that a contraction makes, one for each channel: how many
/// densities are contracted, how many entries each matrix has, and whether they are scaled.
/// A matrix that is not made is a single zero.
#[derive(Clone, Copy, Debug, PartialEq, Eq)]
pub struct FoldedFrame {
    pub channels: usize,
    pub entries: [usize; 2],
    pub scaled: bool,
}

/// The pattern of 1, the factor that leaves a matrix as it is.
pub const UNSCALED: u64 = 0x3ff0_0000_0000_0000;

/// The matrices of a calculation, made only where there are integrals.
pub open spec fn is_frame(f: FoldedFrame, scf: SCF, ijkl: bool, scaling: Real) -> bool {
    &&& f.channels == (if ijkl {
        scf.mol.spin_channel
    } else {
        0
    })
    &&& forall|i: int|
        0 <= i < 2 ==> #[trigger] f.entries@[i] == (if ijkl && i < scf.mol.spin_channel {
            triangle(scf.mol.num_basis as int)
        } else {
            1
        })
    &&& f.scaled == !equal_numbers(scaling, Real { bits: UNSCALED })
}

/// A contraction divided among threads.
#[derive(Debug)]
pub struct FoldedPlan<T> {
    pub frame: FoldedFrame,
    /// The work of each thread, done for every channel.
    pub threads: Vec<Vec<T>>,
}

/// The number of threads.
fn thread_count(num_threads: Option<usize>) -> (p: usize)
    ensures
        p == threads_of(num_threads),
{
    match num_threads {
        Some(p) => p,
        None => 1,
    }
}

impl SCF {
    /// The matrices of a contraction.
    fn folded_frame(&self, ijkl: bool, scaling: Real) -> (f: FoldedFrame)
        requires
            self.mol.spin_channel <= 2,
            self.mol.num_basis * (self.mol.num_basis + 1) <= usize::MAX,
        ensures
            is_frame(f, *self, ijkl, scaling),
    {
        let pairs: usize = packed_len(self.mol.num_basis);
        let one = Real { bits: UNSCALED };
        let first: usize = if ijkl && self.mol.spin_channel > 0 {
            pairs
        } else {
            1
        };
        let second: usize = if ijkl && self.mol.spin_channel > 1 {
            pairs
        } else {
            1
        };
        FoldedFrame {
            channels: if ijkl {
                self.mol.spin_channel
            } else {
                0
            },
            entries: [first, second],
            scaled: !(scaling.le(one) && one.le(scaling)),
        }
    }

    /// Plans the Coulomb matrices from folded integrals: the terms that each thread adds up.
    /// `ijkl` tells whether there are integrals.
    pub fn generate_vj_with_erifold4_sync(
        &self,
        num_threads: Option<usize>,
        ijkl: bool,
        scaling: Real,
    ) -> (r: FoldedPlan<CoulombTerm>)
        requires
            self.mol.spin_channel <= 2,
            divisible(self.mol.num_basis as int, threads_of(num_threads)),
            self.mol.num_basis * (self.mol.num_basis + 1) <= usize::MAX,
        ensures
            is_frame(r.frame, *self, ijkl, scaling),
            r.threads@.len() == (if ijkl { threads_of(num_threads) } else { 0 }),
            forall|f: int|
                0 <= f < r.threads@.len() ==> (#[trigger] r.threads@[f])@ == range_terms(
                    chunk(self.mol.num_basis as int, threads_of(num_threads), f).0,
                    chunk(self.mol.num_basis as int, threads_of(num_threads), f).1,
                    self.mol.num_basis as int,
                ),
    {
        let frame: FoldedFrame = self.folded_frame(ijkl, scaling);
        let mut r: Vec<Vec<CoulombTerm>> = Vec::new();
        if !ijkl {
            return FoldedPlan { frame, threads: r };
        }
        let n: usize = self.mol.num_basis;
        let p: usize = thread_count(num_threads);
        let chunks: Vec<(usize, usize)> = thread_chunks(n, p);
        let mut f: usize = 0;
        while f < p
            invariant
                f <= p,
                p == threads_of(num_threads),
                n == self.mol.num_basis,
                n * (n + 1) <= usize::MAX,
                divisible(n as int, p as int),
                chunks@.len() == p,
                forall|x: int|
                    0 <= x < p ==> (#[trigger] chunks@[x]).0 == chunk(n as int, p as int, x).0
                        && chunks@[x].1 == chunk(n as int, p as int, x).1,
                r@.len() == f,
                forall|x: int|
                    0 <= x < f ==> (#[trigger] r@[x])@ == range_terms(
                        chunk(n as int, p as int, x).0,
                        chunk(n as int, p as int, x).1,
                        n as int,
                    ),
            decreases p - f,
        {
            proof {
                law_chunks_tile(n as int, p as int, f as int);
            }
            let (start, end): (usize, usize) = chunks[f];
            r.push(thread_terms(start, end, n));
            f += 1;
        }
        FoldedPlan { frame, threads: r }
    }

    /// Plans the exchange matrices from folded integrals, with the rows divided among the
    /// threads: the passes that each thread makes.
    pub fn generate_vk_with_erifold4_sync_v02(
        &self,
        num_threads: Option<usize>,
        ijkl: bool,
        scaling: Real,
    ) -> (r: FoldedPlan<ExchangePass>)
        requires
            self.mol.spin_channel <= 2,
            divisible(self.mol.num_basis as int, threads_of(num_threads)),
            self.mol.num_basis * (self.mol.num_basis + 1) <= usize::MAX,
        ensures
            is_frame(r.frame, *self, ijkl, scaling),
            r.threads@.len() == (if ijkl { threads_of(num_threads) } else { 0 }),
            forall|f: int|
                0 <= f < r.threads@.len() ==> (#[trigger] r.threads@[f])@ == thread_passes(
                    self.mol.num_basis as int,
                    threads_of(num_threads),
                    f,
                ),
    {
        let frame: FoldedFrame = self.folded_frame(ijkl, scaling);
        let mut r: Vec<Vec<ExchangePass>> = Vec::new();
        if !ijkl {
            return FoldedPlan { frame, threads: r };
        }
        let n: usize = self.mol.num_basis;
        let p: usize = thread_count(num_threads);
        let chunks: Vec<(usize, usize)> = thread_chunks(n, p);
        let mut f: usize = 0;
        while f < p
            invariant
                f <= p,
                p == threads_of(num_threads),
                n == self.mol.num_basis,
                n * (n + 1) <= usize::MAX,
                divisible(n as int, p as int),
                chunks@.len() == p,
                forall|x: int|
                    0 <= x < p ==> (#[trigger] chunks@[x]).0 == chunk(n as int, p as int, x).0
                        && chunks@[x].1 == chunk(n as int, p as int, x).1,
                r@.len() == f,
                forall|x: int|
                    0 <= x < f ==> (#[trigger] r@[x])@ == thread_passes(
                        n as int,
                        p as int,
                        x,
                    ),
            decreases p - f,
        {
            let (start, end): (usize, usize) = chunks[f];
            proof {
                law_chunks_tile(n as int, p as int, f as int);
                assert(end * (end + 1) <= n * (n + 1)) by (nonlinear_arith)
                    requires
                        0 <= end <= n,
                ;
            }
            r.push(exchange_passes(start, end));
            f += 1;
        }
        FoldedPlan { frame, threads: r }
    }

    /// Plans the exchange matrices from folded integrals, with the density elements divided
    /// among the threads: pairs of different functions are contracted by all threads
    /// together, each function with itself by one.
    pub fn generate_vk_with_erifold4_sync(&self, ijkl: bool, scaling: Real) -> (r: SharedPlan)
        requires
            self.mol.spin_channel <= 2,
            self.mol.num_basis * (self.mol.num_basis + 1) <= usize::MAX,
        ensures
            is_frame(r.frame, *self, ijkl, scaling),
            r.shared@ == (if ijkl {
                shared_passes(self.mol.num_basis as int)
            } else {
                seq![]
            }),
            r.single@ == (if ijkl {
                single_passes(self.mol.num_basis as int)
            } else {
                seq![]
            }),
    {
        let frame: FoldedFrame = self.folded_frame(ijkl, scaling);
        let mut shared: Vec<ExchangePass> = Vec::new();
        let mut single: Vec<ExchangePass> = Vec::new();
        if !ijkl {
            assert(shared@ =~= seq![]);
            assert(single@ =~= seq![]);
            return SharedPlan { frame, shared, single };
        }
        let n: usize = self.mol.num_basis;
        let mut j: usize = 0;
        while j < n
            invariant
                j <= n,
                n * (n + 1) <= usize::MAX,
                shared@ == shared_passes(j as int),
                single@ =~= single_passes(j as int),
            decreases n - j,
        {
            proof {
                lemma_triangle_step(j as int);
                lemma_triangle_step(n as int);
                lemma_triangle_monotone(j + 1, n as int);
                assert(j * (j + 1) <= n * (n + 1)) by (nonlinear_arith)
                    requires
                        0 <= j <= n,
                ;
            }
            let base: usize = j * (j + 1) / 2;
            let ghost before = shared@;
            let mut i: usize = 0;
            assert(shared@ =~= before + pair_passes(j as int, 0));
            while i < j
                invariant
                    i <= j,
                    base == triangle(j as int),
                    triangle(j + 1) == base + j + 1,
                    triangle(j + 1) <= usize::MAX,
                    shared@ == before + pair_passes(j as int, i as int),
                decreases j - i,
            {
                shared.push(ExchangePass { row: i, column: j, block: base + i });
                shared.push(ExchangePass { row: j, column: i, block: base + i });
                i += 1;
                assert(shared@ =~= before + pair_passes(j as int, i as int));
            }
            single.push(ExchangePass { row: j, column: j, block: base + j });
            j += 1;
        }
        SharedPlan { frame, shared, single }
    }
}

/// An exchange contraction whose threads share each pass.
#[derive(Debug)]
pub struct SharedPlan {
    pub frame: FoldedFrame,
    /// The passes whose steps are divided among the threads.
    pub shared: Vec<ExchangePass>,
    /// The passes that one thread makes alone.
    pub single: Vec<ExchangePass>,
}

/// The passes of the pairs of different functions below `n`.
pub open spec fn shared_passes(n: int) -> Seq<ExchangePass>
    decreases n,
{
    if n <= 0 {
        seq![]
    } else {
        shared_passes(n - 1) + pair_passes(n - 1, n - 1)
    }
}

/// The passes of the functions below `n` with themselves.
pub open spec fn single_passes(n: int) -> Seq<ExchangePass> {
    Seq::new(n as nat, |i: int| exchange_pass(i, i))
}

/// The steps that each thread makes of a shared pass to row `row`.
pub fn shared_steps(n: usize, num_threads: Option<usize>, row: usize) -> (r: Vec<Vec<RowStep>>)
    requires
        row < n,
        divisible(n as int, threads_of(num_threads)),
        n * (n + 1) <= usize::MAX,
    ensures
        r@.len() == threads_of(num_threads),
        forall|f: int|
            0 <= f < r@.len() ==> is_share(
                (#[trigger] r@[f])@,
                chunk(n as int, threads_of(num_threads), f),
                row as int,
            ),
{
    let p: usize = thread_count(num_threads);
    let chunks: Vec<(usize, usize)> = thread_chunks(n, p);
    let mut r: Vec<Vec<RowStep>> = Vec::new();
    let mut f: usize = 0;
    while f < p
        invariant
            f <= p,
            row < n,
            p == threads_of(num_threads),
            n * (n + 1) <= usize::MAX,
            divisible(n as int, p as int),
            chunks@.len() == p,
            forall|x: int|
                0 <= x < p ==> (#[trigger] chunks@[x]).0 == chunk(n as int, p as int, x).0
                    && chunks@[x].1 == chunk(n as int, p as int, x).1,
            r@.len() == f,
            forall|x: int|
                0 <= x < f ==> is_share(
                    (#[trigger] r@[x])@,
                    chunk(n as int, p as int, x),
                    row as int,
                ),
        decreases p - f,
    {
        let (from, to): (usize, usize) = chunks[f];
        proof {
            law_chunks_tile(n as int, p as int, f as int);
        }
        let steps: Vec<RowStep> = row_steps(from, to, row, n);
        assert(is_share(steps@, chunk(n as int, p as int, f as int), row as int));
        r.push(steps);
        f += 1;
    }
    r
}

/// The steps of a row over a range of density elements.
pub open spec fn is_share(steps: Seq<RowStep>, range: (int, int), row: int) -> bool {
    &&& steps.len() == range.1 - range.0
    &&& forall|x: int|
        0 <= x < steps.len() ==> #[trigger] steps[x] == row_step(range.0 + x, row)
}

/// How often the first `k` threads multiply block entry `q` with density element `m` for
/// target `t` of a shared row.
pub open spec fn shares_count(
    n: int,
    p: int,
    k: int,
    row: int,
    t: int,
    q: int,
    m: int,
) -> nat
    decreases k,
{
    if k <= 0 {
        0
    } else {
        shares_count(n, p, k - 1, row, t, q, m) + row_count(
            chunk(n, p, k - 1).0,
            chunk(n, p, k - 1).1,
            row,
            t,
            q,
            m,
        )
    }
}

proof fn lemma_shares(n: int, p: int, k: int, row: int, t: int, q: int, m: int)
    requires
        0 <= n,
        divisible(n, p),
        0 < k <= p,
    ensures
        shares_count(n, p, k, row, t, q, m) == row_count(
            0,
            chunk(n, p, k - 1).1,
            row,
            t,
            q,
            m,
        ),
    decreases k,
{
    law_chunks_tile(n, p, k - 1);
    if k > 1 {
        lemma_shares(n, p, k - 1, row, t, q, m);
        law_chunks_tile(n, p, k - 2);
        law_row_split(0, chunk(n, p, k - 1).0, chunk(n, p, k - 1).1, row, t, q, m);
    } else {
        assert(shares_count(n, p, 0, row, t, q, m) == 0);
    }
}

/// The shares of all threads add up to the whole row, however many threads there are.
pub proof fn law_shares_add_up(n: int, p: int, row: int, t: int, q: int, m: int)
    requires
        0 <= n,
        divisible(n, p),
    ensures
        shares_count(n, p, p, row, t, q, m) == row_count(0, n, row, t, q, m),
{
    lemma_shares(n, p, p, row, t, q, m);
    law_chunks_tile(n, p, p - 1);
}

proof fn lemma_shared_count(n: int, row: int, column: int)
    requires
        0 <= n < usize::MAX,
        0 <= row < usize::MAX,
        0 <= column < usize::MAX,
    ensures
        pass_count(shared_passes(n), exchange_pass(row, column)) == (if row != column && row < n
            && column < n {
            1nat
        } else {
            0
        }),
    decreases n,
{
    if n > 0 {
        lemma_shared_count(n - 1, row, column);
        lemma_pair_pass_count(n - 1, n - 1, row, column);
        lemma_pass_count_concat(
            shared_passes(n - 1),
            pair_passes(n - 1, n - 1),
            exchange_pass(row, column),
        );
    }
}

proof fn lemma_single_count(n: int, x: ExchangePass)
    requires
        0 <= n < usize::MAX,
    ensures
        pass_count(single_passes(n), x) == (if x.row < n && x == exchange_pass(
            x.row as int,
            x.row as int,
        ) {
            1nat
        } else {
            0
        }),
    decreases n,
{
    if n > 0 {
        lemma_single_count(n - 1, x);
        assert(single_passes(n) =~= single_passes(n - 1).push(exchange_pass(n - 1, n - 1)));
        lemma_pass_count_push(single_passes(n - 1), exchange_pass(n - 1, n - 1), x);
    }
}

proof fn lemma_shared_blocks(n: int, x: ExchangePass)
    requires
        0 <= n < usize::MAX,
        x.block != pair_index(x.row as int, x.column as int) as usize,
    ensures
        pass_count(shared_passes(n), x) == 0,
    decreases n,
{
    if n > 0 {
        lemma_shared_blocks(n - 1, x);
        lemma_pair_blocks(n - 1, n - 1, x);
        lemma_pass_count_concat(shared_passes(n - 1), pair_passes(n - 1, n - 1), x);
    }
}

/// How often a plan with shared passes multiplies entry `q` of integral block `b` with element
/// `m` of density column `column` and adds the product to target `t` of row `row`.
pub open spec fn shared_contributions(
    n: int,
    p: int,
    row: int,
    t: int,
    column: int,
    m: int,
    b: usize,
    q: int,
) -> nat {
    let x = ExchangePass { row: row as usize, column: column as usize, block: b };
    pass_count(shared_passes(n), x) * shares_count(n, p, p, row, t, q, m) + pass_count(
        single_passes(n),
        x,
    ) * row_count(0, n, row, t, q, m)
}

/// With shared passes, too, the exchange matrix is complete, however many threads there are.
pub proof fn law_shared_exchange_complete(
    n: int,
    p: int,
    row: int,
    t: int,
    column: int,
    m: int,
    b: usize,
    q: int,
)
    requires
        0 <= n,
        n * (n + 1) <= usize::MAX,
        divisible(n, p),
        0 <= t <= row < n,
        0 <= column < n,
        0 <= m < n,
    ensures
        shared_contributions(n, p, row, t, column, m, b, q) == (if b == pair_index(row, column)
            && q == pair_index(t, m) {
            1nat
        } else {
            0
        }),
{
    assert(n < n * (n + 1)) by (nonlinear_arith)
        requires
            n >= 1,
    ;
    law_pair_index(n, row, column, row, column);
    lemma_triangle_step(n);
    let x = ExchangePass { row: row as usize, column: column as usize, block: b };
    law_row_complete(n, row, t, q, m);
    law_shares_add_up(n, p, row, t, q, m);
    let steps = row_count(0, n, row, t, q, m);
    let (many, one) = (pass_count(shared_passes(n), x), pass_count(single_passes(n), x));
    lemma_single_count(n, x);
    if b == pair_index(row, column) {
        assert(x == exchange_pass(row, column));
        lemma_shared_count(n, row, column);
        assert(many + one == 1);
    } else {
        lemma_shared_blocks(n, x);
        assert(x.block != exchange_pass(row, row).block || column != row);
        assert(many == 0 && one == 0);
    }
    assert(many * steps + one * steps == (many + one) * steps) by (nonlinear_arith);
    assert((many + one) * steps == (if many + one == 1 { steps } else { 0 })) by (nonlinear_arith)
        requires
            many + one == 1 || many + one == 0,
    ;
}

/// The passes of thread `f` out of `p`.
pub open spec fn thread_passes(n: int, p: int, f: int) -> Seq<ExchangePass> {
    range_passes(chunk(n, p, f).0, chunk(n, p, f).1)
}

/// How often the first `k` threads make a pass.
pub open spec fn threads_count(n: int, p: int, k: int, x: ExchangePass) -> nat
    decreases k,
{
    if k <= 0 {
        0
    } else {
        threads_count(n, p, k - 1, x) + pass_count(thread_passes(n, p, k - 1), x)
    }
}

proof fn lemma_threads_count(n: int, p: int, k: int, row: int, column: int)
    requires
        0 <= n < usize::MAX,
        divisible(n, p),
        0 <= k <= p,
        0 <= row < n,
        0 <= column < n,
    ensures
        threads_count(n, p, k, exchange_pass(row, column)) == (if k > 0 && (if row > column {
            row
        } else {
            column
        }) < chunk(n, p, k - 1).1 {
            1nat
        } else {
            0
        }),
    decreases k,
{
    if k > 0 {
        lemma_threads_count(n, p, k - 1, row, column);
        law_chunks_tile(n, p, k - 1);
        if k > 1 {
            law_chunks_tile(n, p, k - 2);
        }
        law_passes_once(chunk(n, p, k - 1).0, chunk(n, p, k - 1).1, row, column);
    }
}

/// The block of a pass is always that of its row and column.
proof fn lemma_pair_blocks(j: int, i: int, x: ExchangePass)
    requires
        0 <= i <= j < usize::MAX,
        x.block != pair_index(x.row as int, x.column as int) as usize,
    ensures
        pass_count(pair_passes(j, i), x) == 0,
    decreases i,
{
    if i > 0 {
        lemma_pair_blocks(j, i - 1, x);
        let earlier = pair_passes(j, i - 1);
        let (a, b) = (exchange_pass(i - 1, j), exchange_pass(j, i - 1));
        assert(a.row == i - 1 && a.column == j && b.row == j && b.column == i - 1);
        assert(a != x && b != x);
        lemma_pass_count_push(earlier, a, x);
        lemma_pass_count_push(earlier.push(a), b, x);
    }
}

proof fn lemma_range_blocks(start: int, end: int, x: ExchangePass)
    requires
        0 <= start <= end < usize::MAX,
        x.block != pair_index(x.row as int, x.column as int) as usize,
    ensures
        pass_count(range_passes(start, end), x) == 0,
    decreases end - start,
{
    if start < end {
        let j = end - 1;
        lemma_range_blocks(start, j, x);
        lemma_pair_blocks(j, j, x);
        let own = pair_passes(j, j);
        lemma_pass_count_push(own, exchange_pass(j, j), x);
        lemma_pass_count_concat(range_passes(start, j), own.push(exchange_pass(j, j)), x);
    }
}

proof fn lemma_threads_blocks(n: int, p: int, k: int, x: ExchangePass)
    requires
        0 <= n < usize::MAX,
        divisible(n, p),
        0 <= k <= p,
        x.block != pair_index(x.row as int, x.column as int) as usize,
    ensures
        threads_count(n, p, k, x) == 0,
    decreases k,
{
    if k > 0 {
        lemma_threads_blocks(n, p, k - 1, x);
        law_chunks_tile(n, p, k - 1);
        lemma_range_blocks(chunk(n, p, k - 1).0, chunk(n, p, k - 1).1, x);
    }
}

/// How often all threads together multiply entry `q` of integral block `b` with element `m`
/// of density column `column` and add the product to target `t` of row `row`.
pub open spec fn contributions(
    n: int,
    p: int,
    row: int,
    t: int,
    column: int,
    m: int,
    b: usize,
    q: int,
) -> nat {
    threads_count(n, p, p, ExchangePass { row: row as usize, column: column as usize, block: b })
        * row_count(0, n, row, t, q, m)
}

/// The exchange matrix is complete, however many threads there are: target `t` of row `row`
/// gets the product of density element `(column, m)` with the integral of the pairs
/// `{row, column}` and `{t, m}` exactly once, and no other product.
pub proof fn law_exchange_complete(
    n: int,
    p: int,
    row: int,
    t: int,
    column: int,
    m: int,
    b: usize,
    q: int,
)
    requires
        0 <= n,
        n * (n + 1) <= usize::MAX,
        divisible(n, p),
        0 <= t <= row < n,
        0 <= column < n,
        0 <= m < n,
    ensures
        contributions(n, p, row, t, column, m, b, q) == (if b == pair_index(row, column) && q
            == pair_index(t, m) {
            1nat
        } else {
            0
        }),
{
    assert(n < n * (n + 1)) by (nonlinear_arith)
        requires
            n >= 1,
    ;
    law_pair_index(n, row, column, row, column);
    lemma_triangle_step(n);
    assert(triangle(n) <= usize::MAX);
    let x = ExchangePass { row: row as usize, column: column as usize, block: b };
    law_row_complete(n, row, t, q, m);
    let passes = threads_count(n, p, p, x);
    let steps = row_count(0, n, row, t, q, m);
    if b == pair_index(row, column) {
        assert(x == exchange_pass(row, column));
        lemma_threads_count(n, p, p, row, column);
        law_chunks_tile(n, p, p - 1);
        assert(passes == 1);
        assert(passes * steps == steps) by (nonlinear_arith)
            requires
                passes == 1,
        ;
    } else {
        lemma_threads_blocks(n, p, p, x);
        assert(passes * steps == 0) by (nonlinear_arith)
            requires
                passes == 0,
        ;
    }
}

/// How often a term occurs in a list.
pub open spec fn term_count(terms: Seq<CoulombTerm>, x: CoulombTerm) -> nat
    decreases terms.len(),
{
    if terms.len() == 0 {
        0
    } else {
        term_count(terms.drop_last(), x) + (if terms.last() == x { 1nat } else { 0 })
    }
}

proof fn lemma_term_concat(a: Seq<CoulombTerm>, b: Seq<CoulombTerm>, x: CoulombTerm)
    ensures
        term_count(a + b, x) == term_count(a, x) + term_count(b, x),
    decreases b.len(),
{
    if b.len() == 0 {
        assert(a + b =~= a);
    } else {
        assert((a + b).drop_last() =~= a + b.drop_last());
        lemma_term_concat(a, b.drop_last(), x);
    }
}

proof fn lemma_row_terms(k: int, l: int, n: int, i: int, j: int)
    requires
        0 <= k <= l + 1,
        0 <= l < n,
        0 <= i <= j < n,
        n * (n + 1) <= usize::MAX,
    ensures
        term_count(
            Seq::new(k as nat, |x: int| coulomb_term(x, l, n)),
            coulomb_term(i, j, n),
        ) == (if l == j && i < k {
            1nat
        } else {
            0
        }),
    decreases k,
{
    let s = Seq::new(k as nat, |x: int| coulomb_term(x, l, n));
    if k > 0 {
        lemma_row_terms(k - 1, l, n, i, j);
        assert(s.drop_last() =~= Seq::new((k - 1) as nat, |x: int| coulomb_term(x, l, n)));
        law_pair_index(n, k - 1, l, i, j);
        law_pair_index(n, i, j, k - 1, l);
        lemma_triangle_step(n);
    }
}

/// A range of functions has the term of the pair `i <= j` exactly once if `j` is among them.
proof fn lemma_range_terms(start: int, end: int, n: int, i: int, j: int)
    requires
        0 <= start <= end <= n,
        0 <= i <= j < n,
        n * (n + 1) <= usize::MAX,
    ensures
        term_count(range_terms(start, end, n), coulomb_term(i, j, n)) == (if start <= j < end {
            1nat
        } else {
            0
        }),
    decreases end - start,
{
    if start < end {
        lemma_range_terms(start, end - 1, n, i, j);
        lemma_row_terms(end, end - 1, n, i, j);
        lemma_term_concat(
            range_terms(start, end - 1, n),
            Seq::new(end as nat, |x: int| coulomb_term(x, end - 1, n)),
            coulomb_term(i, j, n),
        );
    }
}

/// How often the first `k` threads have a term.
pub open spec fn threads_terms(n: int, p: int, k: int, x: CoulombTerm) -> nat
    decreases k,
{
    if k <= 0 {
        0
    } else {
        threads_terms(n, p, k - 1, x) + term_count(
            range_terms(chunk(n, p, k - 1).0, chunk(n, p, k - 1).1, n),
            x,
        )
    }
}

proof fn lemma_threads_terms(n: int, p: int, k: int, i: int, j: int)
    requires
        0 <= i <= j < n,
        n * (n + 1) <= usize::MAX,
        divisible(n, p),
        0 <= k <= p,
    ensures
        threads_terms(n, p, k, coulomb_term(i, j, n)) == (if k > 0 && j < chunk(n, p, k - 1).1 {
            1nat
        } else {
            0
        }),
    decreases k,
{
    if k > 0 {
        lemma_threads_terms(n, p, k - 1, i, j);
        law_chunks_tile(n, p, k - 1);
        if k > 1 {
            law_chunks_tile(n, p, k - 2);
        }
        lemma_range_terms(chunk(n, p, k - 1).0, chunk(n, p, k - 1).1, n, i, j);
    }
}

/// The Coulomb matrix is complete, however many threads there are: every pair of functions
/// is taken exactly once.
pub proof fn law_coulomb_complete(n: int, p: int, i: int, j: int)
    requires
        0 <= i <= j < n,
        n * (n + 1) <= usize::MAX,
        divisible(n, p),
    ensures
        threads_terms(n, p, p, coulomb_term(i, j, n)) == 1,
{
    lemma_threads_terms(n, p, p, i, j);
    law_chunks_tile(n, p, p - 1);
}

/// Without a number of threads there is one.
pub proof fn law_threads(p: usize)
    ensures
        threads_of(Some(p)) == p,
        threads_of(None) == 1,
{
}

/// A frame has room for a packed matrix in each channel that is made, and for nothing without
/// integrals. Matrices are scaled exactly when the factor is not one.
pub proof fn law_frame(f: FoldedFrame, scf: SCF, ijkl: bool, scaling: Real)
    requires
        is_frame(f, scf, ijkl, scaling),
        scf.mol.spin_channel <= 2,
    ensures
        !ijkl ==> f.channels == 0 && f.entries@[0] == 1 && f.entries@[1] == 1,
        ijkl ==> f.channels == scf.mol.spin_channel,
        ijkl && scf.mol.spin_channel >= 1 ==> f.entries@[0] == triangle(scf.mol.num_basis as int),
        ijkl && scf.mol.spin_channel == 2 ==> f.entries@[1] == triangle(scf.mol.num_basis as int),
        ijkl && scf.mol.spin_channel == 1 ==> f.entries@[1] == 1,
        f.scaled <==> scaling.bits != 0x3ff0_0000_0000_0000,
{
}

/// How often the steps of a list multiply block entry `p` with density element `m` for target `t`.
pub open spec fn steps_count(steps: Seq<RowStep>, t: int, p: int, m: int) -> nat
    decreases steps.len(),
{
    if steps.len() == 0 {
        0
    } else {
        steps_count(steps.drop_last(), t, p, m) + crate::scf_io::erifold::step_count(steps.last(), t, p, m)
    }
}

/// The share of a thread multiplies what its own range of a row multiplies.
pub proof fn law_share(steps: Seq<RowStep>, range: (int, int), row: int, t: int, p: int, m: int)
    requires
        is_share(steps, range, row),
        range.0 <= range.1,
    ensures
        steps_count(steps, t, p, m) == row_count(range.0, range.1, row, t, p, m),
    decreases steps.len(),
{
    if steps.len() > 0 {
        let fewer = steps.drop_last();
        assert forall|x: int| 0 <= x < fewer.len() implies #[trigger] fewer[x] == row_step(
            range.0 + x,
            row,
        ) by {
            assert(fewer[x] == steps[x]);
        }
        law_share(fewer, (range.0, range.1 - 1), row, t, p, m);
        assert(steps.last() == steps[steps.len() - 1]);
    }
}

} // verus!
