//! Work divided among threads and into batches.

use crate::packed::{lemma_triangle_monotone, lemma_triangle_step, triangle};
use itertools::Itertools;
use vstd::arithmetic::div_mod::{
    lemma_div_is_ordered, lemma_fundamental_div_mod, lemma_fundamental_div_mod_converse,
};
use vstd::prelude::*;

verus! {

/// The sizes of the pieces when `n` rows go to `p` threads: that of all threads but the
/// last, and that of the last.
pub open spec fn chunk_sizes(n: int, p: int) -> (int, int) {
    if n % p == 0 {
        (n / p, n / p)
    } else {
        (n / p + 1, n - (n / p + 1) * (p - 1))
    }
}

/// The rows of thread `f`.
pub open spec fn chunk(n: int, p: int, f: int) -> (int, int) {
    let (size, last) = chunk_sizes(n, p);
    if f < p - 1 {
        (f * size, f * size + size)
    } else {
        ((p - 1) * size, (p - 1) * size + last)
    }
}

/// The rows can be divided evenly, or the rounded-up pieces leave something for the last
/// thread.
pub open spec fn divisible(n: int, p: int) -> bool {
    p >= 1 && (n % p == 0 || (n / p + 1) * (p - 1) <= n)
}

/// Divides `n` rows among `p` threads.
pub fn thread_chunks(n: usize, p: usize) -> (r: Vec<(usize, usize)>)
    requires
        divisible(n as int, p as int),
    ensures
        r@.len() == p,
        forall|f: int|
            0 <= f < p ==> (#[trigger] r@[f]).0 == chunk(n as int, p as int, f).0 && r@[f].1
                == chunk(n as int, p as int, f).1,
{
    proof {
        law_chunks_tile(n as int, p as int, 0);
        lemma_fundamental_div_mod(n as int, p as int);
    }
    let even: bool = n % p == 0;
    let size: usize = if even {
        n / p
    } else {
        n / p + 1
    };
    let mut r: Vec<(usize, usize)> = Vec::new();
    let mut start: usize = 0;
    while r.len() < p - 1
        invariant
            r@.len() <= p - 1,
            divisible(n as int, p as int),
            size == chunk_sizes(n as int, p as int).0,
            start == r@.len() * size,
            forall|f: int|
                0 <= f < r@.len() ==> (#[trigger] r@[f]).0 == chunk(n as int, p as int, f).0
                    && r@[f].1 == chunk(n as int, p as int, f).1,
        decreases p - r@.len(),
    {
        proof {
            let f = r@.len() as int;
            law_chunks_tile(n as int, p as int, f);
            assert((f + 1) * size == f * size + size) by (nonlinear_arith);
        }
        r.push((start, start + size));
        start += size;
    }
    proof {
        law_chunks_tile(n as int, p as int, p - 1);
    }
    r.push((start, n));
    r
}

/// The threads' rows follow each other, start at zero and end at `n`: every row goes to
/// exactly one thread.
pub proof fn law_chunks_tile(n: int, p: int, f: int)
    requires
        0 <= n,
        divisible(n, p),
        0 <= f < p,
    ensures
        chunk(n, p, 0).0 == 0,
        chunk(n, p, p - 1).1 == n,
        f < p - 1 ==> chunk(n, p, f).1 == chunk(n, p, f + 1).0,
        0 <= chunk(n, p, f).0 <= chunk(n, p, f).1 <= n,
        0 <= chunk_sizes(n, p).0,
{
    lemma_fundamental_div_mod(n, p);
    let (size, last) = chunk_sizes(n, p);
    assert(n / p >= 0) by (nonlinear_arith)
        requires
            n >= 0,
            p >= 1,
            n == p * (n / p) + n % p,
            0 <= n % p < p,
    ;
    assert((p - 1) * (n / p) + n / p == p * (n / p)) by (nonlinear_arith);
    assert((p - 1) * size + last == n) by {
        if n % p != 0 {
            assert((p - 1) * (n / p + 1) == (n / p + 1) * (p - 1)) by (nonlinear_arith);
        }
    }
    assert(0 <= f * size) by (nonlinear_arith)
        requires
            f >= 0,
            size >= 0,
    ;
    assert((f + 1) * size == f * size + size) by (nonlinear_arith);
    if f < p - 1 {
        assert((f + 1) * size <= (p - 1) * size) by (nonlinear_arith)
            requires
                f + 1 <= p - 1,
                size >= 0,
        ;
    }
    assert(0 <= last) by {
        if n % p != 0 {
            assert((n / p + 1) * (p - 1) <= n);
        }
    }
    assert(0 * size == 0);
    assert((p - 1) * size <= n);
}

/// The number of batches of the given size.
pub open spec fn batch_count(total: int, size: int) -> int {
    (total + size - 1) / size
}

/// The start and the length of batch `i`: full, except that the last one ends with the data.
pub open spec fn batch_at(total: int, size: int, i: int) -> (int, int) {
    (
        i * size,
        if i * size + size <= total {
            size
        } else {
            total - i * size
        },
    )
}

/// Divides `total` items into batches, given by start and length.
pub fn batches(total: usize, size: usize) -> (r: Vec<(usize, usize)>)
    requires
        size > 0,
    ensures
        r@.len() == batch_count(total as int, size as int),
        forall|i: int|
            0 <= i < r@.len() ==> (#[trigger] r@[i]).0 == batch_at(total as int, size as int, i).0
                && r@[i].1 == batch_at(total as int, size as int, i).1,
{
    let mut r: Vec<(usize, usize)> = Vec::new();
    let mut start: usize = 0;
    assert(r@.len() * size == 0) by (nonlinear_arith)
        requires
            r@.len() == 0,
    ;
    while start < total
        invariant
            size > 0,
            start <= total,
            start == (if r@.len() * size <= total { r@.len() * size } else { total as int }),
            start < total || (r@.len() - 1) * size < total || total == 0 && r@.len() == 0,
            forall|i: int|
                0 <= i < r@.len() ==> (#[trigger] r@[i]).0 == batch_at(
                    total as int,
                    size as int,
                    i,
                ).0 && r@[i].1 == batch_at(total as int, size as int, i).1,
        decreases total - start,
    {
        let left: usize = total - start;
        let len: usize = if size <= left {
            size
        } else {
            left
        };
        let ghost k = r@.len() as int;
        assert((k + 1) * size == k * size + size) by (nonlinear_arith);
        r.push((start, len));
        start += len;
    }
    proof {
        let k = r@.len() as int;
        let t = total as int + size as int - 1;
        if total == 0 {
            assert(k == 0) by {
                if k > 0 {
                    assert((k - 1) * size >= 0) by (nonlinear_arith)
                        requires
                            k >= 1,
                            size > 0,
                    ;
                }
            }
            lemma_fundamental_div_mod_converse(t, size as int, 0, t);
        } else {
            assert(k * size >= total && (k - 1) * size < total);
            assert((k - 1) * size == k * size - size) by (nonlinear_arith);
            lemma_fundamental_div_mod_converse(t, size as int, k, t - k * size);
        }
    }
    r
}

/// Every item lies in exactly one batch.
pub proof fn law_batches_tile(total: int, size: int, x: int, i: int)
    requires
        size > 0,
        0 <= x < total,
        0 <= i < batch_count(total, size),
    ensures
        0 <= x / size < batch_count(total, size),
        batch_at(total, size, i).0 <= x < batch_at(total, size, i).0 + batch_at(total, size, i).1
            <==> i == x / size,
        0 < batch_at(total, size, i).1 <= size,
{
    lemma_fundamental_div_mod(x, size);
    let q = x / size;
    let c = batch_count(total, size);
    lemma_fundamental_div_mod(total + size - 1, size);
    assert(size * q == q * size) by (nonlinear_arith);
    assert(size * c == c * size) by (nonlinear_arith);
    lemma_div_is_ordered(0, x, size);
    assert(q >= 0) by (nonlinear_arith)
        requires
            x >= 0,
            size > 0,
            x == q * size + x % size,
            0 <= x % size < size,
    ;
    assert(q < c) by (nonlinear_arith)
        requires
            q * size <= x,
            x < total,
            total <= c * size,
            size > 0,
    ;
    assert((i + 1) * size == i * size + size) by (nonlinear_arith);
    assert((i + 1) * size <= c * size) by (nonlinear_arith)
        requires
            i + 1 <= c,
            size > 0,
    ;
    if i < q {
        assert((i + 1) * size <= q * size) by (nonlinear_arith)
            requires
                i + 1 <= q,
                size > 0,
        ;
    }
    if i > q {
        assert((q + 1) * size == q * size + size) by (nonlinear_arith);
        assert((q + 1) * size <= i * size) by (nonlinear_arith)
            requires
                q + 1 <= i,
                size > 0,
        ;
    }
}

/// The diagonal elements among the packed elements from `start` on, `len` of them: the
/// first row, and the row behind the last.
pub fn diagonals_in_batch(start: usize, len: usize, n: usize) -> (r: (usize, usize))
    requires
        n * (n + 1) <= usize::MAX,
        start + len <= triangle(n as int),
    ensures
        r.0 <= r.1 <= n,
        forall|i: int|
            0 <= i < n ==> (r.0 <= i < r.1 <==> start <= #[trigger] triangle(i) + i < start + len),
{
    let end: usize = start + len;
    let mut lo: usize = 0;
    let mut last: usize = 0;
    proof {
        lemma_triangle_step(n as int);
    }
    while lo < n && last < start
        invariant
            lo <= n,
            n * (n + 1) <= usize::MAX,
            last == triangle(lo as int) + lo,
            triangle(n as int) <= usize::MAX,
            forall|i: int| 0 <= i < lo ==> #[trigger] triangle(i) + i < start,
        decreases n - lo,
    {
        proof {
            lemma_diagonal_step(lo as int, n as int);
        }
        lo += 1;
        last = last + lo + 1;
    }
    let mut hi: usize = lo;
    while hi < n && last < end
        invariant
            lo <= hi <= n,
            n * (n + 1) <= usize::MAX,
            last == triangle(hi as int) + hi,
            triangle(n as int) <= usize::MAX,
            forall|i: int| lo <= i < hi ==> #[trigger] triangle(i) + i < end,
        decreases n - hi,
    {
        proof {
            lemma_diagonal_step(hi as int, n as int);
        }
        hi += 1;
        last = last + hi + 1;
    }
    proof {
        assert forall|i: int| 0 <= i < n implies (lo <= i < hi <==> start <= #[trigger] triangle(i)
            + i < end) by {
            if i >= lo {
                lemma_triangle_monotone(lo as int, i);
            }
            if i >= hi {
                lemma_triangle_monotone(hi as int, i);
            }
        }
    }
    (lo, hi)
}

proof fn lemma_diagonal_step(i: int, n: int)
    requires
        0 <= i < n,
        n * (n + 1) <= usize::MAX,
    ensures
        triangle(i + 1) + i + 1 == triangle(i) + i + i + 2,
        triangle(i) + i + i + 2 <= usize::MAX,
{
    lemma_triangle_step(i);
    lemma_triangle_monotone(i + 1, n);
    lemma_triangle_step(n);
}

/// A pair of shells to work on, with the size of its block: (size, first, second).
pub type ShellTask = (usize, usize, usize);

/// The shell pairs whose second shell is `l` and whose first is below `k`.
pub open spec fn tasks_of(lens: Seq<usize>, l: int, k: int) -> Seq<ShellTask>
    decreases k,
{
    if k <= 0 {
        seq![]
    } else {
        tasks_of(lens, l, k - 1).push(
            ((lens[k - 1] * lens[l]) as usize, (k - 1) as usize, l as usize),
        )
    }
}

/// The shell pairs whose second shell is below `l`.
pub open spec fn shell_tasks(lens: Seq<usize>, l: int) -> Seq<ShellTask>
    decreases l,
{
    if l <= 0 {
        seq![]
    } else {
        shell_tasks(lens, l - 1) + tasks_of(lens, l - 1, l)
    }
}

/// The tasks of one size, in order.
pub open spec fn of_size(tasks: Seq<ShellTask>, w: usize) -> Seq<ShellTask> {
    tasks.filter(|t: ShellTask| t.0 == w)
}

/// `r` is `s` sorted by size, tasks of equal size in their former order.
pub open spec fn sorted_by_size(r: Seq<ShellTask>, s: Seq<ShellTask>) -> bool {
    &&& r.to_multiset() == s.to_multiset()
    &&& forall|i: int, j: int| 0 <= i < j < r.len() ==> (#[trigger] r[i]).0 <= (#[trigger] r[j]).0
    &&& forall|w: usize| #[trigger] of_size(r, w) == of_size(s, w)
}

/// Calls `itertools::Itertools::sorted_by_key`, which sorts by size and keeps the order of
/// tasks of equal size.
#[verifier::external_body]
fn sort_tasks(tasks: &Vec<ShellTask>) -> (r: Vec<ShellTask>)
    ensures
        sorted_by_size(r@, tasks@),
{
    tasks.iter().copied().sorted_by_key(|t| t.0).collect()
}

/// The tasks at the two ends of a list, taken pairwise, up to `h` pairs.
pub open spec fn ends(s: Seq<ShellTask>, h: int) -> Seq<ShellTask>
    decreases h,
{
    if h <= 0 {
        seq![]
    } else {
        ends(s, h - 1).push(s[h - 1]).push(s[s.len() - h])
    }
}

/// The smallest and the largest task, the next smallest and the next largest, and so on;
/// the middle one of an odd number comes first.
pub open spec fn interleaved(s: Seq<ShellTask>) -> Seq<ShellTask> {
    if s.len() % 2 == 1 {
        seq![s[s.len() as int / 2]] + ends(s, s.len() as int / 2)
    } else {
        ends(s, s.len() as int / 2)
    }
}

proof fn lemma_ends_multiset(s: Seq<ShellTask>, h: int)
    requires
        0 <= h,
        2 * h <= s.len(),
    ensures
        s.to_multiset() == ends(s, h).to_multiset().add(
            s.subrange(h, s.len() - h).to_multiset(),
        ),
    decreases h,
{
    if h == 0 {
        assert(s.subrange(0, s.len() as int) =~= s);
        vstd::seq_lib::lemma_multiset_commutative(ends(s, 0), s);
        assert(ends(s, 0) + s =~= s);
    } else {
        lemma_ends_multiset(s, h - 1);
        let n = s.len() as int;
        let inner = s.subrange(h, n - h);
        let outer = s.subrange(h - 1, n - h + 1);
        let before = ends(s, h - 1);
        let first = s[h - 1];
        let last = s[n - h];
        assert(outer =~= seq![first] + inner + seq![last]);
        vstd::seq_lib::lemma_multiset_commutative(seq![first] + inner, seq![last]);
        vstd::seq_lib::lemma_multiset_commutative(seq![first], inner);
        vstd::seq_lib::lemma_multiset_commutative(before.push(first), seq![last]);
        vstd::seq_lib::lemma_multiset_commutative(before, seq![first]);
        assert(before.push(first) =~= before + seq![first]);
        assert(before.push(first).push(last) =~= before.push(first) + seq![last]);
        assert(s.to_multiset() =~= ends(s, h).to_multiset().add(inner.to_multiset()));
    }
}

/// Interleaving loses and repeats no task.
pub proof fn law_interleaved(s: Seq<ShellTask>)
    ensures
        interleaved(s).to_multiset() == s.to_multiset(),
{
    let h = s.len() as int / 2;
    lemma_ends_multiset(s, h);
    let middle = s.subrange(h, s.len() - h);
    if s.len() % 2 == 1 {
        assert(middle =~= seq![s[h]]);
        vstd::seq_lib::lemma_multiset_commutative(seq![s[h]], ends(s, h));
        assert(interleaved(s).to_multiset() =~= s.to_multiset());
    } else {
        assert(middle =~= Seq::<ShellTask>::empty());
        vstd::seq_lib::lemma_multiset_commutative(ends(s, h), middle);
        assert(ends(s, h) + middle =~= ends(s, h));
    }
}

/// Arranges sorted tasks so that neighbouring ones add up to similar amounts of work.
pub fn interleave(s: &Vec<ShellTask>) -> (r: Vec<ShellTask>)
    ensures
        r@ == interleaved(s@),
{
    let n: usize = s.len();
    let h: usize = n / 2;
    let mut r: Vec<ShellTask> = Vec::new();
    if n % 2 == 1 {
        r.push(s[h]);
    }
    let ghost first = r@;
    let mut i: usize = 0;
    assert(r@ =~= first + ends(s@, 0));
    while i < h
        invariant
            i <= h,
            n == s@.len(),
            h == n / 2,
            r@ == first + ends(s@, i as int),
        decreases h - i,
    {
        r.push(s[i]);
        r.push(s[n - 1 - i]);
        i += 1;
        assert(r@ =~= first + ends(s@, i as int));
    }
    assert(r@ =~= interleaved(s@));
    r
}

/// The shell pairs in the order in which they are handed to threads: all pairs of the
/// shells with `lens` basis functions each, small and large blocks taking turns.
pub fn shell_pair_schedule(lens: &Vec<usize>) -> (r: Vec<ShellTask>)
    requires
        forall|k: int, l: int|
            0 <= k < lens@.len() && 0 <= l < lens@.len() ==> #[trigger] lens@[k]
                * #[trigger] lens@[l] <= usize::MAX,
    ensures
        exists|s: Seq<ShellTask>|
            sorted_by_size(s, shell_tasks(lens@, lens@.len() as int)) && r@ == #[trigger]
                interleaved(s),
        r@.to_multiset() == shell_tasks(lens@, lens@.len() as int).to_multiset(),
{
    let n: usize = lens.len();
    let mut tasks: Vec<ShellTask> = Vec::new();
    let mut l: usize = 0;
    while l < n
        invariant
            l <= n,
            n == lens@.len(),
            forall|k: int, l: int|
                0 <= k < lens@.len() && 0 <= l < lens@.len() ==> #[trigger] lens@[k]
                    * #[trigger] lens@[l] <= usize::MAX,
            tasks@ == shell_tasks(lens@, l as int),
        decreases n - l,
    {
        let ghost before = tasks@;
        let mut k: usize = 0;
        assert(tasks@ =~= before + tasks_of(lens@, l as int, 0));
        while k <= l
            invariant
                k <= l + 1,
                l < n,
                n == lens@.len(),
                forall|k: int, l: int|
                    0 <= k < lens@.len() && 0 <= l < lens@.len() ==> #[trigger] lens@[k]
                        * #[trigger] lens@[l] <= usize::MAX,
                tasks@ == before + tasks_of(lens@, l as int, k as int),
            decreases l + 1 - k,
        {
            assert(0 <= lens@[k as int] * lens@[l as int]) by (nonlinear_arith)
                requires
                    lens@[k as int] >= 0,
                    lens@[l as int] >= 0,
            ;
            let w: usize = lens[k] * lens[l];
            tasks.push((w, k, l));
            k += 1;
            assert(tasks@ =~= before + tasks_of(lens@, l as int, k as int));
        }
        l += 1;
    }
    let sorted: Vec<ShellTask> = sort_tasks(&tasks);
    proof {
        law_interleaved(sorted@);
    }
    interleave(&sorted)
}

/// All pieces but the last have one size, which is the smallest that lets so many pieces hold
/// everything.
pub proof fn law_chunk_sizes(n: int, p: int, f: int)
    requires
        0 <= n,
        divisible(n, p),
        0 <= f < p,
    ensures
        ({
            let size = chunk_sizes(n, p).0;
            &&& p * size >= n
            &&& n > 0 ==> p * (size - 1) < n
            &&& f < p - 1 ==> chunk(n, p, f).1 - chunk(n, p, f).0 == size
            &&& chunk(n, p, f).0 == f * size
        }),
{
    let q = n / p;
    let r = n % p;
    vstd::arithmetic::div_mod::lemma_fundamental_div_mod(n, p);
    assert(p * (q + 1) == p * q + p) by (nonlinear_arith);
    assert(p * (q - 1) == p * q - p) by (nonlinear_arith);
    assert(0 <= r < p);
    if r != 0 {
        assert(p * (q + 1 - 1) == p * q);
    }
}

/// There are just enough batches: one fewer would leave something out.
pub proof fn law_batch_count(total: int, size: int)
    requires
        size > 0,
        0 <= total,
    ensures
        batch_count(total, size) * size >= total,
        (batch_count(total, size) - 1) * size < total || total == 0,
        total == 0 ==> batch_count(total, size) == 0,
{
    let n = batch_count(total, size);
    vstd::arithmetic::div_mod::lemma_fundamental_div_mod(total + size - 1, size);
    assert(size * n == n * size) by (nonlinear_arith);
    assert((n - 1) * size == n * size - size) by (nonlinear_arith);
    if total == 0 {
        vstd::arithmetic::div_mod::lemma_basic_div(size - 1, size);
    }
}

proof fn lemma_tasks_of(lens: Seq<usize>, l: int, k: int, t: ShellTask)
    requires
        0 <= k <= l + 1,
        0 <= l < lens.len() <= usize::MAX,
    ensures
        tasks_of(lens, l, k).contains(t) <==> t.1 < k && t.2 == l && t.0 == (lens[t.1 as int]
            * lens[l]) as usize,
    decreases k,
{
    let all = tasks_of(lens, l, k);
    if k > 0 {
        let earlier = tasks_of(lens, l, k - 1);
        lemma_tasks_of(lens, l, k - 1, t);
        assert(all[all.len() - 1] == ((lens[k - 1] * lens[l]) as usize, (k - 1) as usize, l as usize));
        if earlier.contains(t) {
            let x = choose|x: int| 0 <= x < earlier.len() && earlier[x] == t;
            assert(all[x] == t);
        }
        if all.contains(t) {
            let x = choose|x: int| 0 <= x < all.len() && all[x] == t;
            if x < earlier.len() {
                assert(earlier[x] == t);
            }
        }
        if t.1 == k - 1 && t.2 == l && t.0 == (lens[t.1 as int] * lens[l]) as usize {
            assert(all[all.len() - 1] == t);
        }
    }
}

/// The tasks are all pairs of shells, the first no higher than the second, each with the product
/// of the two lengths as its size.
pub proof fn law_shell_tasks(lens: Seq<usize>, l: int, t: ShellTask)
    requires
        0 <= l <= lens.len() <= usize::MAX,
    ensures
        shell_tasks(lens, l).contains(t) <==> t.1 <= t.2 < l && t.0 == (lens[t.1 as int]
            * lens[t.2 as int]) as usize,
    decreases l,
{
    let all = shell_tasks(lens, l);
    if l > 0 {
        let (earlier, own) = (shell_tasks(lens, l - 1), tasks_of(lens, l - 1, l));
        law_shell_tasks(lens, l - 1, t);
        lemma_tasks_of(lens, l - 1, l, t);
        if earlier.contains(t) {
            let x = choose|x: int| 0 <= x < earlier.len() && earlier[x] == t;
            assert(all[x] == t);
        }
        if own.contains(t) {
            let x = choose|x: int| 0 <= x < own.len() && own[x] == t;
            assert(all[earlier.len() + x] == t);
        }
        if all.contains(t) {
            let x = choose|x: int| 0 <= x < all.len() && all[x] == t;
            if x < earlier.len() {
                assert(earlier[x] == t);
            } else {
                assert(own[x - earlier.len()] == t);
            }
        }
    }
}

proof fn lemma_ends_entry(s: Seq<ShellTask>, h: int, i: int)
    requires
        0 <= i < h,
        2 * h <= s.len(),
    ensures
        ends(s, h).len() == 2 * h,
        ends(s, h)[2 * i] == s[i],
        ends(s, h)[2 * i + 1] == s[s.len() - 1 - i],
    decreases h,
{
    if i < h - 1 {
        lemma_ends_entry(s, h - 1, i);
    } else if h > 1 {
        lemma_ends_entry(s, h - 1, 0);
    } else {
        assert(ends(s, 0).len() == 0);
    }
}

/// Tasks alternate from both ends: behind the middle one of an odd number come the first and the
/// last, the second and the last but one, and so on.
pub proof fn law_interleaved_order(s: Seq<ShellTask>, i: int)
    requires
        0 <= i < s.len() as int / 2,
    ensures
        interleaved(s).len() == s.len(),
        ({
            let odd = s.len() as int % 2;
            &&& interleaved(s)[odd + 2 * i] == s[i]
            &&& interleaved(s)[odd + 2 * i + 1] == s[s.len() - 1 - i]
            &&& odd == 1 ==> interleaved(s)[0] == s[s.len() as int / 2]
        }),
{
    lemma_ends_entry(s, s.len() as int / 2, i);
}

/// Rows can be divided among threads exactly when the last thread is left with no fewer than none.
pub proof fn law_divisible(n: int, p: int)
    requires
        0 <= n,
        1 <= p,
    ensures
        divisible(n, p) <==> chunk_sizes(n, p).1 >= 0,
        divisible(n, 1),
{
    if n % p == 0 {
        vstd::arithmetic::div_mod::lemma_div_pos_is_pos(n, p);
    }
    assert(n % 1 == 0);
}

} // verus!
