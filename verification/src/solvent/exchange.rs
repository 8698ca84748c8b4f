//! Exchanges of list entries: row pivots of a factorized matrix and random shuffles.

use crate::binary64::Real;
use rand::rngs::StdRng;
use rand::Rng;
use vstd::prelude::*;

verus! {

/// A random number generator of `rand`; nothing is known of its state.
#[verifier::external_type_specification]
#[verifier::external_body]
pub struct ExStdRng(StdRng);

/// Calls `<[T]>::swap` of the standard library, which exchanges two entries and keeps
/// the others.
#[verifier::external_body]
fn swap_entries<T>(s: &mut [T], a: usize, b: usize)
    requires
        a < old(s)@.len(),
        b < old(s)@.len(),
    ensures
        final(s)@ == swapped(old(s)@, a as int, b as int),
{
    s.swap(a, b)
}

/// Calls `rand::Rng::gen_range`: some number below the bound. Which one is left to
/// chance.
#[verifier::external_body]
fn draw_below(rng: &mut StdRng, bound: usize) -> (r: usize)
    requires
        bound > 0,
    ensures
        r < bound,
{
    rng.gen_range(0, bound)
}

/// A sequence with two positions exchanged.
pub open spec fn swapped<T>(s: Seq<T>, a: int, b: int) -> Seq<T> {
    s.update(a, s[b]).update(b, s[a])
}

/// One-based exchange partners, each inside the list.
pub open spec fn valid_pivots(ipiv: Seq<i32>, n: int) -> bool {
    forall|i: int| 0 <= i < ipiv.len() ==> 1 <= #[trigger] ipiv[i] <= n
}

/// The list after the first `n` exchanges, in ascending order.
pub open spec fn pivoted<T>(x: Seq<T>, ipiv: Seq<i32>, n: int) -> Seq<T>
    decreases n,
{
    if n <= 0 {
        x
    } else {
        swapped(pivoted(x, ipiv, n - 1), n - 1, ipiv[n - 1] - 1)
    }
}

/// The list after the first `n` exchanges, in descending order.
pub open spec fn unpivoted<T>(x: Seq<T>, ipiv: Seq<i32>, n: int) -> Seq<T>
    decreases n,
{
    if n <= 0 {
        x
    } else {
        unpivoted(swapped(x, n - 1, ipiv[n - 1] - 1), ipiv, n - 1)
    }
}

/// Applies the row exchanges of a factorization to a right-hand side.
pub fn apply_pivots<T>(x: &mut [T], ipiv: &Vec<i32>)
    requires
        ipiv@.len() == old(x)@.len(),
        valid_pivots(ipiv@, old(x)@.len() as int),
    ensures
        final(x)@ == pivoted(old(x)@, ipiv@, ipiv@.len() as int),
{
    let ghost start = x@;
    let mut i: usize = 0;
    while i < ipiv.len()
        invariant
            i <= ipiv@.len(),
            ipiv@.len() == start.len(),
            x@.len() == start.len(),
            valid_pivots(ipiv@, start.len() as int),
            x@ == pivoted(start, ipiv@, i as int),
        decreases ipiv@.len() - i,
    {
        let ghost before = x@;
        assert(1 <= ipiv@[i as int] <= start.len());
        let p: usize = ipiv[i] as usize;
        if p != i + 1 {
            swap_entries(x, i, p - 1);
        } else {
            assert(swapped(before, i as int, i as int) =~= before);
        }
        i += 1;
    }
}

/// Applies the row exchanges of a factorization in reverse, as the transposed system
/// needs them.
pub fn undo_pivots<T>(x: &mut [T], ipiv: &Vec<i32>)
    requires
        ipiv@.len() == old(x)@.len(),
        valid_pivots(ipiv@, old(x)@.len() as int),
    ensures
        final(x)@ == unpivoted(old(x)@, ipiv@, ipiv@.len() as int),
{
    let ghost start = x@;
    let mut i: usize = ipiv.len();
    while i > 0
        invariant
            i <= ipiv@.len(),
            ipiv@.len() == start.len(),
            x@.len() == start.len(),
            valid_pivots(ipiv@, start.len() as int),
            unpivoted(start, ipiv@, ipiv@.len() as int) == unpivoted(x@, ipiv@, i as int),
        decreases i,
    {
        let ghost before = x@;
        i -= 1;
        assert(1 <= ipiv@[i as int] <= start.len());
        let p: usize = ipiv[i] as usize;
        if p != i + 1 {
            swap_entries(x, i, p - 1);
        } else {
            assert(swapped(before, i as int, i as int) =~= before);
        }
    }
}

proof fn lemma_pivoted_len<T>(x: Seq<T>, ipiv: Seq<i32>, n: int)
    requires
        0 <= n <= ipiv.len(),
        ipiv.len() == x.len(),
        valid_pivots(ipiv, x.len() as int),
    ensures
        pivoted(x, ipiv, n).len() == x.len(),
    decreases n,
{
    if n > 0 {
        lemma_pivoted_len(x, ipiv, n - 1);
    }
}

/// The reversed exchanges undo the exchanges.
pub proof fn law_pivots_undone<T>(x: Seq<T>, ipiv: Seq<i32>, n: int)
    requires
        0 <= n <= ipiv.len(),
        ipiv.len() == x.len(),
        valid_pivots(ipiv, x.len() as int),
    ensures
        unpivoted(pivoted(x, ipiv, n), ipiv, n) == x,
    decreases n,
{
    if n > 0 {
        lemma_pivoted_len(x, ipiv, n - 1);
        let y = pivoted(x, ipiv, n - 1);
        assert(1 <= ipiv[n - 1] <= x.len());
        assert(swapped(swapped(y, n - 1, ipiv[n - 1] - 1), n - 1, ipiv[n - 1] - 1) =~= y);
        law_pivots_undone(x, ipiv, n - 1);
    }
}

/// The pattern of 1e-15, below which a diagonal entry counts as zero.
pub const SINGULAR_THRESHOLD: u64 = 0x3cd2_03af_9ee7_5616;

/// Whether a diagonal entry makes the system singular.
pub open spec fn singular(d: Real) -> bool {
    (Real { bits: d.magnitude() as u64 }).below(Real { bits: SINGULAR_THRESHOLD })
}

/// The last diagonal entry, if any, that makes a triangular system singular: the one
/// at which back substitution stops.
pub fn last_singular(diagonal: &Vec<Real>) -> (r: Option<usize>)
    ensures
        match r {
            Some(i) => i < diagonal@.len() && singular(diagonal@[i as int]) && forall|k: int|
                i < k < diagonal@.len() ==> !singular(#[trigger] diagonal@[k]),
            None => forall|k: int|
                0 <= k < diagonal@.len() ==> !singular(#[trigger] diagonal@[k]),
        },
{
    let mut i: usize = diagonal.len();
    while i > 0
        invariant
            i <= diagonal@.len(),
            forall|k: int| i <= k < diagonal@.len() ==> !singular(#[trigger] diagonal@[k]),
        decreases i,
    {
        i -= 1;
        if diagonal[i].abs().lt(Real { bits: SINGULAR_THRESHOLD }) {
            return Some(i);
        }
    }
    None
}

/// The partners drawn for positions `len - 1`, `len - 2`, ..., 1: none beyond the
/// position itself.
pub open spec fn valid_draws(draws: Seq<usize>, len: nat) -> bool {
    &&& draws.len() == (if len == 0 { 0 } else { len - 1 })
    &&& forall|t: int| 0 <= t < draws.len() ==> #[trigger] draws[t] <= len - 1 - t
}

/// The list after the first `t` exchanges of a shuffle.
pub open spec fn shuffled<T>(s: Seq<T>, draws: Seq<usize>, t: int) -> Seq<T>
    decreases t,
{
    if t <= 0 {
        s
    } else {
        swapped(shuffled(s, draws, t - 1), s.len() - t, draws[t - 1] as int)
    }
}

proof fn lemma_swapped_multiset<T>(s: Seq<T>, a: int, b: int)
    requires
        0 <= a < s.len(),
        0 <= b < s.len(),
    ensures
        swapped(s, a, b).to_multiset() == s.to_multiset(),
{
    lemma_update_multiset(s, a, s[b]);
    lemma_update_multiset(s.update(a, s[b]), b, s[a]);
    s.to_multiset_ensures();
    assert(s.contains(s[a]));
    assert(swapped(s, a, b).to_multiset() =~= s.to_multiset());
}

proof fn lemma_update_multiset<T>(s: Seq<T>, i: int, x: T)
    requires
        0 <= i < s.len(),
    ensures
        s.update(i, x).to_multiset() == s.to_multiset().remove(s[i]).insert(x),
{
    assert(s.update(i, x) =~= s.remove(i).insert(i, x));
    vstd::seq_lib::to_multiset_remove(s, i);
    vstd::seq_lib::to_multiset_insert(s.remove(i), i, x);
}

/// A shuffle rearranges the list.
pub proof fn law_shuffled_rearranges<T>(s: Seq<T>, draws: Seq<usize>, t: int)
    requires
        valid_draws(draws, s.len()),
        0 <= t <= draws.len(),
    ensures
        shuffled(s, draws, t).len() == s.len(),
        shuffled(s, draws, t).to_multiset() == s.to_multiset(),
    decreases t,
{
    if t > 0 {
        law_shuffled_rearranges(s, draws, t - 1);
        assert(draws[t - 1] <= s.len() - 1 - (t - 1));
        lemma_swapped_multiset(
            shuffled(s, draws, t - 1),
            s.len() - t,
            draws[t - 1] as int,
        );
    }
}

/// Shuffles a list with partners that were already drawn.
pub fn shuffle_with<T>(slice: &mut [T], draws: &Vec<usize>)
    requires
        valid_draws(draws@, old(slice)@.len()),
    ensures
        final(slice)@ == shuffled(old(slice)@, draws@, draws@.len() as int),
{
    let ghost start = slice@;
    let n: usize = slice.len();
    let mut t: usize = 0;
    while t < draws.len()
        invariant
            t <= draws@.len(),
            n == start.len(),
            slice@.len() == n,
            valid_draws(draws@, start.len()),
            slice@ == shuffled(start, draws@, t as int),
        decreases draws@.len() - t,
    {
        assert(draws@[t as int] <= n - 1 - t);
        let j: usize = draws[t];
        swap_entries(slice, n - 1 - t, j);
        t += 1;
    }
}

/// Shuffles a list: each position from the last to the second is exchanged with a
/// random one not behind it. The partners are left to chance.
pub fn shuffle<T>(slice: &mut [T], rng: &mut StdRng)
    ensures
        exists|draws: Seq<usize>|
            valid_draws(draws, old(slice)@.len()) && final(slice)@ == #[trigger] shuffled(
                old(slice)@,
                draws,
                draws.len() as int,
            ),
        final(slice)@.to_multiset() == old(slice)@.to_multiset(),
{
    let n: usize = slice.len();
    let mut draws: Vec<usize> = Vec::new();
    while n > 0 && draws.len() < n - 1
        invariant
            n == 0 ==> draws@.len() == 0,
            n > 0 ==> draws@.len() <= n - 1,
            forall|t: int| 0 <= t < draws@.len() ==> #[trigger] draws@[t] <= n - 1 - t,
        decreases n - draws@.len(),
    {
        let j: usize = draw_below(rng, n - draws.len());
        draws.push(j);
    }
    shuffle_with(slice, &draws);
    proof {
        law_shuffled_rearranges(old(slice)@, draws@, draws@.len() as int);
    }
}

/// An exchange puts each of two entries in the place of the other and leaves the rest.
pub proof fn law_swapped<T>(s: Seq<T>, a: int, b: int, k: int)
    requires
        0 <= a < s.len(),
        0 <= b < s.len(),
        0 <= k < s.len(),
    ensures
        swapped(s, a, b).len() == s.len(),
        swapped(s, a, b)[a] == s[b],
        swapped(s, a, b)[b] == s[a],
        k != a && k != b ==> swapped(s, a, b)[k] == s[k],
{
}

/// Pivots are applied from the first row on and counted from one: with one more of them, row `n`
/// holds what stood in its pivot's row and the other way round.
pub proof fn law_pivot_step<T>(x: Seq<T>, ipiv: Seq<i32>, n: int, k: int)
    requires
        0 <= n < ipiv.len(),
        ipiv.len() == x.len(),
        valid_pivots(ipiv, x.len() as int),
        0 <= k < x.len(),
    ensures
        ({
            let (before, after) = (pivoted(x, ipiv, n), pivoted(x, ipiv, n + 1));
            &&& before.len() == x.len() && after.len() == x.len()
            &&& after[n] == before[ipiv[n] - 1]
            &&& after[ipiv[n] - 1] == before[n]
            &&& k != n && k != ipiv[n] - 1 ==> after[k] == before[k]
        }),
{
    lemma_pivoted_len(x, ipiv, n);
    assert(1 <= ipiv[n] <= x.len());
}

/// A pivot is singular by its size alone, exactly below 1e-15.
pub proof fn law_singular(d: Real, smaller: Real)
    ensures
        singular(d) && smaller.magnitude() <= d.magnitude() ==> singular(smaller),
        singular(Real { bits: 0x3cd2_03af_9ee7_5615 }),
        singular(Real { bits: 0xbcd2_03af_9ee7_5615 }),
        !singular(Real { bits: 0x3cd2_03af_9ee7_5616 }),
        !singular(Real { bits: 0xbcd2_03af_9ee7_5616 }),
        d.nan() ==> !singular(d),
{
}

/// A shuffle fills places from the last on: each draw picks what goes there from what is left, and
/// a place once filled stays as it is.
pub proof fn law_shuffle_step<T>(s: Seq<T>, draws: Seq<usize>, t: int, k: int)
    requires
        valid_draws(draws, s.len()),
        0 < t <= draws.len(),
        0 <= k < s.len(),
    ensures
        ({
            let (before, after) = (shuffled(s, draws, t - 1), shuffled(s, draws, t));
            &&& after[s.len() - t] == before[draws[t - 1] as int]
            &&& k > s.len() - t ==> after[k] == before[k]
        }),
{
    law_shuffled_rearranges(s, draws, t - 1);
    assert(draws[t - 1] <= s.len() - 1 - (t - 1));
}

/// A shuffle may also leave everything where it was: the draws for that are valid.
pub proof fn law_shuffle_may_keep<T>(s: Seq<T>, draws: Seq<usize>, t: int)
    requires
        0 < s.len() <= usize::MAX,
        draws == Seq::new((s.len() - 1) as nat, |x: int| (s.len() - 1 - x) as usize),
        0 <= t <= draws.len(),
    ensures
        valid_draws(draws, s.len()),
        shuffled(s, draws, t) == s,
    decreases t,
{
    if t > 0 {
        law_shuffle_may_keep(s, draws, t - 1);
        assert(swapped(s, s.len() - t, draws[t - 1] as int) =~= s);
    }
}

/// Pivots that name their own rows are valid and change nothing.
pub proof fn law_pivots_may_keep<T>(x: Seq<T>, ipiv: Seq<i32>, n: int)
    requires
        x.len() <= i32::MAX,
        ipiv == Seq::new(x.len(), |i: int| (i + 1) as i32),
        0 <= n <= x.len(),
    ensures
        valid_pivots(ipiv, x.len() as int),
        pivoted(x, ipiv, n) == x,
    decreases n,
{
    if n > 0 {
        law_pivots_may_keep(x, ipiv, n - 1);
        assert(swapped(x, n - 1, ipiv[n - 1] - 1) =~= x);
    }
}

} // verus!
