//! Index lists: the positions at which a condition holds, and ranges that follow each other.

use vstd::prelude::*;

verus! {

/// The positions below `n` at which `p` holds, in ascending order.
pub open spec fn positions(n: nat, p: spec_fn(int) -> bool) -> Seq<int>
    decreases n,
{
    if n == 0 {
        seq![]
    } else if p(n - 1) {
        positions((n - 1) as nat, p).push(n - 1)
    } else {
        positions((n - 1) as nat, p)
    }
}

/// The indices held by an executable list, as mathematical integers.
pub open spec fn ints(v: Seq<usize>) -> Seq<int> {
    v.map_values(|x: usize| x as int)
}

/// `positions` lists exactly the positions at which `p` holds, each once, ascending.
pub proof fn law_positions(n: nat, p: spec_fn(int) -> bool)
    ensures
        forall|x: int| #[trigger] positions(n, p).contains(x) <==> 0 <= x < n && p(x),
        forall|a: int, b: int|
            0 <= a < b < positions(n, p).len() ==> #[trigger] positions(n, p)[a]
                < #[trigger] positions(n, p)[b],
        forall|a: int|
            0 <= a < positions(n, p).len() ==> 0 <= #[trigger] positions(n, p)[a] < n && p(
                positions(n, p)[a],
            ),
        positions(n, p).len() <= n,
    decreases n,
{
    if n > 0 {
        let m = (n - 1) as nat;
        law_positions(m, p);
        let s = positions(m, p);
        let t = positions(n, p);
        if p(n - 1) {
            assert(t == s.push(n - 1));
            assert forall|x: int| #[trigger] t.contains(x) <==> 0 <= x < n && p(x) by {
                if t.contains(x) {
                    let i = choose|i: int| 0 <= i < t.len() && t[i] == x;
                    if i < s.len() {
                        assert(s[i] == x);
                        assert(s.contains(x));
                    }
                }
                if 0 <= x < n && p(x) {
                    if x == n - 1 {
                        assert(t[s.len() as int] == x);
                    } else {
                        assert(s.contains(x));
                        let i = choose|i: int| 0 <= i < s.len() && s[i] == x;
                        assert(t[i] == x);
                    }
                }
            }
        } else {
            assert(t == s);
            assert forall|x: int| #[trigger] t.contains(x) <==> 0 <= x < n && p(x) by {
                assert(s.contains(x) <==> 0 <= x < m && p(x));
            }
        }
    }
}

/// Consecutive ranges that start at zero and end at `end`.
pub open spec fn tiles(slices: Seq<(usize, usize)>, end: int) -> bool {
    &&& forall|a: int| 0 <= a < slices.len() ==> (#[trigger] slices[a]).0 <= slices[a].1
    &&& forall|a: int|
        0 < a < slices.len() ==> (#[trigger] slices[a]).0 == slices[a - 1].1
    &&& slices.len() > 0 ==> slices[0].0 == 0 && slices.last().1 == end
    &&& slices.len() == 0 ==> end == 0
}

/// Pushing an index commutes with reading the list as mathematical integers.
pub proof fn lemma_ints_push(v: Seq<usize>, x: usize)
    ensures
        ints(v.push(x)) == ints(v).push(x as int),
{
    assert(ints(v.push(x)) =~= ints(v).push(x as int));
}

} // verus!
