//! Batches of integrals that are computed when they are needed.

use crate::packed::{law_pair_index, lemma_triangle_step, pair_index, triangle};
use crate::scf_io::energy::{diagonal_sum, full_sum, law_contraction, packed_sum};
use crate::scf_io::ri_on_the_fly::{
    block_visits, exchange_block_visits, law_blocks_once, visits_count, BlockVisit,
};
use crate::sequences::tiles;
use vstd::prelude::*;

verus! {

/// A batch of auxiliary functions.
#[derive(Clone, Copy, Debug, PartialEq, Eq)]
pub struct AuxBatch {
    /// First and end of the shells of both basis functions and of the auxiliary functions,
    /// which are numbered behind those of the basis.
    pub shells: [(i32, i32); 3],
    /// The first auxiliary function.
    pub first: usize,
    /// The number of auxiliary functions.
    pub len: usize,
}

/// Where the shells of a basis begin: never descending.
pub open spec fn ascending(loc: Seq<usize>) -> bool {
    forall|a: int, b: int| 0 <= a <= b < loc.len() ==> #[trigger] loc[a] <= #[trigger] loc[b]
}

/// The batch of the auxiliary shells from `part.0` up to `part.1`.
pub open spec fn is_batch(
    b: AuxBatch,
    nbas: int,
    aux_loc: Seq<usize>,
    part: (usize, usize),
) -> bool {
    &&& b.shells@[0].0 == 0 && b.shells@[0].1 == nbas
    &&& b.shells@[1].0 == 0 && b.shells@[1].1 == nbas
    &&& b.shells@[2].0 == nbas + part.0 && b.shells@[2].1 == nbas + part.1
    &&& b.first == aux_loc[part.0 as int] - aux_loc[0]
    &&& b.len == aux_loc[part.1 as int] - aux_loc[part.0 as int]
}

/// Lists the batches of auxiliary functions for a partition of their shells. `aux_loc` holds
/// where each auxiliary shell begins and, last, where they end.
pub fn aux_batches(nbas: usize, aux_loc: &Vec<usize>, partition: &Vec<(usize, usize)>) -> (r: Vec<
    AuxBatch,
>)
    requires
        aux_loc@.len() > 0,
        ascending(aux_loc@),
        nbas + aux_loc@.len() <= i32::MAX,
        tiles(partition@, aux_loc@.len() - 1),
    ensures
        r@.len() == partition@.len(),
        forall|i: int|
            0 <= i < r@.len() ==> is_batch(#[trigger] r@[i], nbas as int, aux_loc@, partition@[i]),
{
    let mut r: Vec<AuxBatch> = Vec::new();
    let mut first: usize = 0;
    let mut i: usize = 0;
    let n: i32 = nbas as i32;
    while i < partition.len()
        invariant
            i <= partition@.len(),
            n == nbas,
            aux_loc@.len() > 0,
            ascending(aux_loc@),
            nbas + aux_loc@.len() <= i32::MAX,
            tiles(partition@, aux_loc@.len() - 1),
            r@.len() == i,
            i < partition@.len() ==> first == aux_loc@[partition@[i as int].0 as int] - aux_loc@[0],
            forall|x: int|
                0 <= x < i ==> is_batch(#[trigger] r@[x], nbas as int, aux_loc@, partition@[x]),
        decreases partition@.len() - i,
    {
        let (from, to): (usize, usize) = partition[i];
        proof {
            lemma_tiles_below(partition@, aux_loc@.len() - 1, i as int);
            assert(aux_loc@[0] <= aux_loc@[from as int] <= aux_loc@[to as int]);
        }
        let len: usize = aux_loc[to] - aux_loc[from];
        let b = AuxBatch {
            shells: [(0, n), (0, n), (n + from as i32, n + to as i32)],
            first,
            len,
        };
        assert(is_batch(b, nbas as int, aux_loc@, partition@[i as int]));
        r.push(b);
        first += len;
        i += 1;
        assert(i < partition@.len() ==> partition@[i as int].0 == partition@[i - 1].1);
    }
    r
}

/// No range of a tiling ends behind the last one.
proof fn lemma_tiles_below(slices: Seq<(usize, usize)>, end: int, a: int)
    requires
        tiles(slices, end),
        0 <= a < slices.len(),
    ensures
        slices[a].0 <= slices[a].1 <= end,
    decreases slices.len() - a,
{
    if a + 1 < slices.len() {
        lemma_tiles_below(slices, end, a + 1);
        assert(slices[a + 1].0 == slices[a].1);
    } else {
        assert(slices[a] == slices.last());
    }
}

/// A place below the end of a tiling lies in one of the ranges.
proof fn lemma_tiles_find(slices: Seq<(usize, usize)>, loc: Seq<usize>, x: int, k: int) -> (i: int)
    requires
        tiles(slices, loc.len() - 1),
        ascending(loc),
        0 < k <= slices.len(),
        loc[0] <= x < loc[slices[k - 1].1 as int],
    ensures
        0 <= i < k,
        loc[slices[i].0 as int] <= x < loc[slices[i].1 as int],
    decreases k,
{
    if x >= loc[slices[k - 1].0 as int] {
        k - 1
    } else {
        if k == 1 {
            assert(slices[0].0 == 0);
        } else {
            assert(slices[k - 1].0 == slices[k - 2].1);
        }
        lemma_tiles_find(slices, loc, x, k - 1)
    }
}

/// Ranges of a tiling do not overlap.
proof fn lemma_tiles_apart(slices: Seq<(usize, usize)>, end: int, a: int, b: int)
    requires
        tiles(slices, end),
        0 <= a < b < slices.len(),
    ensures
        slices[a].1 <= slices[b].0,
    decreases b - a,
{
    assert(slices[b].0 == slices[b - 1].1);
    if a < b - 1 {
        lemma_tiles_apart(slices, end, a, b - 1);
        assert(slices[b - 1].0 <= slices[b - 1].1);
    }
}

/// Every auxiliary function is in exactly one batch.
pub proof fn law_aux_batches(
    nbas: int,
    aux_loc: Seq<usize>,
    partition: Seq<(usize, usize)>,
    batches: Seq<AuxBatch>,
    x: int,
)
    requires
        aux_loc.len() > 0,
        ascending(aux_loc),
        tiles(partition, aux_loc.len() - 1),
        batches.len() == partition.len(),
        forall|i: int|
            0 <= i < batches.len() ==> is_batch(#[trigger] batches[i], nbas, aux_loc, partition[i]),
        0 <= x < aux_loc.last() - aux_loc[0],
    ensures
        exists|i: int|
            0 <= i < batches.len() && (#[trigger] batches[i]).first <= x < batches[i].first
                + batches[i].len,
        forall|i: int, j: int|
            0 <= i < batches.len() && 0 <= j < batches.len() && (#[trigger] batches[i]).first <= x
                < batches[i].first + batches[i].len && (#[trigger] batches[j]).first <= x
                < batches[j].first + batches[j].len ==> i == j,
{
    let end = aux_loc.len() - 1;
    let y = x + aux_loc[0];
    if partition.len() == 0 {
        assert(aux_loc.len() == 1);
        assert(false);
    }
    assert(partition.last().1 == end);
    let i = lemma_tiles_find(partition, aux_loc, y, partition.len() as int);
    assert(is_batch(batches[i], nbas, aux_loc, partition[i]));
    assert(batches[i].first <= x < batches[i].first + batches[i].len);
    assert forall|i: int, j: int|
        0 <= i < batches.len() && 0 <= j < batches.len() && (#[trigger] batches[i]).first <= x
            < batches[i].first + batches[i].len && (#[trigger] batches[j]).first <= x
            < batches[j].first + batches[j].len implies i == j by {
        assert(is_batch(batches[i], nbas, aux_loc, partition[i]));
        assert(is_batch(batches[j], nbas, aux_loc, partition[j]));
        lemma_same_range(partition, aux_loc, y, i, j);
    }
}

/// Lists the batches of auxiliary functions for the direct Coulomb matrix. Both passes over
/// the integrals, before and after the fitting equation is solved, go through them.
pub fn generate_vj_ri_direct_with_rstsr(
    nbas: usize,
    aux_loc: &Vec<usize>,
    partition: &Vec<(usize, usize)>,
) -> (r: Vec<AuxBatch>)
    requires
        aux_loc@.len() > 0,
        ascending(aux_loc@),
        nbas + aux_loc@.len() <= i32::MAX,
        tiles(partition@, aux_loc@.len() - 1),
    ensures
        r@.len() == partition@.len(),
        forall|i: int|
            0 <= i < r@.len() ==> is_batch(#[trigger] r@[i], nbas as int, aux_loc@, partition@[i]),
{
    aux_batches(nbas, aux_loc, partition)
}

/// Lists the batches of auxiliary functions whose half-transformed integrals are kept.
pub fn generate_vk_ri_semi_incore_coeff_with_rstsr(
    nbas: usize,
    aux_loc: &Vec<usize>,
    partition: &Vec<(usize, usize)>,
) -> (r: Vec<AuxBatch>)
    requires
        aux_loc@.len() > 0,
        ascending(aux_loc@),
        nbas + aux_loc@.len() <= i32::MAX,
        tiles(partition@, aux_loc@.len() - 1),
    ensures
        r@.len() == partition@.len(),
        forall|i: int|
            0 <= i < r@.len() ==> is_batch(#[trigger] r@[i], nbas as int, aux_loc@, partition@[i]),
{
    aux_batches(nbas, aux_loc, partition)
}

/// The weight of each entry of a packed density: entries off the diagonal stand for two.
pub fn density_weights(n: usize) -> (w: Vec<usize>)
    requires
        n * (n + 1) <= usize::MAX,
    ensures
        w@.len() == triangle(n as int),
        forall|i: int, j: int|
            0 <= i < n && 0 <= j < n ==> w@[#[trigger] pair_index(i, j)] == (if i == j {
                1usize
            } else {
                2usize
            }),
{
    let mut w: Vec<usize> = Vec::new();
    let mut j: usize = 0;
    proof {
        lemma_triangle_step(0);
    }
    while j < n
        invariant
            j <= n,
            n * (n + 1) <= usize::MAX,
            w@.len() == triangle(j as int),
            forall|a: int, b: int|
                0 <= a < j && 0 <= b < j ==> w@[#[trigger] pair_index(a, b)] == (if a == b {
                    1usize
                } else {
                    2usize
                }),
        decreases n - j,
    {
        let ghost before = w@;
        let mut i: usize = 0;
        proof {
            lemma_triangle_step(j as int);
        }
        while i < j
            invariant
                i <= j,
                w@.len() == triangle(j as int) + i,
                before.len() == triangle(j as int),
                forall|k: int| 0 <= k < before.len() ==> #[trigger] w@[k] == before[k],
                forall|k: int| before.len() <= k < w@.len() ==> #[trigger] w@[k] == 2,
            decreases j - i,
        {
            w.push(2);
            i += 1;
        }
        w.push(1);
        assert forall|a: int, b: int| 0 <= a <= j && 0 <= b <= j implies w@[#[trigger] pair_index(
            a,
            b,
        )] == (if a == b {
            1usize
        } else {
            2usize
        }) by {
            if a < j && b < j {
                law_pair_index(j as int, a, b, a, b);
                assert(w@[pair_index(a, b)] == before[pair_index(a, b)]);
            } else if a == j {
                assert(pair_index(a, b) == triangle(j as int) + b);
            } else {
                assert(pair_index(a, b) == triangle(j as int) + a);
            }
        }
        j += 1;
    }
    w
}

/// The sum of the first `k` entries, each times its weight.
pub open spec fn weighted_sum(w: Seq<usize>, c: Seq<int>, k: int) -> int
    decreases k,
{
    if k <= 0 {
        0
    } else {
        weighted_sum(w, c, k - 1) + w[k - 1] * c[k - 1]
    }
}

/// The weighted sum over a row: twice the entries before the diagonal, and the diagonal.
proof fn lemma_weighted_row(w: Seq<usize>, c: Seq<int>, n: int, j: int, k: int)
    requires
        0 <= j < n,
        0 <= k <= j,
        w.len() == triangle(n),
        forall|a: int, b: int|
            0 <= a < n && 0 <= b < n ==> w[#[trigger] pair_index(a, b)] == (if a == b {
                1usize
            } else {
                2usize
            }),
    ensures
        weighted_sum(w, c, triangle(j) + k) - weighted_sum(w, c, triangle(j)) == 2 * (packed_sum(
            c,
            triangle(j) + k,
        ) - packed_sum(c, triangle(j))),
    decreases k,
{
    lemma_triangle_step(j);
    if k > 0 {
        lemma_weighted_row(w, c, n, j, k - 1);
        assert(pair_index(k - 1, j) == triangle(j) + k - 1);
        assert(w[pair_index(k - 1, j)] == 2);
    }
}

proof fn lemma_weighted(w: Seq<usize>, c: Seq<int>, n: int, j: int)
    requires
        0 <= j <= n,
        w.len() == triangle(n),
        forall|a: int, b: int|
            0 <= a < n && 0 <= b < n ==> w[#[trigger] pair_index(a, b)] == (if a == b {
                1usize
            } else {
                2usize
            }),
    ensures
        weighted_sum(w, c, triangle(j)) == 2 * packed_sum(c, triangle(j)) - diagonal_sum(c, j),
    decreases j,
{
    if j == 0 {
        assert(triangle(0) == 0);
    } else {
        let i = j - 1;
        lemma_weighted(w, c, n, i);
        lemma_weighted_row(w, c, n, i, i);
        lemma_triangle_step(i);
        assert(pair_index(i, i) == triangle(i) + i);
        assert(w[pair_index(i, i)] == 1);
        assert(triangle(j) == triangle(i) + i + 1);
    }
}

/// Contracting a weighted packed density with packed integrals contracts the full matrices;
/// `c` holds the products of their entries.
pub proof fn law_density_weights(w: Seq<usize>, c: Seq<int>, n: int)
    requires
        0 <= n,
        w.len() == triangle(n),
        c.len() == triangle(n),
        forall|a: int, b: int|
            0 <= a < n && 0 <= b < n ==> w[#[trigger] pair_index(a, b)] == (if a == b {
                1usize
            } else {
                2usize
            }),
    ensures
        weighted_sum(w, c, triangle(n)) == full_sum(c, n, n),
{
    lemma_weighted(w, c, n, n);
    law_contraction(c, n);
}

/// A batch of basis functions.
#[derive(Clone, Copy, Debug, PartialEq, Eq)]
pub struct AoBatch {
    /// First and end of the shells of the batch, of the basis and of the auxiliary functions.
    pub shells: [(i32, i32); 3],
    /// First and end of the basis functions.
    pub functions: (usize, usize),
}

/// The batch of the shells from `part.0` up to `part.1`.
pub open spec fn is_ao_batch(
    b: AoBatch,
    nbas_aux: int,
    ao_loc: Seq<usize>,
    part: (usize, usize),
) -> bool {
    let nbas = ao_loc.len() - 1;
    &&& b.shells@[0].0 == part.0 && b.shells@[0].1 == part.1
    &&& b.shells@[1].0 == 0 && b.shells@[1].1 == nbas
    &&& b.shells@[2].0 == nbas && b.shells@[2].1 == nbas + nbas_aux
    &&& b.functions.0 == ao_loc[part.0 as int]
    &&& b.functions.1 == ao_loc[part.1 as int]
}

/// The work of a direct exchange matrix: batches of basis functions, and the order in which
/// pairs of them contribute.
pub struct DirectExchange {
    pub batches: Vec<AoBatch>,
    pub visits: Vec<BlockVisit>,
}

/// The work of a direct exchange matrix for a partition of the shells.
pub open spec fn is_direct_exchange(
    d: DirectExchange,
    nbas_aux: int,
    ao_loc: Seq<usize>,
    partition: Seq<(usize, usize)>,
) -> bool {
    &&& d.batches@.len() == partition.len()
    &&& forall|i: int|
        0 <= i < partition.len() ==> is_ao_batch(
            #[trigger] d.batches@[i],
            nbas_aux,
            ao_loc,
            partition[i],
        )
    &&& d.visits@ == block_visits(partition.len() as int)
}

/// Plans a direct exchange matrix from orbitals. `ao_loc` holds where each shell of the basis
/// begins and, last, where they end.
pub fn generate_vk_ri_direct_coeff_with_rstsr(
    nbas_aux: usize,
    ao_loc: &Vec<usize>,
    partition: &Vec<(usize, usize)>,
) -> (d: DirectExchange)
    requires
        ao_loc@.len() > 0,
        ao_loc@.len() + nbas_aux <= i32::MAX,
        tiles(partition@, ao_loc@.len() - 1),
    ensures
        is_direct_exchange(d, nbas_aux as int, ao_loc@, partition@),
{
    let mut r: Vec<AoBatch> = Vec::new();
    let nbas: i32 = (ao_loc.len() - 1) as i32;
    let aux: i32 = nbas_aux as i32;
    let mut i: usize = 0;
    while i < partition.len()
        invariant
            i <= partition@.len(),
            nbas == ao_loc@.len() - 1,
            aux == nbas_aux,
            ao_loc@.len() > 0,
            ao_loc@.len() + nbas_aux <= i32::MAX,
            tiles(partition@, ao_loc@.len() - 1),
            r@.len() == i,
            forall|x: int|
                0 <= x < i ==> is_ao_batch(
                    #[trigger] r@[x],
                    nbas_aux as int,
                    ao_loc@,
                    partition@[x],
                ),
        decreases partition@.len() - i,
    {
        let (from, to): (usize, usize) = partition[i];
        proof {
            lemma_tiles_below(partition@, ao_loc@.len() - 1, i as int);
        }
        let b = AoBatch {
            shells: [(from as i32, to as i32), (0, nbas), (nbas, nbas + aux)],
            functions: (ao_loc[from], ao_loc[to]),
        };
        assert(is_ao_batch(b, nbas_aux as int, ao_loc@, partition@[i as int]));
        r.push(b);
        i += 1;
    }
    DirectExchange { batches: r, visits: exchange_block_visits(partition.len()) }
}

/// Plans a direct exchange matrix from densities: in the same batches and order as from
/// orbitals.
pub fn generate_vk_ri_direct_dm_with_rstsr(
    nbas_aux: usize,
    ao_loc: &Vec<usize>,
    partition: &Vec<(usize, usize)>,
) -> (d: DirectExchange)
    requires
        ao_loc@.len() > 0,
        ao_loc@.len() + nbas_aux <= i32::MAX,
        tiles(partition@, ao_loc@.len() - 1),
    ensures
        is_direct_exchange(d, nbas_aux as int, ao_loc@, partition@),
{
    generate_vk_ri_direct_coeff_with_rstsr(nbas_aux, ao_loc, partition)
}

/// Whether a batch holds a basis function.
pub open spec fn in_batch(b: AoBatch, mu: int) -> bool {
    b.functions.0 <= mu < b.functions.1
}

/// Every element of the exchange matrix belongs to exactly one pair of batches, and that
/// pair contributes to it exactly once.
pub proof fn law_elements_once(
    d: DirectExchange,
    nbas_aux: int,
    ao_loc: Seq<usize>,
    partition: Seq<(usize, usize)>,
    mu: int,
    nu: int,
)
    requires
        ao_loc.len() > 0,
        ao_loc[0] == 0,
        ascending(ao_loc),
        tiles(partition, ao_loc.len() - 1),
        partition.len() <= usize::MAX,
        is_direct_exchange(d, nbas_aux, ao_loc, partition),
        0 <= mu < ao_loc.last(),
        0 <= nu < ao_loc.last(),
    ensures
        exists|i: int, j: int|
            {
                &&& 0 <= i < d.batches@.len()
                &&& 0 <= j < d.batches@.len()
                &&& in_batch(#[trigger] d.batches@[i], mu)
                &&& in_batch(#[trigger] d.batches@[j], nu)
                &&& visits_count(d.visits@, i, j) == 1
                &&& forall|a: int, b: int|
                    0 <= a < d.batches@.len() && 0 <= b < d.batches@.len() && in_batch(
                        #[trigger] d.batches@[a],
                        mu,
                    ) && in_batch(#[trigger] d.batches@[b], nu) ==> a == i && b == j
            },
{
    if partition.len() == 0 {
        assert(ao_loc.len() == 1);
        assert(false);
    }
    let n = partition.len() as int;
    let i = lemma_tiles_find(partition, ao_loc, mu, n);
    let j = lemma_tiles_find(partition, ao_loc, nu, n);
    assert(is_ao_batch(d.batches@[i], nbas_aux, ao_loc, partition[i]));
    assert(is_ao_batch(d.batches@[j], nbas_aux, ao_loc, partition[j]));
    law_blocks_once(n, i, j);
    assert forall|a: int, b: int|
        0 <= a < d.batches@.len() && 0 <= b < d.batches@.len() && in_batch(
            #[trigger] d.batches@[a],
            mu,
        ) && in_batch(#[trigger] d.batches@[b], nu) implies a == i && b == j by {
        assert(is_ao_batch(d.batches@[a], nbas_aux, ao_loc, partition[a]));
        assert(is_ao_batch(d.batches@[b], nbas_aux, ao_loc, partition[b]));
        lemma_same_range(partition, ao_loc, mu, a, i);
        lemma_same_range(partition, ao_loc, nu, b, j);
    }
}

/// Two ranges of a tiling that hold the same place are the same.
proof fn lemma_same_range(
    slices: Seq<(usize, usize)>,
    loc: Seq<usize>,
    x: int,
    a: int,
    b: int,
)
    requires
        loc.len() > 0,
        tiles(slices, loc.len() - 1),
        ascending(loc),
        0 <= a < slices.len(),
        0 <= b < slices.len(),
        loc[slices[a].0 as int] <= x < loc[slices[a].1 as int],
        loc[slices[b].0 as int] <= x < loc[slices[b].1 as int],
    ensures
        a == b,
{
    let end = loc.len() - 1;
    lemma_tiles_below(slices, end, a);
    lemma_tiles_below(slices, end, b);
    if a < b {
        lemma_tiles_apart(slices, end, a, b);
        assert(loc[slices[a].1 as int] <= loc[slices[b].0 as int]);
    }
    if b < a {
        lemma_tiles_apart(slices, end, b, a);
        assert(loc[slices[b].1 as int] <= loc[slices[a].0 as int]);
    }
}

/// Batches of the auxiliary basis are computed with all shells of the basis on both other sides,
/// and go through the shells behind those of the basis without gap, from the first to the last.
pub proof fn law_aux_shells(
    nbas: int,
    aux_loc: Seq<usize>,
    partition: Seq<(usize, usize)>,
    batches: Seq<AuxBatch>,
    i: int,
)
    requires
        aux_loc.len() > 0,
        tiles(partition, aux_loc.len() - 1),
        batches.len() == partition.len(),
        forall|k: int|
            0 <= k < batches.len() ==> is_batch(#[trigger] batches[k], nbas, aux_loc, partition[k]),
        0 <= i < batches.len(),
    ensures
        batches[i].shells@[0].0 == 0 && batches[i].shells@[0].1 == nbas,
        batches[i].shells@[1] == batches[i].shells@[0],
        batches[0].shells@[2].0 == nbas,
        batches[batches.len() - 1].shells@[2].1 == nbas + aux_loc.len() - 1,
        i > 0 ==> batches[i].shells@[2].0 == batches[i - 1].shells@[2].1,
        i > 0 ==> batches[i].first == batches[i - 1].first + batches[i - 1].len,
{
    assert(is_batch(batches[i], nbas, aux_loc, partition[i]));
    assert(is_batch(batches[0], nbas, aux_loc, partition[0]));
    let last = batches.len() - 1;
    assert(is_batch(batches[last], nbas, aux_loc, partition[last]));
    assert(partition.last() == partition[last]);
    if i > 0 {
        assert(is_batch(batches[i - 1], nbas, aux_loc, partition[i - 1]));
    }
}

/// A batch of basis functions is computed with all shells of the basis and with all shells of the
/// auxiliary basis, and holds the functions of its own shells.
pub proof fn law_ao_shells(b: AoBatch, nbas_aux: int, ao_loc: Seq<usize>, part: (usize, usize))
    requires
        is_ao_batch(b, nbas_aux, ao_loc, part),
        ao_loc.len() > 0,
    ensures
        b.shells@[0].0 == part.0 && b.shells@[0].1 == part.1,
        b.shells@[1].0 == 0 && b.shells@[1].1 == ao_loc.len() - 1,
        b.shells@[2].0 == b.shells@[1].1,
        b.shells@[2].1 - b.shells@[2].0 == nbas_aux,
        in_batch(b, ao_loc[part.0 as int] as int) || b.functions.1 <= b.functions.0,
        !in_batch(b, ao_loc[part.1 as int] as int),
{
}

} // verus!
