//! Coulomb and exchange matrices from three-centre integrals computed in batches: memory
//! estimates, occupied orbitals and the order of the batches.

use crate::binary64::Real;
use crate::packed::triangle;
use crate::scf_io::hamiltonian::OCCUPIED_EPSILON;
use crate::sequences::{ints, lemma_ints_push, positions};
use vstd::prelude::*;

verus! {

/// Numbers of stored values: per unit of batch size, independent of it, and per thread.
#[derive(Clone, Copy, Debug, PartialEq, Eq, Structural)]
pub struct MemEstimate {
    pub batched: usize,
    pub fixed: usize,
    pub thread: usize,
}

impl MemEstimate {
    /// The numbers of stored values.
    pub open spec fn parts(self) -> (int, int, int) {
        (self.batched as int, self.fixed as int, self.thread as int)
    }
}

/// Storage of the direct Coulomb matrix: a batch of packed integrals; two fitted
/// densities per set, the two-centre integrals, the densities and the packed result.
pub open spec fn vj_direct_memory(nao: int, naux: int, nset: int) -> (int, int, int) {
    let pairs = (nao + 1) * nao / 2;
    (pairs, naux * nset * 2 + naux * naux + nao * nao * nset + pairs * nset, 0)
}

/// Storage of the exchange matrix from integrals in memory: half-transformed integrals; the
/// result; an unpacked integral matrix per thread.
pub open spec fn vk_incore_memory(nao: int, nocc: int, nset: int) -> (int, int, int) {
    (nao * nocc, nao * nao * nset, nao * nao)
}

/// Storage of the semi-direct exchange matrix: unpacked integrals; the result, all
/// half-transformed integrals and the two-centre integrals; an unpacked integral matrix per
/// thread.
pub open spec fn vk_semi_memory(nao: int, naux: int, nocc: int, nset: int) -> (int, int, int) {
    (nao * nao, nao * nao * nset + nao * nocc * naux + naux * naux, nao * nao)
}

/// Storage of the direct exchange matrix from orbitals: integrals and half-transformed
/// integrals of all sets and of one more; the result and the two-centre integrals; an
/// unpacked integral matrix per thread.
pub open spec fn vk_direct_memory(nao: int, naux: int, nocc: int, nset: int) -> (int, int, int) {
    (nao * naux + nocc * naux * (nset + 1), nao * nao * nset + naux * naux, nao * nao)
}

/// Storage of the direct exchange matrix from densities: integrals, and half-transformed
/// integrals of all sets; the result and the two-centre integrals; an unpacked integral
/// matrix per thread.
pub open spec fn vk_density_memory(nao: int, naux: int, nset: int) -> (int, int, int) {
    (nao * naux + nao * naux * nset, nao * nao * nset + naux * naux, nao * nao)
}

/// Whether a number of values can be counted.
pub open spec fn countable(m: (int, int, int)) -> bool {
    m.0 <= usize::MAX && m.1 <= usize::MAX && m.2 <= usize::MAX
}

proof fn lemma_products(a: int, b: int, c: int)
    requires
        0 <= a,
        0 <= b,
        0 <= c,
    ensures
        0 <= a * b,
        0 <= a * b * c,
{
    assert(0 <= a * b) by (nonlinear_arith)
        requires
            0 <= a,
            0 <= b,
    ;
    let p = a * b;
    assert(0 <= p * c) by (nonlinear_arith)
        requires
            0 <= p,
            0 <= c,
    ;
}

/// Estimates the memory of the direct Coulomb matrix.
pub fn mem_estimate_vj_ri_direct(nao: usize, naux: usize, nset: usize) -> (m: MemEstimate)
    requires
        nao * (nao + 1) <= usize::MAX,
        countable(vj_direct_memory(nao as int, naux as int, nset as int)),
    ensures
        m.parts() == vj_direct_memory(nao as int, naux as int, nset as int),
{
    proof {
        lemma_products(naux as int, nset as int, 2);
        lemma_products(naux as int, naux as int, 1);
        lemma_products(nao as int, nao as int, nset as int);
        lemma_products(nao as int, nao + 1, 1);
        assert((nao + 1) * nao == nao * (nao + 1) && nao * nao <= nao * (nao + 1))
            by (nonlinear_arith);
        lemma_products(triangle(nao as int), nset as int, 1);
        assert(nao < usize::MAX) by (nonlinear_arith)
            requires
                nao * (nao + 1) <= usize::MAX,
                nao >= 0,
        ;
    }
    let pairs: usize = (nao + 1) * nao / 2;
    let fixed: usize = naux * nset * 2 + naux * naux + nao * nao * nset + pairs * nset;
    MemEstimate { batched: pairs, fixed, thread: 0 }
}

/// Estimates the memory of the exchange matrix from integrals in memory.
pub fn mem_estimate_vk_ri_incore_coeff(
    nao: usize,
    _naux: usize,
    nocc_max: usize,
    nset: usize,
) -> (m: MemEstimate)
    requires
        countable(vk_incore_memory(nao as int, nocc_max as int, nset as int)),
    ensures
        m.parts() == vk_incore_memory(nao as int, nocc_max as int, nset as int),
{
    proof {
        lemma_products(nao as int, nao as int, nset as int);
        lemma_products(nao as int, nocc_max as int, 1);
    }
    MemEstimate { batched: nao * nocc_max, fixed: nao * nao * nset, thread: nao * nao }
}

/// Estimates the memory of the semi-direct exchange matrix.
pub fn mem_estimate_vk_ri_semi_incore_coeff(
    nao: usize,
    naux: usize,
    nocc_max: usize,
    nset: usize,
) -> (m: MemEstimate)
    requires
        countable(vk_semi_memory(nao as int, naux as int, nocc_max as int, nset as int)),
        nao * nocc_max <= usize::MAX,
    ensures
        m.parts() == vk_semi_memory(nao as int, naux as int, nocc_max as int, nset as int),
{
    proof {
        lemma_products(nao as int, nao as int, nset as int);
        lemma_products(nao as int, nocc_max as int, naux as int);
        lemma_products(naux as int, naux as int, 1);
    }
    let fixed: usize = nao * nao * nset + nao * nocc_max * naux + naux * naux;
    MemEstimate { batched: nao * nao, fixed, thread: nao * nao }
}

/// Estimates the memory of the direct exchange matrix from orbitals.
pub fn mem_estimate_vk_ri_direct_coeff(
    nao: usize,
    naux: usize,
    nocc_max: usize,
    nset: usize,
) -> (m: MemEstimate)
    requires
        countable(vk_direct_memory(nao as int, naux as int, nocc_max as int, nset as int)),
        nset < usize::MAX,
    ensures
        m.parts() == vk_direct_memory(nao as int, naux as int, nocc_max as int, nset as int),
{
    proof {
        lemma_products(nao as int, nao as int, nset as int);
        lemma_products(nao as int, naux as int, 1);
        lemma_products(nocc_max as int, naux as int, nset + 1);
        lemma_products(naux as int, naux as int, 1);
        let p = nocc_max * naux;
        assert(p <= p * (nset + 1)) by (nonlinear_arith)
            requires
                0 <= p,
                0 <= nset,
        ;
    }
    let batched: usize = nao * naux + nocc_max * naux * (nset + 1);
    MemEstimate { batched, fixed: nao * nao * nset + naux * naux, thread: nao * nao }
}

/// Estimates the memory of the direct exchange matrix from densities.
pub fn mem_estimate_vk_ri_direct_dm(nao: usize, naux: usize, nset: usize) -> (m: MemEstimate)
    requires
        countable(vk_density_memory(nao as int, naux as int, nset as int)),
    ensures
        m.parts() == vk_density_memory(nao as int, naux as int, nset as int),
{
    proof {
        lemma_products(nao as int, nao as int, nset as int);
        lemma_products(nao as int, naux as int, nset as int);
        lemma_products(naux as int, naux as int, 1);
    }
    let batched: usize = nao * naux + nao * naux * nset;
    MemEstimate { batched, fixed: nao * nao * nset + naux * naux, thread: nao * nao }
}

/// Whether an orbital takes part in the exchange matrix.
pub open spec fn takes_part(occupation: Seq<Real>) -> spec_fn(int) -> bool {
    |i: int| (Real { bits: OCCUPIED_EPSILON }).below(occupation[i])
}

/// The orbitals that take part in the exchange matrix: those occupied above the machine
/// epsilon.
pub fn occupied_columns(occupation: &Vec<Real>) -> (r: Vec<usize>)
    ensures
        ints(r@) == positions(occupation@.len(), takes_part(occupation@)),
{
    let mut r: Vec<usize> = Vec::new();
    assert(ints(r@) =~= seq![]);
    let mut i: usize = 0;
    while i < occupation.len()
        invariant
            i <= occupation@.len(),
            ints(r@) == positions(i as nat, takes_part(occupation@)),
        decreases occupation@.len() - i,
    {
        if occupation[i].gt(Real { bits: OCCUPIED_EPSILON }) {
            proof {
                lemma_ints_push(r@, i);
            }
            r.push(i);
        }
        i += 1;
    }
    r
}

/// A block of the exchange matrix that one pair of batches contributes to; with
/// `mirrored`, the transposed block gets the transposed contribution.
#[derive(Clone, Copy, Debug, PartialEq, Eq, Structural)]
pub struct BlockVisit {
    pub row: usize,
    pub column: usize,
    pub mirrored: bool,
}

/// The visits of batch `i` with the batches below `j`.
pub open spec fn visits_with(i: int, j: int) -> Seq<BlockVisit>
    decreases j,
{
    if j <= 0 {
        seq![]
    } else {
        visits_with(i, j - 1).push(
            BlockVisit { row: i as usize, column: (j - 1) as usize, mirrored: true },
        )
    }
}

/// The visits of the first `n` batches: each with itself, then with every earlier one.
pub open spec fn block_visits(n: int) -> Seq<BlockVisit>
    decreases n,
{
    if n <= 0 {
        seq![]
    } else {
        block_visits(n - 1).push(
            BlockVisit { row: (n - 1) as usize, column: (n - 1) as usize, mirrored: false },
        ) + visits_with(n - 1, n - 1)
    }
}

/// The order in which pairs of `n` batches contribute to the exchange matrix.
pub fn exchange_block_visits(n: usize) -> (r: Vec<BlockVisit>)
    ensures
        r@ == block_visits(n as int),
{
    let mut r: Vec<BlockVisit> = Vec::new();
    let mut i: usize = 0;
    while i < n
        invariant
            i <= n,
            r@ == block_visits(i as int),
        decreases n - i,
    {
        r.push(BlockVisit { row: i, column: i, mirrored: false });
        let ghost before = r@;
        let mut j: usize = 0;
        assert(r@ =~= before + visits_with(i as int, 0));
        while j < i
            invariant
                j <= i,
                r@ == before + visits_with(i as int, j as int),
            decreases i - j,
        {
            r.push(BlockVisit { row: i, column: j, mirrored: true });
            j += 1;
            assert(r@ =~= before + visits_with(i as int, j as int));
        }
        i += 1;
    }
    r
}

/// How often a visit contributes to a block.
pub open spec fn visit_count(v: BlockVisit, row: int, column: int) -> nat {
    (if v.row == row && v.column == column { 1nat } else { 0 }) + (if v.mirrored && v.row == column
        && v.column == row {
        1nat
    } else {
        0
    })
}

/// How often the visits contribute to a block.
pub open spec fn visits_count(visits: Seq<BlockVisit>, row: int, column: int) -> nat
    decreases visits.len(),
{
    if visits.len() == 0 {
        0
    } else {
        visits_count(visits.drop_last(), row, column) + visit_count(visits.last(), row, column)
    }
}

proof fn lemma_visits_push(visits: Seq<BlockVisit>, v: BlockVisit, row: int, column: int)
    ensures
        visits_count(visits.push(v), row, column) == visits_count(visits, row, column)
            + visit_count(v, row, column),
{
    assert(visits.push(v).drop_last() =~= visits);
}

proof fn lemma_visits_concat(a: Seq<BlockVisit>, b: Seq<BlockVisit>, row: int, column: int)
    ensures
        visits_count(a + b, row, column) == visits_count(a, row, column) + visits_count(
            b,
            row,
            column,
        ),
    decreases b.len(),
{
    if b.len() == 0 {
        assert(a + b =~= a);
    } else {
        assert((a + b).drop_last() =~= a + b.drop_last());
        lemma_visits_concat(a, b.drop_last(), row, column);
    }
}

proof fn lemma_visits_with(i: int, j: int, row: int, column: int)
    requires
        0 <= j <= i <= usize::MAX,
        0 <= row,
        0 <= column,
    ensures
        visits_count(visits_with(i, j), row, column) == (if (row == i && column < j) || (column == i
            && row < j) {
            1nat
        } else {
            0
        }),
    decreases j,
{
    if j > 0 {
        lemma_visits_with(i, j - 1, row, column);
        lemma_visits_push(
            visits_with(i, j - 1),
            BlockVisit { row: i as usize, column: (j - 1) as usize, mirrored: true },
            row,
            column,
        );
    }
}

/// Every block of the exchange matrix gets exactly one contribution.
pub proof fn law_blocks_once(n: int, row: int, column: int)
    requires
        0 <= n <= usize::MAX,
        0 <= row,
        0 <= column,
    ensures
        visits_count(block_visits(n), row, column) == (if row < n && column < n {
            1nat
        } else {
            0
        }),
    decreases n,
{
    if n > 0 {
        law_blocks_once(n - 1, row, column);
        let own = BlockVisit { row: (n - 1) as usize, column: (n - 1) as usize, mirrored: false };
        lemma_visits_push(block_visits(n - 1), own, row, column);
        lemma_visits_with(n - 1, n - 1, row, column);
        lemma_visits_concat(
            block_visits(n - 1).push(own),
            visits_with(n - 1, n - 1),
            row,
            column,
        );
    }
}

/// Coulomb matrices in batches: a batch takes the pairs of basis functions for each auxiliary
/// function, the auxiliary metric is kept, and each density adds two auxiliary vectors, a full
/// matrix and a packed one. Nothing is kept for each thread.
pub proof fn law_vj_memory(nao: int, naux: int, nset: int)
    requires
        0 <= nao,
    ensures
        ({
            let m = vj_direct_memory(nao, naux, nset);
            let more = vj_direct_memory(nao, naux, nset + 1);
            &&& 2 * m.0 == nao * (nao + 1)
            &&& vj_direct_memory(nao, naux, 0).1 == naux * naux
            &&& more.0 == m.0
            &&& more.1 - m.1 == 2 * naux + nao * nao + m.0
            &&& m.2 == 0
        }),
{
    let pairs = (nao + 1) * nao / 2;
    assert((nao + 1) * nao == nao * (nao + 1)) by (nonlinear_arith);
    let k = nao / 2;
    if nao % 2 == 0 {
        assert((nao + 1) * nao == 2 * ((nao + 1) * k)) by (nonlinear_arith)
            requires
                nao == 2 * k,
        ;
    } else {
        assert((nao + 1) * nao == 2 * ((k + 1) * nao)) by (nonlinear_arith)
            requires
                nao == 2 * k + 1,
        ;
    }
    assert(naux * (nset + 1) * 2 == naux * nset * 2 + 2 * naux) by (nonlinear_arith);
    assert(nao * nao * (nset + 1) == nao * nao * nset + nao * nao) by (nonlinear_arith);
    assert(pairs * (nset + 1) == pairs * nset + pairs) by (nonlinear_arith);
    assert(naux * 0 * 2 == 0 && nao * nao * 0 == 0 && pairs * 0 == 0) by (nonlinear_arith);
}

/// Exchange matrices: each density adds a full matrix to what is kept, and each thread keeps one,
/// whichever way exchange is made. Kept integrals need no metric; every other way keeps it.
pub proof fn law_vk_memory(nao: int, naux: int, nocc: int, nset: int)
    ensures
        ({
            let square = nao * nao;
            let incore = vk_incore_memory(nao, nocc, nset);
            let semi = vk_semi_memory(nao, naux, nocc, nset);
            let direct = vk_direct_memory(nao, naux, nocc, nset);
            let density = vk_density_memory(nao, naux, nset);
            &&& incore.2 == square && semi.2 == square && direct.2 == square && density.2 == square
            &&& vk_incore_memory(nao, nocc, nset + 1).1 == incore.1 + square
            &&& vk_semi_memory(nao, naux, nocc, nset + 1).1 == semi.1 + square
            &&& vk_direct_memory(nao, naux, nocc, nset + 1).1 == direct.1 + square
            &&& vk_density_memory(nao, naux, nset + 1).1 == density.1 + square
            &&& vk_incore_memory(nao, nocc, 0).1 == 0
            &&& vk_semi_memory(nao, naux, nocc, 0).1 == nao * nocc * naux + naux * naux
            &&& vk_direct_memory(nao, naux, nocc, 0).1 == naux * naux
            &&& vk_density_memory(nao, naux, 0).1 == naux * naux
        }),
{
    assert(nao * nao * (nset + 1) == nao * nao * nset + nao * nao) by (nonlinear_arith);
    assert(nao * nao * 0 == 0) by (nonlinear_arith);
}

/// What a batch of exchange takes for each of its members: half-transformed integrals where all
/// are kept, a full matrix of integrals in the semi-direct way, and in the direct ways a row of
/// integrals, with two rows of transformed ones for one density and one more for each further
/// one, or with one row for each density where orbitals may not be read.
pub proof fn law_vk_batches(nao: int, naux: int, nocc: int, nset: int)
    ensures
        ({
            let direct = vk_direct_memory(nao, naux, nocc, nset);
            let density = vk_density_memory(nao, naux, nset);
            &&& vk_incore_memory(nao, nocc, nset).0 == nao * nocc
            &&& vk_semi_memory(nao, naux, nocc, nset).0 == nao * nao
            &&& vk_direct_memory(nao, naux, nocc, 0).0 == nao * naux + nocc * naux
            &&& vk_direct_memory(nao, naux, nocc, nset + 1).0 == direct.0 + nocc * naux
            &&& vk_density_memory(nao, naux, 0).0 == nao * naux
            &&& vk_density_memory(nao, naux, nset + 1).0 == density.0 + nao * naux
        }),
{
    let (p, q) = (nocc * naux, nao * naux);
    assert(p * (nset + 1 + 1) == p * (nset + 1) + p) by (nonlinear_arith);
    assert(q * (nset + 1) == q * nset + q) by (nonlinear_arith);
    assert(p * (0 + 1) == p && q * 0 == 0) by (nonlinear_arith);
}

/// An orbital takes part exactly when it is occupied above the machine epsilon.
pub proof fn law_takes_part(occupation: Seq<Real>, i: int)
    ensures
        takes_part(occupation)(i) <==> 0x3cb0_0000_0000_0000 < occupation[i].bits
            <= 0x7ff0_0000_0000_0000,
{
}

} // verus!
