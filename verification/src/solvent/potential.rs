//! Blocks of work for the potential of the electrons on the cavity and for the potential of
//! the cavity's charges among the basis functions.

use crate::binary64::Real;
use crate::scf_io::direct::{ascending, aux_batches, is_batch, AuxBatch};
use crate::scf_io::partition::{batch_at, batch_count, batches};
use crate::sequences::tiles;
use vstd::prelude::*;

verus! {

/// The largest number of auxiliary functions of a batch.
pub const AUX_BATCH: usize = 256;

/// The pattern of 1e-12, the part of the largest diagonal element, or of one if that is larger,
/// that is added to the diagonal of the fitting matrix.
pub const REGULARIZATION: u64 = 0x3d71_9799_812d_ea11;

/// The number of surface points of a block when the electrons' potential is fitted.
pub const FITTED_BLOCK: usize = 256;

/// Blocks of surface points, by first point and number of points.
pub open spec fn are_blocks(blocks: Seq<(usize, usize)>, points: int, size: int) -> bool {
    &&& blocks.len() == batch_count(points, size)
    &&& forall|i: int|
        0 <= i < blocks.len() ==> (#[trigger] blocks[i]).0 == batch_at(points, size, i).0
            && blocks[i].1 == batch_at(points, size, i).1
}

/// The blocks of a potential: batches of auxiliary functions if it is fitted, and blocks of
/// surface points.
pub struct PotentialBlocks {
    pub aux: Vec<AuxBatch>,
    pub points: Vec<(usize, usize)>,
}

/// The blocks of the electrons' potential on the surface, fitted by auxiliary functions.
pub fn get_v_grids_e(
    nbas: usize,
    aux_loc: &Vec<usize>,
    partition: &Vec<(usize, usize)>,
    ngrids: usize,
) -> (p: PotentialBlocks)
    requires
        aux_loc@.len() > 0,
        ascending(aux_loc@),
        nbas + aux_loc@.len() <= i32::MAX,
        tiles(partition@, aux_loc@.len() - 1),
    ensures
        p.aux@.len() == partition@.len(),
        forall|i: int|
            0 <= i < p.aux@.len() ==> is_batch(
                #[trigger] p.aux@[i],
                nbas as int,
                aux_loc@,
                partition@[i],
            ),
        are_blocks(p.points@, ngrids as int, FITTED_BLOCK as int),
{
    PotentialBlocks {
        aux: aux_batches(nbas, aux_loc, partition),
        points: batches(ngrids, FITTED_BLOCK),
    }
}

/// The blocks of the electrons' potential on the surface, from the integrals themselves.
pub fn get_v_grids_e_old(ngrids: usize, chunk_size: usize) -> (p: PotentialBlocks)
    requires
        chunk_size > 0,
    ensures
        p.aux@.len() == 0,
        are_blocks(p.points@, ngrids as int, chunk_size as int),
{
    PotentialBlocks { aux: Vec::new(), points: batches(ngrids, chunk_size) }
}

/// The blocks of the charges' potential among the basis functions, fitted by auxiliary
/// functions.
pub fn get_veff_pcm_by_q(
    nbas: usize,
    aux_loc: &Vec<usize>,
    partition: &Vec<(usize, usize)>,
    ngrids: usize,
    chunk_size: usize,
) -> (p: PotentialBlocks)
    requires
        aux_loc@.len() > 0,
        ascending(aux_loc@),
        nbas + aux_loc@.len() <= i32::MAX,
        tiles(partition@, aux_loc@.len() - 1),
        chunk_size > 0,
    ensures
        p.aux@.len() == partition@.len(),
        forall|i: int|
            0 <= i < p.aux@.len() ==> is_batch(
                #[trigger] p.aux@[i],
                nbas as int,
                aux_loc@,
                partition@[i],
            ),
        are_blocks(p.points@, ngrids as int, chunk_size as int),
{
    PotentialBlocks {
        aux: aux_batches(nbas, aux_loc, partition),
        points: batches(ngrids, chunk_size),
    }
}

/// The blocks of the charges' potential among the basis functions, from the integrals
/// themselves.
pub fn get_veff_pcm_by_q_old(ngrids: usize, chunk_size: usize) -> (p: PotentialBlocks)
    requires
        chunk_size > 0,
    ensures
        p.aux@.len() == 0,
        are_blocks(p.points@, ngrids as int, chunk_size as int),
{
    PotentialBlocks { aux: Vec::new(), points: batches(ngrids, chunk_size) }
}

/// The pattern of 1e-12, below which integrals are neglected.
pub const NEGLIGIBLE: u64 = 0x3d71_9799_812d_ea11;

/// Whether no integral of a block reaches the threshold; values that are not numbers do not
/// count.
pub open spec fn neglected(values: Seq<Real>) -> bool {
    forall|i: int|
        0 <= i < values.len() ==> (#[trigger] values[i]).nan() || (Real {
            bits: values[i].magnitude() as u64,
        }).below(Real { bits: NEGLIGIBLE })
}

/// Whether a block of integrals can be left out.
pub fn is_negligible(values: &Vec<Real>) -> (b: bool)
    ensures
        b == neglected(values@),
{
    let mut i: usize = 0;
    while i < values.len()
        invariant
            i <= values@.len(),
            neglected(values@.take(i as int)),
        decreases values@.len() - i,
    {
        let v: Real = values[i];
        if !v.is_nan() && !v.abs().lt(Real { bits: NEGLIGIBLE }) {
            assert(!neglected(values@)) by {
                assert(!(values@[i as int].nan() || (Real {
                    bits: values@[i as int].magnitude() as u64,
                }).below(Real { bits: NEGLIGIBLE })));
            }
            return false;
        }
        assert(values@.take(i + 1) =~= values@.take(i as int).push(v));
        assert forall|x: int| 0 <= x < i + 1 implies (#[trigger] values@.take(i + 1)[x]).nan() || (
        Real { bits: values@.take(i + 1)[x].magnitude() as u64 }).below(
            Real { bits: NEGLIGIBLE },
        ) by {
            if x < i {
                assert(values@.take(i + 1)[x] == values@.take(i as int)[x]);
            }
        }
        i += 1;
    }
    assert(values@.take(i as int) =~= values@);
    true
}

/// The number of batches of the auxiliary basis that a refresh goes through.
pub open spec fn fitted_batches(solv_ri: bool, parts: nat) -> nat {
    if solv_ri {
        parts
    } else {
        0
    }
}

/// The number of points in a block of the electrons' potential.
pub open spec fn electron_block(solv_ri: bool, chunk_size: usize) -> usize {
    if solv_ri {
        FITTED_BLOCK
    } else {
        chunk_size
    }
}

/// The blocks of work of one refresh of the solvent: the electrons' potential first, then
/// the charges' potential.
pub struct RefreshBlocks {
    pub electrons: PotentialBlocks,
    pub charges: PotentialBlocks,
}

/// Plans a refresh of the solvent: with fitted integrals on request, and with the integrals
/// themselves otherwise.
pub fn get_pcm_refresh(
    solv_ri: bool,
    nbas: usize,
    aux_loc: &Vec<usize>,
    partition: &Vec<(usize, usize)>,
    ngrids: usize,
    chunk_size: usize,
) -> (p: RefreshBlocks)
    requires
        solv_ri ==> aux_loc@.len() > 0 && ascending(aux_loc@) && nbas + aux_loc@.len() <= i32::MAX
            && tiles(partition@, aux_loc@.len() - 1),
        chunk_size > 0,
    ensures
        p.electrons.aux@.len() == fitted_batches(solv_ri, partition@.len()),
        p.charges.aux@.len() == fitted_batches(solv_ri, partition@.len()),
        forall|i: int|
            0 <= i < p.electrons.aux@.len() ==> is_batch(
                #[trigger] p.electrons.aux@[i],
                nbas as int,
                aux_loc@,
                partition@[i],
            ),
        forall|i: int|
            0 <= i < p.charges.aux@.len() ==> is_batch(
                #[trigger] p.charges.aux@[i],
                nbas as int,
                aux_loc@,
                partition@[i],
            ),
        are_blocks(
            p.electrons.points@,
            ngrids as int,
            electron_block(solv_ri, chunk_size) as int,
        ),
        are_blocks(p.charges.points@, ngrids as int, chunk_size as int),
{
    if solv_ri {
        RefreshBlocks {
            electrons: get_v_grids_e(nbas, aux_loc, partition, ngrids),
            charges: get_veff_pcm_by_q(nbas, aux_loc, partition, ngrids, chunk_size),
        }
    } else {
        RefreshBlocks {
            electrons: get_v_grids_e_old(ngrids, chunk_size),
            charges: get_veff_pcm_by_q_old(ngrids, chunk_size),
        }
    }
}

/// A block is neglected exactly when both of its parts are; one number of 1e-12 or more, of either
/// sign, is enough to keep it.
pub proof fn law_neglected(a: Seq<Real>, b: Seq<Real>, x: Real)
    ensures
        neglected(a + b) <==> neglected(a) && neglected(b),
        neglected(Seq::<Real>::empty()),
        neglected(seq![x]) <==> x.nan() || x.magnitude() < 0x3d71_9799_812d_ea11,
{
    let all = a + b;
    if neglected(all) {
        assert forall|i: int| 0 <= i < a.len() implies (#[trigger] a[i]).nan() || (Real {
            bits: a[i].magnitude() as u64,
        }).below(Real { bits: NEGLIGIBLE }) by {
            assert(all[i] == a[i]);
        }
        assert forall|i: int| 0 <= i < b.len() implies (#[trigger] b[i]).nan() || (Real {
            bits: b[i].magnitude() as u64,
        }).below(Real { bits: NEGLIGIBLE }) by {
            assert(all[a.len() + i] == b[i]);
        }
    }
    if neglected(a) && neglected(b) {
        assert forall|i: int| 0 <= i < all.len() implies (#[trigger] all[i]).nan() || (Real {
            bits: all[i].magnitude() as u64,
        }).below(Real { bits: NEGLIGIBLE }) by {
            if i < a.len() {
                assert(all[i] == a[i]);
            } else {
                assert(all[i] == b[i - a.len()]);
            }
        }
    }
    let one = seq![x];
    assert(one[0] == x);
}

/// The fitted potential of the electrons takes 256 points at a time, the other one as many as it is
/// told.
pub proof fn law_electron_block(chunk_size: usize)
    ensures
        electron_block(true, chunk_size) == 256,
        electron_block(false, chunk_size) == chunk_size,
{
}

/// A refresh goes through the auxiliary basis exactly where integrals are fitted.
pub proof fn law_fitted_batches(parts: nat)
    ensures
        fitted_batches(true, parts) == parts,
        fitted_batches(false, parts) == 0,
{
}

/// The blocks take every point once: they follow each other without gap from the first point to
/// the last, and all but the last have the full size.
pub proof fn law_blocks(blocks: Seq<(usize, usize)>, points: int, size: int, x: int)
    requires
        are_blocks(blocks, points, size),
        size > 0,
        0 <= x < points,
    ensures
        exists|i: int| 0 <= i < blocks.len() && (#[trigger] blocks[i]).0 <= x < blocks[i].0 + blocks[i].1,
        forall|i: int, j: int|
            0 <= i < blocks.len() && 0 <= j < blocks.len() && (#[trigger] blocks[i]).0 <= x < blocks[i].0
                + blocks[i].1 && (#[trigger] blocks[j]).0 <= x < blocks[j].0 + blocks[j].1 ==> i == j,
        forall|i: int| 0 <= i < blocks.len() ==> 0 < (#[trigger] blocks[i]).1 <= size,
{
    let n = batch_count(points, size);
    assert forall|i: int| 0 <= i < n implies {
        let b = #[trigger] blocks[i];
        (b.0 <= x < b.0 + b.1 <==> i == x / size) && 0 < b.1 <= size
    } by {
        crate::scf_io::partition::law_batches_tile(points, size, x, i);
    }
    let k = x / size;
    crate::scf_io::partition::law_batch_count(points, size);
    assert(n > 0) by (nonlinear_arith)
        requires
            n * size >= points,
            points > 0,
            size > 0,
    ;
    crate::scf_io::partition::law_batches_tile(points, size, x, 0);
    assert(blocks[k].0 <= x < blocks[k].0 + blocks[k].1);
}

} // verus!
