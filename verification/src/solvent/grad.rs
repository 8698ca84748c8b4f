//! Gradient of the solvation energy: which terms each model has, how derivatives of the
//! cavity move with the atoms, and the layout of derivative integrals.

use crate::binary64::Real;
use crate::sequences::tiles;
use crate::solvent::method::PcmMethod;
use vstd::prelude::*;

verus! {

/// A contribution to the response of the surface charges.
#[derive(Clone, Copy, Debug, PartialEq, Eq, Structural)]
pub enum SolverPart {
    /// Derivative of the double layer in the right-hand side.
    SourceD,
    /// Derivative of the areas in the right-hand side.
    SourceA,
    /// Derivative of the single layer.
    S0,
    /// Derivative of the double layer in `D A S`.
    D,
    /// Derivative of the areas in `D A S`.
    A,
    /// Derivative of the single layer in `D A S`.
    S1,
    /// Derivative of the double layer in the transpose of `D A S`.
    DTransposed,
    /// Derivative of the areas in the transpose of `D A S`.
    ATransposed,
    /// Derivative of the single layer in the transpose of `D A S`.
    S1Transposed,
}

/// The factor of a contribution, besides one half: minus one, or the dielectric factor over
/// two pi or over four pi.
#[derive(Clone, Copy, Debug, PartialEq, Eq, Structural)]
pub enum SolverFactor {
    MinusOne,
    OverTwoPi,
    OverFourPi,
}

/// A contribution with its factor.
#[derive(Clone, Copy, Debug, PartialEq, Eq, Structural)]
pub struct SolverTerm {
    pub part: SolverPart,
    pub factor: SolverFactor,
}

/// Contributions that share a factor.
pub open spec fn with_factor(parts: Seq<SolverPart>, factor: SolverFactor) -> Seq<SolverTerm> {
    parts.map_values(|part: SolverPart| SolverTerm { part, factor })
}

/// The contributions of a model. The charges solve `K q = R v`, where `K` is the single layer
/// for the conductor-like models, `S - D A S f / 2 pi` for the integral-equation models, and
/// `S` minus the symmetrized `D A S f / 4 pi` for the surface-and-volume model; `R` is
/// constant for the conductor-like models and holds `D A` otherwise.
pub open spec fn solver_terms(m: PcmMethod) -> Seq<SolverTerm> {
    let source = with_factor(
        seq![SolverPart::SourceD, SolverPart::SourceA],
        SolverFactor::OverTwoPi,
    );
    let single = with_factor(seq![SolverPart::S0], SolverFactor::MinusOne);
    match m {
        PcmMethod::CPCM | PcmMethod::COSMO => single,
        PcmMethod::IEFPCM | PcmMethod::SMD => source + single + with_factor(
            seq![SolverPart::D, SolverPart::A, SolverPart::S1],
            SolverFactor::OverTwoPi,
        ),
        PcmMethod::SSVPE => source + single + with_factor(
            seq![
                SolverPart::D,
                SolverPart::A,
                SolverPart::S1,
                SolverPart::DTransposed,
                SolverPart::ATransposed,
                SolverPart::S1Transposed,
            ],
            SolverFactor::OverFourPi,
        ),
    }
}

/// Lists the contributions of a model.
pub fn grad_solvent_solver(m: PcmMethod) -> (r: Vec<SolverTerm>)
    ensures
        r@ == solver_terms(m),
{
    let mut r: Vec<SolverTerm> = Vec::new();
    let layered: bool = m.uses_double_layer();
    if layered {
        let factor: SolverFactor = SolverFactor::OverTwoPi;
        r.push(SolverTerm { part: SolverPart::SourceD, factor });
        r.push(SolverTerm { part: SolverPart::SourceA, factor });
    }
    r.push(SolverTerm { part: SolverPart::S0, factor: SolverFactor::MinusOne });
    if layered {
        let symmetric: bool = matches!(m, PcmMethod::SSVPE);
        let factor: SolverFactor = if symmetric {
            SolverFactor::OverFourPi
        } else {
            SolverFactor::OverTwoPi
        };
        r.push(SolverTerm { part: SolverPart::D, factor });
        r.push(SolverTerm { part: SolverPart::A, factor });
        r.push(SolverTerm { part: SolverPart::S1, factor });
        if symmetric {
            r.push(SolverTerm { part: SolverPart::DTransposed, factor });
            r.push(SolverTerm { part: SolverPart::ATransposed, factor });
            r.push(SolverTerm { part: SolverPart::S1Transposed, factor });
        }
    }
    assert(r@ =~= solver_terms(m));
    r
}

/// Models without the double layer have no contribution that needs its derivative.
pub proof fn law_double_layer_needed(m: PcmMethod, t: SolverTerm)
    requires
        solver_terms(m).contains(t),
        t.part != SolverPart::S0,
    ensures
        crate::solvent::method::uses_double_layer(m),
{
    if !crate::solvent::method::uses_double_layer(m) {
        let k = choose|k: int| 0 <= k < solver_terms(m).len() && solver_terms(m)[k] == t;
        assert(solver_terms(m)[k].part == SolverPart::S0);
    }
}

/// Products of the charges and of the solution of the transposed equation with the layers.
#[derive(Clone, Copy, Debug, PartialEq, Eq, Structural)]
pub enum AuxVector {
    /// The solution of the transposed equation.
    Vk1,
    /// The single layer times the charges.
    Sq,
    /// The solution times the double layer.
    Vk1D,
    /// The same times the areas.
    Vk1DA,
    /// The solution times the single layer.
    Vk1S,
    /// The transposed double layer times the charges.
    DtQ,
}

/// The products that are computed for a model.
pub open spec fn aux_vectors(m: PcmMethod) -> Seq<AuxVector> {
    let common = seq![AuxVector::Vk1, AuxVector::Sq, AuxVector::Vk1D, AuxVector::Vk1DA];
    if m == PcmMethod::SSVPE {
        common + seq![AuxVector::Vk1S, AuxVector::DtQ]
    } else {
        common
    }
}

/// A vector over the surface points that a contribution is made from.
#[derive(Clone, Copy, Debug, PartialEq, Eq, Structural)]
pub enum Operand {
    Aux(AuxVector),
    /// The potential.
    Potential,
    /// The charges.
    Charges,
    /// The areas.
    Areas,
}

/// What a contribution takes the derivative of.
#[derive(Clone, Copy, Debug, PartialEq, Eq, Structural)]
pub enum Derivative {
    /// The double layer, between a left and a right vector.
    DoubleLayer,
    /// The single layer, between a left and a right vector; its diagonal follows the
    /// switching values.
    SingleLayer,
    /// The areas, weighted by the left vector alone.
    Areas,
}

/// What a contribution is made from: each side is the product, point by point, of the listed
/// vectors.
#[derive(Debug)]
pub struct Operands {
    pub derivative: Derivative,
    pub left: Vec<Operand>,
    pub right: Vec<Operand>,
}

/// What a contribution is made from: the derivative, and the vectors of the left and of the
/// right side.
pub open spec fn operands_of(part: SolverPart) -> (Derivative, Seq<Operand>, Seq<Operand>) {
    let vk1 = Operand::Aux(AuxVector::Vk1);
    let sq = Operand::Aux(AuxVector::Sq);
    let vk1d = Operand::Aux(AuxVector::Vk1D);
    let vk1s = Operand::Aux(AuxVector::Vk1S);
    let dtq = Operand::Aux(AuxVector::DtQ);
    match part {
        SolverPart::SourceD => (
            Derivative::DoubleLayer,
            seq![vk1],
            seq![Operand::Areas, Operand::Potential],
        ),
        SolverPart::SourceA => (Derivative::Areas, seq![vk1d, Operand::Potential], seq![]),
        SolverPart::S0 => (Derivative::SingleLayer, seq![vk1], seq![Operand::Charges]),
        SolverPart::D => (Derivative::DoubleLayer, seq![vk1], seq![Operand::Areas, sq]),
        SolverPart::A => (Derivative::Areas, seq![vk1d, sq], seq![]),
        SolverPart::S1 => (
            Derivative::SingleLayer,
            seq![Operand::Aux(AuxVector::Vk1DA)],
            seq![Operand::Charges],
        ),
        SolverPart::DTransposed => (
            Derivative::DoubleLayer,
            seq![Operand::Charges],
            seq![vk1s, Operand::Areas],
        ),
        SolverPart::ATransposed => (Derivative::Areas, seq![vk1s, dtq], seq![]),
        SolverPart::S1Transposed => (
            Derivative::SingleLayer,
            seq![vk1],
            seq![Operand::Areas, dtq],
        ),
    }
}

/// Lists what a contribution is made from.
pub fn solver_operands(part: SolverPart) -> (r: Operands)
    ensures
        (r.derivative, r.left@, r.right@) == operands_of(part),
{
    let vk1 = Operand::Aux(AuxVector::Vk1);
    let sq = Operand::Aux(AuxVector::Sq);
    let vk1d = Operand::Aux(AuxVector::Vk1D);
    let vk1s = Operand::Aux(AuxVector::Vk1S);
    let dtq = Operand::Aux(AuxVector::DtQ);
    let (derivative, left, right): (Derivative, Vec<Operand>, Vec<Operand>) = match part {
        SolverPart::SourceD => (
            Derivative::DoubleLayer,
            vec![vk1],
            vec![Operand::Areas, Operand::Potential],
        ),
        SolverPart::SourceA => (
            Derivative::Areas,
            vec![vk1d, Operand::Potential],
            Vec::new(),
        ),
        SolverPart::S0 => (Derivative::SingleLayer, vec![vk1], vec![Operand::Charges]),
        SolverPart::D => (Derivative::DoubleLayer, vec![vk1], vec![Operand::Areas, sq]),
        SolverPart::A => (Derivative::Areas, vec![vk1d, sq], Vec::new()),
        SolverPart::S1 => (
            Derivative::SingleLayer,
            vec![Operand::Aux(AuxVector::Vk1DA)],
            vec![Operand::Charges],
        ),
        SolverPart::DTransposed => (
            Derivative::DoubleLayer,
            vec![Operand::Charges],
            vec![vk1s, Operand::Areas],
        ),
        SolverPart::ATransposed => (Derivative::Areas, vec![vk1s, dtq], Vec::new()),
        SolverPart::S1Transposed => (
            Derivative::SingleLayer,
            vec![vk1],
            vec![Operand::Areas, dtq],
        ),
    };
    assert(left@ =~= operands_of(part).1);
    assert(right@ =~= operands_of(part).2);
    Operands { derivative, left, right }
}

/// Whether a contribution is made from a product.
pub open spec fn reads_aux(part: SolverPart, v: AuxVector) -> bool {
    operands_of(part).1.contains(Operand::Aux(v)) || operands_of(part).2.contains(
        Operand::Aux(v),
    )
}

/// Lists the products that are computed for a model.
pub fn compute_solver_aux(m: PcmMethod) -> (r: Vec<AuxVector>)
    ensures
        r@ == aux_vectors(m),
{
    let mut r: Vec<AuxVector> = Vec::new();
    r.push(AuxVector::Vk1);
    r.push(AuxVector::Sq);
    r.push(AuxVector::Vk1D);
    r.push(AuxVector::Vk1DA);
    if matches!(m, PcmMethod::SSVPE) {
        r.push(AuxVector::Vk1S);
        r.push(AuxVector::DtQ);
    }
    assert(r@ =~= aux_vectors(m));
    r
}

/// Every product that a contribution of a model is made from is computed for that model.
pub proof fn law_aux_available(m: PcmMethod, t: SolverTerm, v: AuxVector)
    requires
        solver_terms(m).contains(t),
        reads_aux(t.part, v),
    ensures
        aux_vectors(m).contains(v),
{
    let terms = solver_terms(m);
    let k = choose|k: int| 0 <= k < terms.len() && terms[k] == t;
    let a = aux_vectors(m);
    assert(a[0] == AuxVector::Vk1 && a[1] == AuxVector::Sq && a[2] == AuxVector::Vk1D && a[3]
        == AuxVector::Vk1DA);
    if m == PcmMethod::SSVPE {
        assert(a[4] == AuxVector::Vk1S && a[5] == AuxVector::DtQ);
    } else {
        assert(terms[k].part != SolverPart::DTransposed && terms[k].part
            != SolverPart::ATransposed && terms[k].part != SolverPart::S1Transposed);
    }
}

/// A contribution to the gradient of the solvation energy.
#[derive(Clone, Copy, Debug, PartialEq, Eq, Structural)]
pub enum GradientPart {
    /// The nuclei in the field of the charges.
    Nuclear,
    /// The electrons in the field of the charges.
    Electrons,
    /// The response of the charges.
    Solver,
    /// The surface tension.
    Tension,
}

/// The contributions to the gradient of the solvation energy.
pub open spec fn gradient_parts(tension: bool) -> Seq<GradientPart> {
    seq![GradientPart::Nuclear, GradientPart::Electrons, GradientPart::Solver] + (if tension {
        seq![GradientPart::Tension]
    } else {
        seq![]
    })
}

/// Whether each contribution is printed.
pub open spec fn prints_parts(print_level: usize) -> bool {
    print_level >= 2
}

/// Lists the contributions to the gradient of the solvation energy, and whether each is
/// printed. `tension` tells whether there is a surface tension.
pub fn compute_solvent_gradient(tension: bool, print_level: usize) -> (r: (
    Vec<GradientPart>,
    bool,
))
    ensures
        r.0@ == gradient_parts(tension),
        r.1 == prints_parts(print_level),
{
    let mut parts: Vec<GradientPart> = Vec::new();
    parts.push(GradientPart::Nuclear);
    parts.push(GradientPart::Electrons);
    parts.push(GradientPart::Solver);
    if tension {
        parts.push(GradientPart::Tension);
    }
    assert(parts@ =~= gradient_parts(tension));
    (parts, print_level >= 2)
}

/// The equation for the surface charges.
#[derive(Clone, Copy, Debug, PartialEq, Eq, Structural)]
pub struct ChargeEquation {
    /// The dielectric factor is `(e - 1) / (e + halves / 2)`.
    pub halves: u32,
    /// The matrix and the right-hand side hold the double layer.
    pub double_layer: bool,
    /// The double layer enters symmetrized.
    pub symmetrized: bool,
}

/// The equation of a model.
pub open spec fn charge_equation(m: PcmMethod) -> ChargeEquation {
    match m {
        PcmMethod::CPCM => ChargeEquation { halves: 0, double_layer: false, symmetrized: false },
        PcmMethod::COSMO => ChargeEquation { halves: 1, double_layer: false, symmetrized: false },
        PcmMethod::IEFPCM | PcmMethod::SMD => ChargeEquation {
            halves: 2,
            double_layer: true,
            symmetrized: false,
        },
        PcmMethod::SSVPE => ChargeEquation { halves: 2, double_layer: true, symmetrized: true },
    }
}

/// Decides the equation of a model.
#[allow(non_snake_case)]
pub fn get_K_R_f(m: PcmMethod) -> (e: ChargeEquation)
    ensures
        e == charge_equation(m),
{
    match m {
        PcmMethod::CPCM => ChargeEquation { halves: 0, double_layer: false, symmetrized: false },
        PcmMethod::COSMO => ChargeEquation { halves: 1, double_layer: false, symmetrized: false },
        PcmMethod::IEFPCM | PcmMethod::SMD => ChargeEquation {
            halves: 2,
            double_layer: true,
            symmetrized: false,
        },
        PcmMethod::SSVPE => ChargeEquation { halves: 2, double_layer: true, symmetrized: true },
    }
}

/// How the distance of a surface point to an atom enters the switching function.
#[derive(Clone, Copy, Debug, PartialEq, Eq, Structural)]
pub enum SwitchDistance {
    /// The point's own atom does not switch it off.
    Own,
    /// The point lies on the atom.
    Zero,
    /// By the reduced distance.
    Reduced,
}

/// The pattern of 1e-8, below which a distance counts as zero.
pub const TOUCHING: u64 = 0x3e45_798e_e230_8c3a;

/// The pattern of 1e-15, up to which a divisor counts as zero.
pub const NEGLIGIBLE: u64 = 0x3cd2_03af_9ee7_5616;

/// How the distance `r` of a point of atom `owner` to atom `j` enters.
pub open spec fn distance_of(owner: int, j: int, r: Real) -> SwitchDistance {
    if j == owner {
        SwitchDistance::Own
    } else if r.below(Real { bits: TOUCHING }) {
        SwitchDistance::Zero
    } else {
        SwitchDistance::Reduced
    }
}

/// Whether an atom's switching function has a derivative that counts.
pub open spec fn slope_counts(reduced: Real, value: Real, r: Real) -> bool {
    &&& !reduced.below(Real { bits: TOUCHING })
    &&& !(Real { bits: value.magnitude() as u64 }).at_most(Real { bits: NEGLIGIBLE })
    &&& !r.at_most(Real { bits: NEGLIGIBLE })
}

/// Whether a charge or a density is too small to contribute.
pub open spec fn small(x: Real) -> bool {
    (Real { bits: x.magnitude() as u64 }).below(Real { bits: NEGLIGIBLE })
}

/// Decides how the distance `r` of a point of atom `owner` to atom `j` enters.
pub fn switch_distance(owner: usize, j: usize, r: Real) -> (d: SwitchDistance)
    ensures
        d == distance_of(owner as int, j as int, r),
{
    if j == owner {
        SwitchDistance::Own
    } else if r.lt(Real { bits: TOUCHING }) {
        SwitchDistance::Zero
    } else {
        SwitchDistance::Reduced
    }
}

/// Whether an atom's switching function has a derivative that counts: the reduced distance
/// is not zero, and neither the function nor the distance is negligible.
pub fn switch_derivative_counts(reduced: Real, value: Real, r: Real) -> (b: bool)
    ensures
        b == slope_counts(reduced, value, r),
{
    if reduced.lt(Real { bits: TOUCHING }) {
        return false;
    }
    !value.abs().le(Real { bits: NEGLIGIBLE }) && !r.le(Real { bits: NEGLIGIBLE })
}

/// Whether a charge or a density is too small to contribute.
pub fn is_small(x: Real) -> (b: bool)
    ensures
        b == small(x),
{
    x.abs().lt(Real { bits: NEGLIGIBLE })
}

/// A piece of the derivative of a surface point's switching function: the weight of atom
/// `source` goes to the coordinates of atom `target`.
#[derive(Clone, Copy, Debug, PartialEq, Eq, Structural)]
pub struct SwitchResponse {
    pub target: usize,
    pub source: usize,
    pub positive: bool,
}

/// The first `n` pieces by which the point moves with its own atom.
pub open spec fn grid_response(owner: int, n: int) -> Seq<SwitchResponse> {
    Seq::new(
        n as nat,
        |j: int|
            SwitchResponse { target: owner as usize, source: j as usize, positive: true },
    )
}

/// The first `n` pieces by which the atoms move away from the point.
pub open spec fn atom_response(n: int) -> Seq<SwitchResponse> {
    Seq::new(
        n as nat,
        |j: int| SwitchResponse { target: j as usize, source: j as usize, positive: false },
    )
}

/// The derivative of the switching function of a point of atom `owner`: it moves with its
/// own atom past all atoms, and every atom moves past it.
#[allow(non_snake_case)]
pub fn get_dF_dA(owner: usize, natm: usize) -> (r: Vec<SwitchResponse>)
    ensures
        r@ == grid_response(owner as int, natm as int) + atom_response(natm as int),
{
    let mut r: Vec<SwitchResponse> = Vec::new();
    let mut j: usize = 0;
    while j < natm
        invariant
            j <= natm,
            r@ =~= grid_response(owner as int, j as int),
        decreases natm - j,
    {
        r.push(SwitchResponse { target: owner, source: j, positive: true });
        j += 1;
    }
    let ghost first = r@;
    j = 0;
    while j < natm
        invariant
            j <= natm,
            r@ =~= first + atom_response(j as int),
        decreases natm - j,
    {
        r.push(SwitchResponse { target: j, source: j, positive: false });
        j += 1;
    }
    r
}

/// The sum of the signs with which an atom's weight enters.
pub open spec fn net_weight(r: Seq<SwitchResponse>, source: int) -> int
    decreases r.len(),
{
    if r.len() == 0 {
        0
    } else {
        net_weight(r.drop_last(), source) + (if r.last().source != source {
            0int
        } else if r.last().positive {
            1
        } else {
            -1
        })
    }
}

proof fn lemma_net_weight_concat(a: Seq<SwitchResponse>, b: Seq<SwitchResponse>, source: int)
    ensures
        net_weight(a + b, source) == net_weight(a, source) + net_weight(b, source),
    decreases b.len(),
{
    if b.len() == 0 {
        assert(a + b =~= a);
    } else {
        assert((a + b).drop_last() =~= a + b.drop_last());
        lemma_net_weight_concat(a, b.drop_last(), source);
    }
}

proof fn lemma_net_weights(owner: int, n: int, source: int)
    requires
        0 <= n <= usize::MAX,
        0 <= source,
    ensures
        net_weight(grid_response(owner, n), source) == (if source < n { 1int } else { 0 }),
        net_weight(atom_response(n), source) == (if source < n { -1int } else { 0 }),
    decreases n,
{
    if n > 0 {
        lemma_net_weights(owner, n - 1, source);
        assert(grid_response(owner, n).drop_last() =~= grid_response(owner, n - 1));
        assert(atom_response(n).drop_last() =~= atom_response(n - 1));
    }
}

/// Moving all atoms together leaves the switching function unchanged: each weight enters as
/// often with one sign as with the other.
pub proof fn law_switch_translation(owner: int, natm: int, source: int)
    requires
        0 <= natm <= usize::MAX,
        0 <= source,
    ensures
        net_weight(grid_response(owner, natm) + atom_response(natm), source) == 0,
{
    lemma_net_weights(owner, natm, source);
    lemma_net_weight_concat(grid_response(owner, natm), atom_response(natm), source);
}

/// Every surface point belongs to exactly one atom.
pub proof fn law_one_atom_per_point(slices: Seq<(usize, usize)>, end: int, g: int)
    requires
        tiles(slices, end),
        0 <= g < end,
    ensures
        exists|a: int| 0 <= a < slices.len() && (#[trigger] slices[a]).0 <= g < slices[a].1,
        forall|a: int, b: int|
            0 <= a < slices.len() && 0 <= b < slices.len() && (#[trigger] slices[a]).0 <= g
                < slices[a].1 && (#[trigger] slices[b]).0 <= g < slices[b].1 ==> a == b,
{
    lemma_point_found(slices, end, g, slices.len() as int);
    assert forall|a: int, b: int|
        0 <= a < slices.len() && 0 <= b < slices.len() && (#[trigger] slices[a]).0 <= g
            < slices[a].1 && (#[trigger] slices[b]).0 <= g < slices[b].1 implies a == b by {
        if a < b {
            lemma_slices_ordered(slices, end, a, b);
        }
        if b < a {
            lemma_slices_ordered(slices, end, b, a);
        }
    }
}

proof fn lemma_slices_ordered(slices: Seq<(usize, usize)>, end: int, a: int, b: int)
    requires
        tiles(slices, end),
        0 <= a < b < slices.len(),
    ensures
        slices[a].1 <= slices[b].0,
    decreases b - a,
{
    assert(slices[b].0 == slices[b - 1].1);
    if a < b - 1 {
        lemma_slices_ordered(slices, end, a, b - 1);
        assert(slices[b - 1].0 <= slices[b - 1].1);
    }
}

proof fn lemma_point_found(slices: Seq<(usize, usize)>, end: int, g: int, n: int)
    requires
        tiles(slices, end),
        0 <= n <= slices.len(),
        0 <= g,
        n > 0 ==> g < slices[n - 1].1,
        n == 0 ==> g < 0,
    ensures
        exists|a: int| 0 <= a < slices.len() && (#[trigger] slices[a]).0 <= g < slices[a].1,
    decreases n,
{
    if n > 0 {
        if slices[n - 1].0 <= g {
            assert(slices[n - 1].0 <= g < slices[n - 1].1);
        } else {
            if n > 1 {
                assert(slices[n - 1].0 == slices[n - 2].1);
            }
            lemma_point_found(slices, end, g, n - 1);
        }
    }
}

/// The number of surface points handled at once for derivative integrals over `nao` basis
/// functions: as many as fill half a gigabyte, at least sixteen, at most all.
pub open spec fn derivative_chunk(nao: int, ngrids: int) -> int {
    let wanted = if nao == 0 {
        ngrids
    } else if 500_000_000int / (24 * (nao * nao)) >= 16 {
        500_000_000int / (24 * (nao * nao))
    } else {
        16
    };
    if wanted <= ngrids {
        wanted
    } else {
        ngrids
    }
}

/// Decides how many surface points are handled at once for derivative integrals.
pub fn grad_solvent_qv(nao: usize, ngrids: usize) -> (n: usize)
    ensures
        n == derivative_chunk(nao as int, ngrids as int),
        ngrids > 0 ==> n > 0,
{
    if nao == 0 {
        return ngrids;
    }
    let wanted: usize = if nao > 5000 {
        proof {
            assert(nao * nao >= 25_000_000) by (nonlinear_arith)
                requires
                    nao >= 5000,
            ;
            let d = 24 * (nao * nao);
            assert(500_000_000int / d < 16) by (nonlinear_arith)
                requires
                    d >= 600_000_000,
            ;
        }
        16
    } else {
        assert(1 <= nao * nao <= 25_000_000) by (nonlinear_arith)
            requires
                1 <= nao <= 5000,
        ;
        let fill: usize = 500_000_000 / (24 * (nao * nao));
        if fill >= 16 {
            fill
        } else {
            16
        }
    };
    if wanted <= ngrids {
        wanted
    } else {
        ngrids
    }
}

/// Position of element `(i, j, k)` of a three-index array with extents `n1`, `n2` stored
/// first index fastest.
pub open spec fn position3(i: int, n1: int, j: int, n2: int, k: int) -> int {
    i + n1 * (j + n2 * k)
}

/// Position of an element of a three-index array stored first index fastest.
pub fn element3(i: usize, n1: usize, j: usize, n2: usize, k: usize, n3: usize) -> (p: usize)
    requires
        i < n1,
        j < n2,
        k < n3,
        n1 * (n2 * n3) <= usize::MAX,
    ensures
        p == position3(i as int, n1 as int, j as int, n2 as int, k as int),
        p < n1 * (n2 * n3),
{
    proof {
        let (a, b, c) = (n1 as int, n2 as int, n3 as int);
        let (x, y, z) = (i as int, j as int, k as int);
        let inner = y + b * z;
        assert(0 <= b * z && inner < b * c) by (nonlinear_arith)
            requires
                inner == y + b * z,
                0 <= y < b,
                0 <= z < c,
        ;
        assert(0 <= a * inner && x + a * inner < a * (b * c)) by (nonlinear_arith)
            requires
                0 <= x < a,
                0 <= inner < b * c,
        ;
        assert(inner <= a * inner) by (nonlinear_arith)
            requires
                a >= 1,
                inner >= 0,
        ;
    }
    i + n1 * (j + n2 * k)
}

/// Different elements have different positions.
pub proof fn law_position3(
    n1: int,
    n2: int,
    i: int,
    j: int,
    k: int,
    i2: int,
    j2: int,
    k2: int,
)
    requires
        0 <= i < n1,
        0 <= i2 < n1,
        0 <= j < n2,
        0 <= j2 < n2,
        0 <= k,
        0 <= k2,
        position3(i, n1, j, n2, k) == position3(i2, n1, j2, n2, k2),
    ensures
        i == i2 && j == j2 && k == k2,
{
    let a = j + n2 * k;
    let b = j2 + n2 * k2;
    lemma_digits(n1, i, a, i2, b);
    lemma_digits(n2, j, k, j2, k2);
}

proof fn lemma_digits(n: int, x: int, a: int, y: int, b: int)
    requires
        0 <= x < n,
        0 <= y < n,
        x + n * a == y + n * b,
    ensures
        x == y && a == b,
{
    if a < b {
        assert(n * a + n <= n * b) by (nonlinear_arith)
            requires
                a + 1 <= b,
                n >= 0,
        ;
    }
    if b < a {
        assert(n * b + n <= n * a) by (nonlinear_arith)
            requires
                b + 1 <= a,
                n >= 0,
        ;
    }
}

/// The smallest of the first `n` values, a later one winning only if it is smaller.
pub open spec fn least_value(v: Seq<Real>, n: int) -> Real
    decreases n,
{
    if n <= 1 {
        v[0]
    } else if v[n - 1].below(least_value(v, n - 1)) {
        v[n - 1]
    } else {
        least_value(v, n - 1)
    }
}

/// The largest of the first `n` values, a later one winning only if it is larger.
pub open spec fn greatest_value(v: Seq<Real>, n: int) -> Real
    decreases n,
{
    if n <= 1 {
        v[0]
    } else if greatest_value(v, n - 1).below(v[n - 1]) {
        v[n - 1]
    } else {
        greatest_value(v, n - 1)
    }
}

/// The smallest and the largest component of a gradient; zeros if there is none.
pub fn grad_stats(v: &Vec<Real>) -> (r: (Real, Real))
    ensures
        v@.len() == 0 ==> r == (Real { bits: 0 }, Real { bits: 0 }),
        v@.len() > 0 ==> r == (
            least_value(v@, v@.len() as int),
            greatest_value(v@, v@.len() as int),
        ),
{
    if v.len() == 0 {
        return (Real { bits: 0 }, Real { bits: 0 });
    }
    let mut lo: Real = v[0];
    let mut hi: Real = v[0];
    let mut i: usize = 1;
    while i < v.len()
        invariant
            1 <= i <= v@.len(),
            lo == least_value(v@, i as int),
            hi == greatest_value(v@, i as int),
        decreases v@.len() - i,
    {
        if v[i].lt(lo) {
            lo = v[i];
        }
        if v[i].gt(hi) {
            hi = v[i];
        }
        i += 1;
    }
    (lo, hi)
}

/// Among numbers, the extremes bound every value and occur.
pub proof fn law_extremes(v: Seq<Real>, n: int, i: int)
    requires
        0 <= i < n <= v.len(),
        forall|k: int| 0 <= k < n ==> !(#[trigger] v[k]).nan(),
    ensures
        !least_value(v, n).nan() && !greatest_value(v, n).nan(),
        least_value(v, n).at_most(v[i]),
        v[i].at_most(greatest_value(v, n)),
        exists|k: int| 0 <= k < n && #[trigger] v[k] == least_value(v, n),
        exists|k: int| 0 <= k < n && #[trigger] v[k] == greatest_value(v, n),
    decreases n,
{
    assert(!v[n - 1].nan());
    if n == 1 {
        assert(v[0] == least_value(v, 1) && v[0] == greatest_value(v, 1));
    } else {
        law_extremes(v, n - 1, if i < n - 1 { i } else { 0 });
        let a = choose|k: int| 0 <= k < n - 1 && #[trigger] v[k] == least_value(v, n - 1);
        let b = choose|k: int| 0 <= k < n - 1 && #[trigger] v[k] == greatest_value(v, n - 1);
        if v[n - 1].below(least_value(v, n - 1)) {
            assert(v[n - 1] == least_value(v, n));
        } else {
            assert(v[a] == least_value(v, n));
        }
        if greatest_value(v, n - 1).below(v[n - 1]) {
            assert(v[n - 1] == greatest_value(v, n));
        } else {
            assert(v[b] == greatest_value(v, n));
        }
    }
}

/// The largest of the first `n` values, a later one winning unless it is smaller.
pub open spec fn last_greatest(v: Seq<Real>, n: int) -> Real
    decreases n,
{
    if n <= 0 {
        v[0]
    } else if v[n - 1].below(last_greatest(v, n - 1)) {
        last_greatest(v, n - 1)
    } else {
        v[n - 1]
    }
}

/// The smallest of the first `n` values, a later one winning unless it is larger.
pub open spec fn last_least(v: Seq<Real>, n: int) -> Real
    decreases n,
{
    if n <= 0 {
        v[0]
    } else if last_least(v, n - 1).below(v[n - 1]) {
        last_least(v, n - 1)
    } else {
        v[n - 1]
    }
}

/// The largest and the smallest value of a list for a report; `None` if it is empty.
pub fn vec_stats(v: &Vec<Real>) -> (r: Option<(Real, Real)>)
    ensures
        r == (if v@.len() == 0 {
            None
        } else {
            Some((last_greatest(v@, v@.len() as int), last_least(v@, v@.len() as int)))
        }),
{
    if v.len() == 0 {
        return None;
    }
    let mut hi: Real = v[0];
    let mut lo: Real = v[0];
    let mut i: usize = 0;
    while i < v.len()
        invariant
            i <= v@.len(),
            v@.len() > 0,
            hi == last_greatest(v@, i as int),
            lo == last_least(v@, i as int),
        decreases v@.len() - i,
    {
        if !hi.gt(v[i]) {
            hi = v[i];
        }
        if !lo.lt(v[i]) {
            lo = v[i];
        }
        i += 1;
    }
    Some((hi, lo))
}

/// The equation of a model holds the double layer exactly when the model uses it: neither
/// conductor-like model does, the integral-equation models and the surface-and-volume model
/// do. Only the surface-and-volume model symmetrizes it.
pub proof fn law_equation_layers(m: PcmMethod)
    ensures
        charge_equation(m).double_layer == crate::solvent::method::uses_double_layer(m),
        !charge_equation(m).double_layer <==> m == PcmMethod::CPCM || m == PcmMethod::COSMO,
        charge_equation(m).double_layer <==> m == PcmMethod::IEFPCM || m == PcmMethod::SMD || m
            == PcmMethod::SSVPE,
        charge_equation(m).symmetrized <==> m == PcmMethod::SSVPE,
        charge_equation(m).symmetrized ==> charge_equation(m).double_layer,
{
}

/// The dielectric factor is `(e - 1) / e` for CPCM, `(e - 1) / (e + 1/2)` for COSMO, and
/// `(e - 1) / (e + 1)` exactly for the models with the double layer.
pub proof fn law_dielectric_factor(m: PcmMethod)
    ensures
        charge_equation(m).halves == 0 <==> m == PcmMethod::CPCM,
        charge_equation(m).halves == 1 <==> m == PcmMethod::COSMO,
        charge_equation(m).halves == 2 <==> charge_equation(m).double_layer,
{
}

/// A link of a product that takes the solution of the transposed equation to the charges or to
/// the potential.
#[derive(Clone, Copy, Debug, PartialEq, Eq, Structural)]
pub enum Link {
    Solution,
    Single,
    Double,
    DoubleTransposed,
    Areas,
    Charges,
    Potential,
}

/// The matrix products that the equation of the charges is made from, between the solution of
/// the transposed equation and the charges, or the potential for the right-hand side. The
/// energy follows the right-hand side and minus the matrix, so the single layer counts minus
/// once. `D A S` counts with the dielectric factor over two pi, or with half of that where its
/// transpose shares it; `D A` of the right-hand side is not shared.
pub open spec fn equation_products(e: ChargeEquation) -> Seq<(Seq<Link>, SolverFactor)> {
    let single = seq![
        (seq![Link::Solution, Link::Single, Link::Charges], SolverFactor::MinusOne),
    ];
    let layered = seq![
        (
            seq![Link::Solution, Link::Double, Link::Areas, Link::Potential],
            SolverFactor::OverTwoPi,
        ),
        (
            seq![Link::Solution, Link::Double, Link::Areas, Link::Single, Link::Charges],
            if e.symmetrized {
                SolverFactor::OverFourPi
            } else {
                SolverFactor::OverTwoPi
            },
        ),
    ];
    let transposed = seq![
        (
            seq![Link::Solution, Link::Single, Link::Areas, Link::DoubleTransposed, Link::Charges],
            SolverFactor::OverFourPi,
        ),
    ];
    single + (if e.double_layer {
        layered
    } else {
        seq![]
    }) + (if e.symmetrized {
        transposed
    } else {
        seq![]
    })
}

/// The product that an operand stands for.
pub open spec fn links_of(o: Operand) -> Seq<Link> {
    match o {
        Operand::Aux(AuxVector::Vk1) => seq![Link::Solution],
        Operand::Aux(AuxVector::Sq) => seq![Link::Single, Link::Charges],
        Operand::Aux(AuxVector::Vk1D) => seq![Link::Solution, Link::Double],
        Operand::Aux(AuxVector::Vk1DA) => seq![Link::Solution, Link::Double, Link::Areas],
        Operand::Aux(AuxVector::Vk1S) => seq![Link::Solution, Link::Single],
        Operand::Aux(AuxVector::DtQ) => seq![Link::DoubleTransposed, Link::Charges],
        Operand::Potential => seq![Link::Potential],
        Operand::Charges => seq![Link::Charges],
        Operand::Areas => seq![Link::Areas],
    }
}

/// The product that a list of operands stands for.
pub open spec fn chain(operands: Seq<Operand>) -> Seq<Link>
    decreases operands.len(),
{
    if operands.len() == 0 {
        seq![]
    } else {
        chain(operands.drop_last()) + links_of(operands.last())
    }
}

/// What stands before the differentiated matrix of a contribution, that matrix, and what stands
/// behind it. Areas weigh their derivative by the first operand before and the second behind; a
/// double layer that begins with the charges is read backwards, as its transpose.
pub open spec fn around_derivative(part: SolverPart) -> (Seq<Link>, Link, Seq<Link>) {
    let (d, left, right) = operands_of(part);
    match d {
        Derivative::Areas => (links_of(left[0]), Link::Areas, links_of(left[1])),
        Derivative::SingleLayer => (chain(left), Link::Single, chain(right)),
        Derivative::DoubleLayer => if left[0] == Operand::Charges {
            (chain(right), Link::DoubleTransposed, chain(left))
        } else {
            (chain(left), Link::Double, chain(right))
        },
    }
}

/// The whole product that a contribution differentiates in one place.
pub open spec fn spelled(part: SolverPart) -> Seq<Link> {
    let (before, own, behind) = around_derivative(part);
    before.push(own) + behind
}

proof fn lemma_chains(a: Operand, b: Operand)
    ensures
        chain(seq![a]) =~= links_of(a),
        chain(seq![a, b]) =~= links_of(a) + links_of(b),
{
    reveal_with_fuel(chain, 3);
    assert(seq![a].drop_last() =~= seq![]);
    assert(seq![a, b].drop_last() =~= seq![a]);
}

#[verifier::rlimit(50)]
proof fn lemma_spelled(part: SolverPart)
    ensures
        spelled(part) == (match part {
            SolverPart::S0 => seq![Link::Solution, Link::Single, Link::Charges],
            SolverPart::SourceD | SolverPart::SourceA => seq![
                Link::Solution,
                Link::Double,
                Link::Areas,
                Link::Potential,
            ],
            SolverPart::D | SolverPart::A | SolverPart::S1 => seq![
                Link::Solution,
                Link::Double,
                Link::Areas,
                Link::Single,
                Link::Charges,
            ],
            _ => seq![
                Link::Solution,
                Link::Single,
                Link::Areas,
                Link::DoubleTransposed,
                Link::Charges,
            ],
        }),
        around_derivative(part).0.len() == (match part {
            SolverPart::SourceD | SolverPart::S0 | SolverPart::D | SolverPart::S1Transposed => 1nat,
            SolverPart::SourceA | SolverPart::A | SolverPart::ATransposed => 2,
            SolverPart::S1 | SolverPart::DTransposed => 3,
        }),
{
    let (d, left, right) = operands_of(part);
    lemma_chains(Operand::Charges, Operand::Charges);
    lemma_chains(Operand::Aux(AuxVector::Vk1), Operand::Charges);
    lemma_chains(Operand::Aux(AuxVector::Vk1DA), Operand::Charges);
    lemma_chains(Operand::Areas, Operand::Potential);
    lemma_chains(Operand::Areas, Operand::Aux(AuxVector::Sq));
    lemma_chains(Operand::Areas, Operand::Aux(AuxVector::DtQ));
    lemma_chains(Operand::Aux(AuxVector::Vk1S), Operand::Areas);
    assert(spelled(part) =~= (match part {
        SolverPart::S0 => seq![Link::Solution, Link::Single, Link::Charges],
        SolverPart::SourceD | SolverPart::SourceA => seq![
            Link::Solution,
            Link::Double,
            Link::Areas,
            Link::Potential,
        ],
        SolverPart::D | SolverPart::A | SolverPart::S1 => seq![
            Link::Solution,
            Link::Double,
            Link::Areas,
            Link::Single,
            Link::Charges,
        ],
        _ => seq![
            Link::Solution,
            Link::Single,
            Link::Areas,
            Link::DoubleTransposed,
            Link::Charges,
        ],
    }));
}

/// The contributions of a model are the derivative of its equation: a contribution is listed,
/// with its factor, exactly when the operands around its differentiated matrix spell a product
/// of the equation with that factor. So each derivative of `D A S` counts with the dielectric
/// factor over two pi where the equation is not symmetrized and over four pi where it is.
#[verifier::rlimit(50)]
pub proof fn law_terms_differentiate_equation(m: PcmMethod, t: SolverTerm)
    ensures
        solver_terms(m).contains(t) <==> equation_products(charge_equation(m)).contains(
            (spelled(t.part), t.factor),
        ),
{
    let terms = solver_terms(m);
    let products = equation_products(charge_equation(m));
    lemma_spelled(t.part);
    let e = charge_equation(m);
    assert(products[0].0.len() == 3);
    if e.double_layer {
        assert(products[1].0.len() == 4 && products[2].0.len() == 5);
        assert(products[2].0[1] == Link::Double);
        if e.symmetrized {
            assert(products[3].0.len() == 5 && products[3].0[1] == Link::Single);
        }
    }
    assert(terms.len() == (if !e.double_layer {
        1nat
    } else if e.symmetrized {
        9
    } else {
        6
    }));
    if products.contains((spelled(t.part), t.factor)) {
        let x = choose|x: int|
            0 <= x < products.len() && products[x] == (spelled(t.part), t.factor);
        assert(products[x].0.len() == spelled(t.part).len());
        assert(products[x].0[1] == spelled(t.part)[1]);
        let k: int = match t.part {
            SolverPart::S0 => if e.double_layer { 2 } else { 0 },
            SolverPart::SourceD => 0,
            SolverPart::SourceA => 1,
            SolverPart::D => 3,
            SolverPart::A => 4,
            SolverPart::S1 => 5,
            SolverPart::DTransposed => 6,
            SolverPart::ATransposed => 7,
            SolverPart::S1Transposed => 8,
        };
        assert(terms[k] == t);
    }
    if terms.contains(t) {
        let k = choose|k: int| 0 <= k < terms.len() && terms[k] == t;
        let x: int = match t.part {
            SolverPart::S0 => 0,
            SolverPart::SourceD | SolverPart::SourceA => 1,
            SolverPart::D | SolverPart::A | SolverPart::S1 => 2,
            _ => 3,
        };
        if e.double_layer && !e.symmetrized {
            assert(k < 6);
        }
        assert(products[x] == (spelled(t.part), t.factor));
    }
}

/// The derivative of a product is taken in each of its matrices: every matrix of every product
/// of the equation is differentiated by a contribution of the model.
#[verifier::rlimit(50)]
pub proof fn law_each_matrix_differentiated(m: PcmMethod, i: int, x: int)
    requires
        0 <= i < equation_products(charge_equation(m)).len(),
        1 <= x < equation_products(charge_equation(m))[i].0.len() - 1,
    ensures
        exists|k: int|
            {
                &&& 0 <= k < solver_terms(m).len()
                &&& spelled((#[trigger] solver_terms(m)[k]).part) == equation_products(
                    charge_equation(m),
                )[i].0
                &&& around_derivative(solver_terms(m)[k].part).0.len() == x
            },
{
    let terms = solver_terms(m);
    let products = equation_products(charge_equation(m));
    let e = charge_equation(m);
    let part: SolverPart = if i == 0 {
        SolverPart::S0
    } else if i == 1 {
        if x == 1 { SolverPart::SourceD } else { SolverPart::SourceA }
    } else if i == 2 {
        if x == 1 {
            SolverPart::D
        } else if x == 2 {
            SolverPart::A
        } else {
            SolverPart::S1
        }
    } else {
        if x == 1 {
            SolverPart::S1Transposed
        } else if x == 2 {
            SolverPart::ATransposed
        } else {
            SolverPart::DTransposed
        }
    };
    let k: int = if i == 0 {
        if e.double_layer { 2 } else { 0 }
    } else if i == 1 {
        x - 1
    } else if i == 2 {
        x + 2
    } else {
        9 - x
    };
    assert(0 <= k < terms.len() && terms[k].part == part);
    lemma_spelled(part);
    assert(spelled(part) =~= products[i].0);
    assert(spelled(terms[k].part) == products[i].0);
}

/// No matrix is differentiated twice: contributions that spell the same product differentiate
/// it in different places, and none is listed twice.
#[verifier::rlimit(50)]
pub proof fn law_matrices_differentiated_once(m: PcmMethod, a: SolverPart, b: SolverPart)
    ensures
        spelled(a) == spelled(b) && around_derivative(a).0.len() == around_derivative(b).0.len()
            ==> a == b,
        solver_terms(m).no_duplicates(),
{
    lemma_spelled(a);
    lemma_spelled(b);
    if spelled(a) == spelled(b) {
        assert(spelled(a).len() == spelled(b).len());
        assert(spelled(a)[1] == spelled(b)[1]);
    }
    let terms = solver_terms(m);
    assert forall|x: int, y: int| 0 <= x < y < terms.len() implies terms[x] != terms[y] by {
        assert(terms[x].part != terms[y].part);
    }
}

/// Each derivative of `D A S` or of its transpose counts with the dielectric factor over four
/// pi exactly where the equation is symmetrized, and the transpose occurs nowhere else; each
/// derivative of the right-hand side counts with the factor over two pi wherever the equation
/// holds the double layer; the single layer counts minus once for every model.
#[verifier::rlimit(50)]
pub proof fn law_factors_follow_equation(m: PcmMethod, t: SolverTerm)
    ensures
        ({
            let e = charge_equation(m);
            solver_terms(m).contains(t) <==> match t.part {
                SolverPart::S0 => t.factor == SolverFactor::MinusOne,
                SolverPart::SourceD | SolverPart::SourceA => e.double_layer && t.factor
                    == SolverFactor::OverTwoPi,
                SolverPart::D | SolverPart::A | SolverPart::S1 => e.double_layer && t.factor == (
                if e.symmetrized {
                    SolverFactor::OverFourPi
                } else {
                    SolverFactor::OverTwoPi
                }),
                SolverPart::DTransposed | SolverPart::ATransposed | SolverPart::S1Transposed => {
                    e.symmetrized && t.factor == SolverFactor::OverFourPi
                },
            }
        }),
{
    let terms = solver_terms(m);
    let e = charge_equation(m);
    let k: int = match t.part {
        SolverPart::S0 => if e.double_layer { 2 } else { 0 },
        SolverPart::SourceD => 0,
        SolverPart::SourceA => 1,
        SolverPart::D => 3,
        SolverPart::A => 4,
        SolverPart::S1 => 5,
        SolverPart::DTransposed => 6,
        SolverPart::ATransposed => 7,
        SolverPart::S1Transposed => 8,
    };
    if 0 <= k < terms.len() {
        assert(terms[k].part == t.part || t.part == SolverPart::SourceD || t.part
            == SolverPart::SourceA);
        assert(terms.contains(terms[k]));
    }
    if terms.contains(t) {
        let j = choose|j: int| 0 <= j < terms.len() && terms[j] == t;
        if e.double_layer && !e.symmetrized {
            assert(terms.len() == 6);
        }
    }
}

/// The products of the transposed layers are computed exactly where the equation is
/// symmetrized, the others for every model, and none twice.
pub proof fn law_aux_vectors(m: PcmMethod, v: AuxVector)
    ensures
        aux_vectors(m).contains(v) <==> charge_equation(m).symmetrized || (v != AuxVector::Vk1S && v
            != AuxVector::DtQ),
        aux_vectors(m).no_duplicates(),
{
    let a = aux_vectors(m);
    assert(a.contains(a[0]) && a.contains(a[1]) && a.contains(a[2]) && a.contains(a[3]));
    if m == PcmMethod::SSVPE {
        assert(a.contains(a[4]) && a.contains(a[5]));
    }
}

/// The gradient always holds nuclei, electrons and the response of the charges, once each, and
/// a surface tension exactly where there is one. Contributions are printed from level 2 on.
pub proof fn law_gradient_parts(tension: bool, print_level: usize, p: GradientPart)
    ensures
        gradient_parts(tension).contains(p) <==> p != GradientPart::Tension || tension,
        gradient_parts(tension).no_duplicates(),
        !prints_parts(0) && !prints_parts(1),
        print_level >= 2 ==> prints_parts(print_level),
{
    let g = gradient_parts(tension);
    assert(g.contains(g[0]) && g.contains(g[1]) && g.contains(g[2]));
    if tension {
        assert(g.contains(g[3]));
    }
}

/// The own atom never switches a point off, at any distance. Another atom counts as touching
/// exactly below 1e-8.
pub proof fn law_switch_distance(owner: int, j: int, r: Real, nearer: Real)
    ensures
        distance_of(owner, j, r) == SwitchDistance::Own <==> j == owner,
        distance_of(owner, j, r) == SwitchDistance::Zero && nearer.at_most(r) ==> distance_of(
            owner,
            j,
            nearer,
        ) == SwitchDistance::Zero,
        r.nan() ==> distance_of(owner, j, r) != SwitchDistance::Zero,
        j != owner ==> distance_of(owner, j, Real { bits: 0x3e45_798e_e230_8c39 })
            == SwitchDistance::Zero,
        j != owner ==> distance_of(owner, j, Real { bits: 0x3e45_798e_e230_8c3a })
            == SwitchDistance::Reduced,
{
}

/// A derivative counts only where all three conditions hold: the reduced distance is not below
/// 1e-8, and the size of the function and the distance are not at most 1e-15. Each can be the
/// only reason that it does not.
pub proof fn law_slope_counts(reduced: Real, value: Real, r: Real)
    ensures
        ({
            let one = Real { bits: 0x3ff0_0000_0000_0000 };
            &&& slope_counts(one, one, one)
            &&& slope_counts(reduced, value, r) <==> slope_counts(reduced, one, one)
                && slope_counts(one, value, one) && slope_counts(one, one, r)
            &&& slope_counts(reduced, one, one) <==> !reduced.below(
                Real { bits: 0x3e45_798e_e230_8c3a },
            )
            &&& slope_counts(one, value, one) <==> value.magnitude() > 0x3cd2_03af_9ee7_5616
            &&& slope_counts(one, one, r) <==> !r.at_most(Real { bits: 0x3cd2_03af_9ee7_5616 })
        }),
{
}

/// What is too small to contribute has a size below 1e-15, of either sign.
pub proof fn law_small(x: Real, smaller: Real)
    ensures
        small(x) && smaller.magnitude() <= x.magnitude() ==> small(smaller),
        small(Real { bits: 0x3cd2_03af_9ee7_5615 }),
        small(Real { bits: 0xbcd2_03af_9ee7_5615 }),
        !small(Real { bits: 0x3cd2_03af_9ee7_5616 }),
        !small(Real { bits: 0xbcd2_03af_9ee7_5616 }),
        x.nan() ==> !small(x),
{
}

/// A point moves with its own atom and against every atom that it is near to: the weight of
/// each atom's switching function goes to the owner, positive, and to that atom, negative.
pub proof fn law_responses(owner: usize, natm: int, r: SwitchResponse)
    requires
        0 <= natm <= usize::MAX,
    ensures
        (grid_response(owner as int, natm) + atom_response(natm)).contains(r) <==> {
            &&& r.source < natm
            &&& r.target == (if r.positive { owner } else { r.source })
        },
{
    let g = grid_response(owner as int, natm);
    let a = atom_response(natm);
    let all = g + a;
    if r.source < natm {
        assert(all[r.source as int] == g[r.source as int]);
        assert(all[natm + r.source] == a[r.source as int]);
    }
    if all.contains(r) {
        let k = choose|k: int| 0 <= k < all.len() && all[k] == r;
        if k < natm {
            assert(all[k] == g[k]);
        } else {
            assert(all[k] == a[k - natm]);
        }
    }
}

/// Derivative integrals are computed for all surface points at once where that stays within
/// 500 MB; otherwise for as many as stay within it, but for no fewer than sixteen.
pub proof fn law_derivative_chunk(nao: int, ngrids: int)
    requires
        0 < nao,
        0 <= ngrids,
    ensures
        ({
            let n = derivative_chunk(nao, ngrids);
            let bytes = 24 * (nao * nao);
            &&& 0 <= n <= ngrids
            &&& n > 16 ==> n * bytes <= 500_000_000
            &&& n < ngrids ==> n >= 16 && (n + 1) * bytes > 500_000_000
        }),
        derivative_chunk(0, ngrids) == ngrids,
{
    let bytes = 24 * (nao * nao);
    assert(nao * nao > 0) by (nonlinear_arith)
        requires
            0 < nao,
    ;
    let q = 500_000_000int / bytes;
    let rest = 500_000_000int % bytes;
    assert(500_000_000 == q * bytes + rest && 0 <= rest < bytes) by (nonlinear_arith)
        requires
            q == 500_000_000int / bytes,
            rest == 500_000_000int % bytes,
            bytes > 0,
    ;
    let n = derivative_chunk(nao, ngrids);
    assert(n > 16 ==> n * bytes <= q * bytes) by (nonlinear_arith)
        requires
            n > 16 ==> n <= q,
            bytes > 0,
    ;
    assert(n < ngrids ==> (n + 1) * bytes >= (q + 1) * bytes) by (nonlinear_arith)
        requires
            n < ngrids ==> n >= q,
            bytes > 0,
    ;
    assert((q + 1) * bytes == q * bytes + bytes) by (nonlinear_arith);
}

/// Of numbers, the greatest and the least are found wherever they stand, and of equal ones the
/// last.
pub proof fn law_last_extremes(v: Seq<Real>, n: int)
    requires
        0 < n <= v.len(),
        forall|k: int| 0 <= k < n ==> !(#[trigger] v[k]).nan(),
    ensures
        ({
            let (g, l) = (last_greatest(v, n), last_least(v, n));
            &&& forall|i: int| 0 <= i < n ==> (#[trigger] v[i]).at_most(g) && l.at_most(v[i])
            &&& exists|k: int|
                0 <= k < n && #[trigger] v[k] == g && forall|i: int|
                    k < i < n ==> (#[trigger] v[i]).below(g)
            &&& exists|k: int|
                0 <= k < n && #[trigger] v[k] == l && forall|i: int|
                    k < i < n ==> l.below(#[trigger] v[i])
        }),
    decreases n,
{
    let (g, l) = (last_greatest(v, n), last_least(v, n));
    if n == 1 {
        assert(last_greatest(v, 0) == v[0] && last_least(v, 0) == v[0]);
        assert(v[0] == g && v[0] == l);
        assert(v[0].at_most(g) && l.at_most(v[0]));
    } else {
        law_last_extremes(v, n - 1);
        let (h, m) = (last_greatest(v, n - 1), last_least(v, n - 1));
        let a = choose|k: int|
            0 <= k < n - 1 && #[trigger] v[k] == h && forall|i: int|
                k < i < n - 1 ==> (#[trigger] v[i]).below(h);
        let b = choose|k: int|
            0 <= k < n - 1 && #[trigger] v[k] == m && forall|i: int|
                k < i < n - 1 ==> m.below(#[trigger] v[i]);
        assert(!v[n - 1].nan() && !v[a].nan() && !v[b].nan());
        if v[n - 1].below(h) {
            assert(v[a] == g);
        } else {
            assert(v[n - 1] == g);
        }
        if m.below(v[n - 1]) {
            assert(v[b] == l);
        } else {
            assert(v[n - 1] == l);
        }
    }
}

/// The first index runs fastest and the last slowest: stepping it skips one element, one column, or
/// one whole plane.
pub proof fn law_position3_steps(i: int, n1: int, j: int, n2: int, k: int)
    ensures
        position3(0, n1, 0, n2, 0) == 0,
        position3(i + 1, n1, j, n2, k) == position3(i, n1, j, n2, k) + 1,
        position3(i, n1, j + 1, n2, k) == position3(i, n1, j, n2, k) + n1,
        position3(i, n1, j, n2, k + 1) == position3(i, n1, j, n2, k) + n1 * n2,
{
    assert(n1 * (j + 1 + n2 * k) == n1 * (j + n2 * k) + n1) by (nonlinear_arith);
    assert(n1 * (j + n2 * (k + 1)) == n1 * (j + n2 * k) + n1 * n2) by (nonlinear_arith);
    assert(n1 * (0 + n2 * 0) == 0) by (nonlinear_arith);
}

} // verus!
