//! Which products of densities and operators make up the energies of a calculation, and
//! the effective Fock matrix of a restricted open shell.

use crate::packed::{ij0, lemma_triangle_step, pair_index, triangle};
use crate::scf_io::hamiltonian::{
    exchange_of, exchange_resolved, fock_route, isdf_exchange, ExchangeKernel, FockRoute,
};
use crate::scf_io::setup::{EriType, SCFType, SCF};
use vstd::prelude::*;

verus! {

/// A density in an energy term.
#[derive(Clone, Copy, Debug, PartialEq, Eq, Structural)]
pub enum EnergyDensity {
    /// The density of one channel.
    Channel(usize),
    /// The sum of both channels.
    Total,
}

/// An operator in an energy term.
#[derive(Clone, Copy, Debug, PartialEq, Eq, Structural)]
pub enum EnergyOperator {
    /// The core Hamiltonian.
    Core,
    /// The Fock matrix of one channel.
    Fock(usize),
    /// The sum of the core Hamiltonian and the first Fock matrix.
    CoreAndFock,
}

/// A contribution to the total energy.
#[derive(Clone, Copy, Debug, PartialEq, Eq, Structural)]
pub enum EnergyTerm {
    /// The repulsion of the nuclei.
    Nuclear,
    /// The energy of the exchange-correlation potential, which is subtracted.
    XcPotential,
    /// The exchange-correlation energy that replaces it.
    XcEnergy,
    /// The nuclei in the field of the solvent.
    SolventNuclear,
    /// The surface tension of the solvent.
    SurfaceTension,
    /// Half the product of a density with an operator.
    Contraction(EnergyDensity, EnergyOperator),
}

/// The products of densities and operators in the total energy. The density of a
/// restricted calculation holds both spins.
pub open spec fn contraction_terms(t: SCFType) -> Seq<EnergyTerm> {
    if t == SCFType::RHF {
        seq![EnergyTerm::Contraction(EnergyDensity::Channel(0), EnergyOperator::CoreAndFock)]
    } else {
        seq![
            EnergyTerm::Contraction(EnergyDensity::Total, EnergyOperator::Core),
            EnergyTerm::Contraction(EnergyDensity::Channel(0), EnergyOperator::Fock(0)),
            EnergyTerm::Contraction(EnergyDensity::Channel(1), EnergyOperator::Fock(1)),
        ]
    }
}

/// The contributions of the solvent to the total energy.
pub open spec fn solvent_terms(enabled: bool, charges: bool, tension: bool) -> Seq<EnergyTerm> {
    let first: Seq<EnergyTerm> = if enabled && charges {
        seq![EnergyTerm::SolventNuclear]
    } else {
        seq![]
    };
    let second: Seq<EnergyTerm> = if enabled && tension {
        seq![EnergyTerm::SurfaceTension]
    } else {
        seq![]
    };
    first + second
}

/// The contributions to the Hartree-Fock energy.
pub open spec fn hf_energy(t: SCFType) -> Seq<EnergyTerm> {
    seq![EnergyTerm::Nuclear] + contraction_terms(t)
}

/// The contributions to the total energy.
pub open spec fn total_energy(t: SCFType, enabled: bool, charges: bool, tension: bool) -> Seq<
    EnergyTerm,
> {
    seq![EnergyTerm::Nuclear, EnergyTerm::XcPotential, EnergyTerm::XcEnergy] + solvent_terms(
        enabled,
        charges,
        tension,
    ) + contraction_terms(t)
}

/// Adds the products of densities and operators to a list of contributions.
fn push_contractions(terms: &mut Vec<EnergyTerm>, t: SCFType)
    ensures
        final(terms)@ == old(terms)@ + contraction_terms(t),
{
    let ghost before = terms@;
    match t {
        SCFType::RHF => {
            terms.push(
                EnergyTerm::Contraction(EnergyDensity::Channel(0), EnergyOperator::CoreAndFock),
            );
        },
        _ => {
            terms.push(EnergyTerm::Contraction(EnergyDensity::Total, EnergyOperator::Core));
            terms.push(
                EnergyTerm::Contraction(EnergyDensity::Channel(0), EnergyOperator::Fock(0)),
            );
            terms.push(
                EnergyTerm::Contraction(EnergyDensity::Channel(1), EnergyOperator::Fock(1)),
            );
        },
    }
    assert(terms@ =~= before + contraction_terms(t));
}

/// How an iteration builds the Fock matrix, and what its total energy is made of.
pub struct HamiltonianPlan {
    pub route: FockRoute,
    pub energy: Vec<EnergyTerm>,
    /// The functional takes new parameters from the energy components.
    pub new_parameters: bool,
}

impl SCF {
    /// The contributions to the Hartree-Fock energy.
    pub fn evaluate_hf_total_energy(&self) -> (terms: Vec<EnergyTerm>)
        ensures
            terms@ == hf_energy(self.scftype),
    {
        let mut terms: Vec<EnergyTerm> = Vec::new();
        terms.push(EnergyTerm::Nuclear);
        push_contractions(&mut terms, self.scftype);
        assert(terms@ =~= hf_energy(self.scftype));
        terms
    }

    /// Decides how an iteration builds the Fock matrix and which contributions make up the
    /// total energy. `charges` and `tension` tell whether the solvent has surface charges
    /// and a surface tension by now.
    pub fn generate_hf_hamiltonian(&self, charges: bool, tension: bool) -> (p: HamiltonianPlan)
        requires
            self.ctrl.deep_learning ==> self.ctrl.eri_type == EriType::RiV,
        ensures
            p.route == fock_route(self.mol.components, self.ctrl.eri_type),
            p.energy@ == total_energy(
                self.scftype,
                self.ctrl.solvent_enabled,
                charges,
                tension,
            ),
            p.new_parameters == self.ctrl.deep_learning,
    {
        let route: FockRoute = if self.mol.components == 0 {
            match self.ctrl.eri_type {
                EriType::Analytic => FockRoute::HfAnalytic,
                EriType::RiV => FockRoute::HfRi,
                EriType::Other => FockRoute::Nothing,
            }
        } else {
            match self.ctrl.eri_type {
                EriType::Analytic => FockRoute::KsAnalytic,
                _ => FockRoute::KsRi,
            }
        };
        let mut energy: Vec<EnergyTerm> = Vec::new();
        energy.push(EnergyTerm::Nuclear);
        energy.push(EnergyTerm::XcPotential);
        energy.push(EnergyTerm::XcEnergy);
        if self.ctrl.solvent_enabled {
            if charges {
                energy.push(EnergyTerm::SolventNuclear);
            }
            if tension {
                energy.push(EnergyTerm::SurfaceTension);
            }
        }
        assert(energy@ =~= seq![
            EnergyTerm::Nuclear,
            EnergyTerm::XcPotential,
            EnergyTerm::XcEnergy,
        ] + solvent_terms(self.ctrl.solvent_enabled, charges, tension));
        push_contractions(&mut energy, self.scftype);
        HamiltonianPlan { route, energy, new_parameters: self.ctrl.deep_learning }
    }
}

/// How the exact exchange energy is evaluated: the products of the channels' densities
/// with their exchange matrices are added and the sign is changed.
#[derive(Clone, Copy, Debug, PartialEq, Eq, Structural)]
pub struct ExchangeEnergy {
    pub kernel: ExchangeKernel,
    pub channels: usize,
    /// The sum counts half, as the density holds both spins.
    pub half: bool,
}

/// How the exact exchange energy is evaluated.
pub open spec fn exchange_energy(scf: SCF) -> ExchangeEnergy {
    ExchangeEnergy {
        kernel: if scf.ctrl.use_isdf {
            isdf_exchange(scf.ctrl)
        } else {
            exchange_of(scf.ctrl, scf.algorithm_jk)
        },
        channels: scf.mol.spin_channel,
        half: scf.mol.spin_channel == 1,
    }
}

/// An entry of the list of energy components.
#[derive(Clone, Copy, Debug, PartialEq, Eq, Structural)]
pub enum EnergyComponent {
    /// The total energy without exchange and correlation.
    WithoutXc,
    ExactExchange,
    /// A component of the functional.
    Functional(usize),
}

/// Where the functional's components come from.
#[derive(Clone, Copy, Debug, PartialEq, Eq, Structural)]
pub enum FunctionalSource {
    /// From integration on the grid, both spins added.
    Grid,
    /// There is no grid: all are zero.
    Zero,
}

/// Where the functional's components come from.
pub open spec fn functional_source(grids: bool) -> FunctionalSource {
    if grids {
        FunctionalSource::Grid
    } else {
        FunctionalSource::Zero
    }
}

/// How the energy components are evaluated. What remains without exchange and correlation is
/// the total energy less the exact exchange times the hybrid fraction and less every
/// component of the functional times its parameter.
pub struct ComponentPlan {
    pub exchange: ExchangeEnergy,
    pub functional: FunctionalSource,
    pub order: Vec<EnergyComponent>,
}

/// The energy components of a functional with `n` components, in order.
pub open spec fn energy_components(n: nat) -> Seq<EnergyComponent> {
    seq![EnergyComponent::WithoutXc, EnergyComponent::ExactExchange] + Seq::new(
        n,
        |i: int| EnergyComponent::Functional(i as usize),
    )
}

impl SCF {
    /// Decides how the exact exchange energy is evaluated.
    pub fn evaluate_exact_exchange_ri_v(&self) -> (e: ExchangeEnergy)
        requires
            !self.ctrl.use_isdf ==> exchange_resolved(self.algorithm_jk),
        ensures
            e == exchange_energy(*self),
    {
        let kernel: ExchangeKernel = if self.ctrl.use_isdf {
            self.generate_vk_with_isdf()
        } else {
            self.exchange_kernel()
        };
        ExchangeEnergy {
            kernel,
            channels: self.mol.spin_channel,
            half: self.mol.spin_channel == 1,
        }
    }

    /// How the exact exchange is evaluated for the energy components, and their order:
    /// what remains without exchange and correlation, the exact exchange, and the
    /// functional's components. There are components with resolution of the identity only.
    /// `grids` tells whether there is an integration grid; without one the functional's
    /// components are zero.
    pub fn evaluate_energy_components(&self, grids: bool) -> (r: ComponentPlan)
        requires
            self.ctrl.eri_type == EriType::RiV,
            !self.ctrl.use_isdf ==> exchange_resolved(self.algorithm_jk),
        ensures
            r.exchange == exchange_energy(*self),
            r.order@ == energy_components(self.mol.components as nat),
            r.functional == functional_source(grids),
    {
        let e: ExchangeEnergy = self.evaluate_exact_exchange_ri_v();
        let mut list: Vec<EnergyComponent> = Vec::new();
        list.push(EnergyComponent::WithoutXc);
        list.push(EnergyComponent::ExactExchange);
        let mut i: usize = 0;
        assert(list@ =~= energy_components(0));
        while i < self.mol.components
            invariant
                i <= self.mol.components,
                list@ == energy_components(i as nat),
            decreases self.mol.components - i,
        {
            list.push(EnergyComponent::Functional(i));
            i += 1;
            assert(list@ =~= energy_components(i as nat));
        }
        let functional: FunctionalSource = if grids {
            FunctionalSource::Grid
        } else {
            FunctionalSource::Zero
        };
        ComponentPlan { exchange: e, functional, order: list }
    }

    /// The positions of the diagonal in packed storage of order `n`. Twice the product of
    /// two packed matrices counts the diagonal once too often, so these terms are taken off
    /// again.
    pub fn par_energy_contraction(n: usize) -> (r: Vec<usize>)
        requires
            n * (n + 1) <= usize::MAX,
        ensures
            r@.len() == n,
            forall|j: int| 0 <= j < n ==> #[trigger] r@[j] == pair_index(j, j),
    {
        let mut r: Vec<usize> = Vec::new();
        let mut j: usize = 0;
        while j < n
            invariant
                j <= n,
                n * (n + 1) <= usize::MAX,
                r@.len() == j,
                forall|x: int| 0 <= x < j ==> #[trigger] r@[x] == pair_index(x, x),
            decreases n - j,
        {
            assert(j * (j + 1) <= n * (n + 1)) by (nonlinear_arith)
                requires
                    j <= n,
            ;
            r.push(ij0(j, j));
            j += 1;
        }
        r
    }
}

/// The sum of the first `k` entries.
pub open spec fn packed_sum(c: Seq<int>, k: int) -> int
    decreases k,
{
    if k <= 0 {
        0
    } else {
        packed_sum(c, k - 1) + c[k - 1]
    }
}

/// The sum of the first `n` diagonal entries of a packed matrix.
pub open spec fn diagonal_sum(c: Seq<int>, n: int) -> int
    decreases n,
{
    if n <= 0 {
        0
    } else {
        diagonal_sum(c, n - 1) + c[pair_index(n - 1, n - 1)]
    }
}

/// The sum of the first `n` entries of column `j` of a packed matrix.
pub open spec fn column_sum(c: Seq<int>, j: int, n: int) -> int
    decreases n,
{
    if n <= 0 {
        0
    } else {
        column_sum(c, j, n - 1) + c[pair_index(n - 1, j)]
    }
}

/// The sum of the first `n` entries of the first `m` columns of a packed matrix.
pub open spec fn full_sum(c: Seq<int>, m: int, n: int) -> int
    decreases m,
{
    if m <= 0 {
        0
    } else {
        full_sum(c, m - 1, n) + column_sum(c, m - 1, n)
    }
}

/// One more row adds one entry to each column, and the matrix is symmetric.
proof fn lemma_full_sum_row(c: Seq<int>, m: int, n: int)
    requires
        0 <= m <= n,
    ensures
        full_sum(c, m, n + 1) == full_sum(c, m, n) + column_sum(c, n, m),
    decreases m,
{
    if m > 0 {
        lemma_full_sum_row(c, m - 1, n);
        assert(pair_index(n, m - 1) == pair_index(m - 1, n));
    }
}

/// The entries of a column above the diagonal follow each other.
proof fn lemma_packed_sum_column(c: Seq<int>, j: int, k: int)
    requires
        0 <= k <= j,
    ensures
        packed_sum(c, triangle(j) + k) == packed_sum(c, triangle(j)) + column_sum(c, j, k),
    decreases k,
{
    lemma_triangle_step(j);
    if k > 0 {
        lemma_packed_sum_column(c, j, k - 1);
        assert(pair_index(k - 1, j) == triangle(j) + k - 1);
    }
}

/// Twice the sum over packed storage less the diagonal is the sum over the full symmetric
/// matrix. With the products of two packed matrices as entries this is their contraction.
pub proof fn law_contraction(c: Seq<int>, n: int)
    requires
        0 <= n,
        c.len() == triangle(n),
    ensures
        full_sum(c, n, n) == 2 * packed_sum(c, triangle(n)) - diagonal_sum(c, n),
{
    lemma_contraction(c, n);
}

proof fn lemma_contraction(c: Seq<int>, n: int)
    requires
        0 <= n,
    ensures
        full_sum(c, n, n) == 2 * packed_sum(c, triangle(n)) - diagonal_sum(c, n),
    decreases n,
{
    if n == 0 {
        assert(triangle(0) == 0);
    } else {
        let m = n - 1;
        lemma_contraction(c, m);
        lemma_triangle_step(m);
        lemma_full_sum_row(c, m, m);
        lemma_packed_sum_column(c, m, m);
        assert(pair_index(m, m) == triangle(m) + m);
        assert(triangle(n) == triangle(m) + m + 1);
    }
}

/// The product of two matrices of whole numbers, entry by entry, over the first `k` entries.
pub open spec fn product(a: Seq<int>, b: Seq<int>, k: int) -> int
    decreases k,
{
    if k <= 0 {
        0
    } else {
        product(a, b, k - 1) + a[k - 1] * b[k - 1]
    }
}

/// The sum of two matrices of whole numbers.
pub open spec fn sum_of(a: Seq<int>, b: Seq<int>) -> Seq<int> {
    Seq::new(a.len(), |i: int| a[i] + b[i])
}

/// Twice the value of a product of a density with an operator; other contributions are
/// left out.
pub open spec fn contraction_value(
    t: EnergyTerm,
    core: Seq<int>,
    fock: Seq<Seq<int>>,
    density: Seq<Seq<int>>,
) -> int {
    match t {
        EnergyTerm::Contraction(d, o) => {
            let left = match d {
                EnergyDensity::Channel(i) => density[i as int],
                EnergyDensity::Total => sum_of(density[0], density[1]),
            };
            let right = match o {
                EnergyOperator::Core => core,
                EnergyOperator::Fock(i) => fock[i as int],
                EnergyOperator::CoreAndFock => sum_of(core, fock[0]),
            };
            product(left, right, left.len() as int)
        },
        _ => 0,
    }
}

/// Twice the value of all products of densities with operators.
pub open spec fn contraction_total(
    terms: Seq<EnergyTerm>,
    core: Seq<int>,
    fock: Seq<Seq<int>>,
    density: Seq<Seq<int>>,
) -> int
    decreases terms.len(),
{
    if terms.len() == 0 {
        0
    } else {
        contraction_total(terms.drop_last(), core, fock, density) + contraction_value(
            terms.last(),
            core,
            fock,
            density,
        )
    }
}

proof fn lemma_products(a: Seq<int>, b: Seq<int>, h: Seq<int>, f: Seq<int>, k: int)
    requires
        a.len() == b.len(),
        h.len() == a.len(),
        f.len() == a.len(),
        0 <= k <= a.len(),
    ensures
        product(sum_of(a, b), sum_of(h, f), k) == product(sum_of(a, b), h, k) + product(a, f, k)
            + product(b, f, k),
    decreases k,
{
    if k > 0 {
        lemma_products(a, b, h, f, k - 1);
        let i = k - 1;
        let (x, y, u, v) = (a[i], b[i], h[i], f[i]);
        assert((x + y) * (u + v) == (x + y) * u + x * v + y * v) by (nonlinear_arith);
    }
}

/// A closed shell has the same energy whether its spins are treated together or apart.
pub proof fn law_energy_of_closed_shell(
    alpha: Seq<int>,
    beta: Seq<int>,
    core: Seq<int>,
    fock: Seq<int>,
    t: SCFType,
)
    requires
        beta.len() == alpha.len(),
        core.len() == alpha.len(),
        fock.len() == alpha.len(),
        t != SCFType::RHF,
    ensures
        contraction_total(
            contraction_terms(SCFType::RHF),
            core,
            seq![fock],
            seq![sum_of(alpha, beta)],
        ) == contraction_total(contraction_terms(t), core, seq![fock, fock], seq![alpha, beta]),
{
    let n = alpha.len() as int;
    lemma_products(alpha, beta, core, fock, n);
    reveal_with_fuel(contraction_total, 4);
    let one = contraction_terms(SCFType::RHF);
    let three = contraction_terms(t);
    assert(one.drop_last() =~= seq![]);
    assert(three.drop_last() =~= seq![three[0], three[1]]);
    assert(three.drop_last().drop_last() =~= seq![three[0]]);
    assert(three.drop_last().drop_last().drop_last() =~= seq![]);
}

/// A part of the orbital space of a restricted open shell.
#[derive(Clone, Copy, Debug, PartialEq, Eq, Structural)]
pub enum Space {
    Closed,
    Open,
    Virtual,
}

/// A Fock matrix of a restricted open shell.
#[derive(Clone, Copy, Debug, PartialEq, Eq, Structural)]
pub enum SpinFock {
    Alpha,
    Beta,
    /// The mean of both.
    Mean,
}

/// A term of the effective Fock matrix: a Fock matrix between the projectors on two
/// spaces. The sum of all terms is added to its transpose.
#[derive(Clone, Copy, Debug, PartialEq, Eq, Structural)]
pub struct ProjectedTerm {
    pub left: Space,
    pub fock: SpinFock,
    pub right: Space,
    /// The term counts half.
    pub half: bool,
}

/// The projector on a space, as multiples of the identity, of the alpha density and of the
/// beta density, each density times the overlap matrix.
pub open spec fn projector(s: Space) -> (int, int, int) {
    match s {
        Space::Closed => (0, 0, 1),
        Space::Open => (0, 1, -1),
        Space::Virtual => (1, -1, 0),
    }
}

/// The Fock matrix between two spaces: the mean one within a space and between closed and
/// virtual orbitals, the beta one between closed and open and the alpha one between open
/// and virtual orbitals.
pub open spec fn fock_between(l: Space, r: Space) -> SpinFock {
    match (l, r) {
        (Space::Closed, Space::Open) | (Space::Open, Space::Closed) => SpinFock::Beta,
        (Space::Open, Space::Virtual) | (Space::Virtual, Space::Open) => SpinFock::Alpha,
        _ => SpinFock::Mean,
    }
}

/// How often, in halves, a Fock matrix stands between two spaces once the sum of the terms
/// is added to its transpose.
pub open spec fn halves_between(
    terms: Seq<ProjectedTerm>,
    l: Space,
    r: Space,
    fock: SpinFock,
) -> int
    decreases terms.len(),
{
    if terms.len() == 0 {
        0
    } else {
        let t = terms.last();
        let weight: int = if t.fock != fock {
            0
        } else if t.half {
            1
        } else {
            2
        };
        halves_between(terms.drop_last(), l, r, fock) + (if t.left == l && t.right == r {
            weight
        } else {
            0
        }) + (if t.left == r && t.right == l {
            weight
        } else {
            0
        })
    }
}

/// Between any two spaces stands exactly the Fock matrix that belongs there.
pub open spec fn effective(terms: Seq<ProjectedTerm>) -> bool {
    forall|l: Space, r: Space, f: SpinFock|
        #[trigger] halves_between(terms, l, r, f) == (if f == fock_between(l, r) {
            2int
        } else {
            0
        })
}

/// The projector on a space, as multiples of the identity, of the alpha density and of the
/// beta density.
pub fn projector_parts(s: Space) -> (p: (i8, i8, i8))
    ensures
        (p.0 as int, p.1 as int, p.2 as int) == projector(s),
{
    match s {
        Space::Closed => (0, 0, 1),
        Space::Open => (0, 1, -1),
        Space::Virtual => (1, -1, 0),
    }
}

/// The terms of the effective Fock matrix of a restricted open shell.
pub open spec fn roothaan_terms() -> Seq<ProjectedTerm> {
    seq![
        ProjectedTerm {
            left: Space::Closed,
            fock: SpinFock::Mean,
            right: Space::Closed,
            half: true,
        },
        ProjectedTerm { left: Space::Open, fock: SpinFock::Mean, right: Space::Open, half: true },
        ProjectedTerm {
            left: Space::Virtual,
            fock: SpinFock::Mean,
            right: Space::Virtual,
            half: true,
        },
        ProjectedTerm {
            left: Space::Open,
            fock: SpinFock::Beta,
            right: Space::Closed,
            half: false,
        },
        ProjectedTerm {
            left: Space::Open,
            fock: SpinFock::Alpha,
            right: Space::Virtual,
            half: false,
        },
        ProjectedTerm {
            left: Space::Virtual,
            fock: SpinFock::Mean,
            right: Space::Closed,
            half: false,
        },
    ]
}

impl SCF {
    /// The terms of the effective Fock matrix of a restricted open shell.
    pub fn generate_roothaan_fock() -> (terms: Vec<ProjectedTerm>)
        ensures
            terms@ == roothaan_terms(),
            effective(terms@),
    {
        let mut terms: Vec<ProjectedTerm> = Vec::new();
        let (c, o, v) = (Space::Closed, Space::Open, Space::Virtual);
        terms.push(ProjectedTerm { left: c, fock: SpinFock::Mean, right: c, half: true });
        terms.push(ProjectedTerm { left: o, fock: SpinFock::Mean, right: o, half: true });
        terms.push(ProjectedTerm { left: v, fock: SpinFock::Mean, right: v, half: true });
        terms.push(ProjectedTerm { left: o, fock: SpinFock::Beta, right: c, half: false });
        terms.push(ProjectedTerm { left: o, fock: SpinFock::Alpha, right: v, half: false });
        terms.push(ProjectedTerm { left: v, fock: SpinFock::Mean, right: c, half: false });
        proof {
            assert(terms@ =~= roothaan_terms());
            law_effective_fock();
        }
        terms
    }
}

/// The terms of the effective Fock matrix put the right Fock matrix between any two spaces.
pub proof fn law_effective_fock()
    ensures
        effective(roothaan_terms()),
{
    let t = roothaan_terms();
    assert forall|l: Space, r: Space, f: SpinFock| #[trigger] halves_between(t, l, r, f) == (if f
        == fock_between(l, r) {
        2int
    } else {
        0
    }) by {
        reveal_with_fuel(halves_between, 7);
        assert(t.drop_last() =~= seq![t[0], t[1], t[2], t[3], t[4]]);
        assert(t.drop_last().drop_last() =~= seq![t[0], t[1], t[2], t[3]]);
        assert(t.drop_last().drop_last().drop_last() =~= seq![t[0], t[1], t[2]]);
        assert(t.drop_last().drop_last().drop_last().drop_last() =~= seq![t[0], t[1]]);
        assert(t.drop_last().drop_last().drop_last().drop_last().drop_last() =~= seq![t[0]]);
        assert(t.drop_last().drop_last().drop_last().drop_last().drop_last().drop_last()
            =~= seq![]);
    }
}

/// The projectors on the three spaces add up to the identity.
pub proof fn law_projectors_complete()
    ensures
        ({
            let (c, o, v) = (
                projector(Space::Closed),
                projector(Space::Open),
                projector(Space::Virtual),
            );
            (c.0 + o.0 + v.0, c.1 + o.1 + v.1, c.2 + o.2 + v.2) == (1int, 0int, 0int)
        }),
{
}

/// The repulsion of the nuclei counts always, and so do the two terms that exchange the energy
/// of the exchange-correlation potential for that of the functional; the solvent counts only
/// where one is set up, by its charges and by its surface tension where it has them. Hartree-Fock
/// leaves out everything but the nuclei and the products of densities and operators.
pub proof fn law_energy_terms(
    t: SCFType,
    enabled: bool,
    charges: bool,
    tension: bool,
    e: EnergyTerm,
)
    ensures
        total_energy(t, enabled, charges, tension).contains(e) <==> match e {
            EnergyTerm::Nuclear | EnergyTerm::XcPotential | EnergyTerm::XcEnergy => true,
            EnergyTerm::SolventNuclear => enabled && charges,
            EnergyTerm::SurfaceTension => enabled && tension,
            EnergyTerm::Contraction(d, o) => contraction_terms(t).contains(e),
        },
        hf_energy(t).contains(e) <==> match e {
            EnergyTerm::Nuclear => true,
            EnergyTerm::Contraction(d, o) => contraction_terms(t).contains(e),
            _ => false,
        },
        total_energy(t, enabled, charges, tension).no_duplicates(),
        hf_energy(t).no_duplicates(),
{
    let all = total_energy(t, enabled, charges, tension);
    let hf = hf_energy(t);
    let c = contraction_terms(t);
    let s = solvent_terms(enabled, charges, tension);
    assert(all[0] == EnergyTerm::Nuclear && all[1] == EnergyTerm::XcPotential && all[2]
        == EnergyTerm::XcEnergy);
    assert(hf[0] == EnergyTerm::Nuclear);
    assert(forall|i: int| 0 <= i < c.len() ==> #[trigger] c[i] is Contraction);
    if enabled && charges {
        assert(all[3] == EnergyTerm::SolventNuclear);
    }
    if enabled && tension {
        assert(all[(2 + s.len()) as int] == EnergyTerm::SurfaceTension);
    }
    if c.contains(e) {
        let k = choose|k: int| 0 <= k < c.len() && c[k] == e;
        assert(all[(3 + s.len() + k) as int] == e);
        assert(hf[1 + k] == e);
    }
    if all.contains(e) {
        let k = choose|k: int| 0 <= k < all.len() && all[k] == e;
        if k >= 3 + s.len() {
            assert(c[k - 3 - s.len()] == e);
        }
    }
    if hf.contains(e) {
        let k = choose|k: int| 0 <= k < hf.len() && hf[k] == e;
        if k >= 1 {
            assert(c[k - 1] == e);
        }
    }
}

/// The products add up to the energy of a calculation: the density of a closed shell with the
/// sum of core Hamiltonian and Fock matrix; otherwise the total density with the core
/// Hamiltonian, and the density of each spin with the Fock matrix of the same spin.
pub proof fn law_energy_of_densities(
    alpha: Seq<int>,
    beta: Seq<int>,
    core: Seq<int>,
    fock_alpha: Seq<int>,
    fock_beta: Seq<int>,
    t: SCFType,
)
    requires
        alpha.len() == beta.len(),
        alpha.len() == core.len(),
        alpha.len() == fock_alpha.len(),
        alpha.len() == fock_beta.len(),
    ensures
        ({
            let n = alpha.len() as int;
            &&& t == SCFType::RHF ==> contraction_total(
                contraction_terms(t),
                core,
                seq![fock_alpha],
                seq![alpha],
            ) == product(alpha, core, n) + product(alpha, fock_alpha, n)
            &&& t != SCFType::RHF ==> contraction_total(
                contraction_terms(t),
                core,
                seq![fock_alpha, fock_beta],
                seq![alpha, beta],
            ) == product(alpha, core, n) + product(beta, core, n) + product(alpha, fock_alpha, n)
                + product(beta, fock_beta, n)
        }),
{
    reveal_with_fuel(contraction_total, 4);
    let n = alpha.len() as int;
    let c = contraction_terms(t);
    if t == SCFType::RHF {
        assert(c.drop_last() =~= Seq::<EnergyTerm>::empty());
        lemma_product_sum_right(alpha, core, fock_alpha, n);
    } else {
        assert(c.drop_last() =~= seq![c[0], c[1]]);
        assert(c.drop_last().drop_last() =~= seq![c[0]]);
        assert(c.drop_last().drop_last().drop_last() =~= Seq::<EnergyTerm>::empty());
        lemma_product_sum_left(alpha, beta, core, n);
    }
}

proof fn lemma_product_sum_right(a: Seq<int>, b: Seq<int>, c: Seq<int>, k: int)
    requires
        0 <= k <= a.len(),
        b.len() == a.len(),
        c.len() == a.len(),
    ensures
        product(a, sum_of(b, c), k) == product(a, b, k) + product(a, c, k),
    decreases k,
{
    if k > 0 {
        lemma_product_sum_right(a, b, c, k - 1);
        let (x, y, z) = (a[k - 1], b[k - 1], c[k - 1]);
        assert(x * (y + z) == x * y + x * z) by (nonlinear_arith);
    }
}

proof fn lemma_product_sum_left(a: Seq<int>, b: Seq<int>, c: Seq<int>, k: int)
    requires
        0 <= k <= a.len(),
        b.len() == a.len(),
        c.len() == a.len(),
    ensures
        product(sum_of(a, b), c, k) == product(a, c, k) + product(b, c, k),
    decreases k,
{
    if k > 0 {
        lemma_product_sum_left(a, b, c, k - 1);
        let (x, y, z) = (a[k - 1], b[k - 1], c[k - 1]);
        assert((x + y) * z == x * z + y * z) by (nonlinear_arith);
    }
}

/// The exact exchange energy comes from the exchange kernel of the Hartree-Fock matrix, unless
/// that is made from interpolation tables. Every channel counts, and one alone counts half.
pub proof fn law_exchange_energy(scf: SCF)
    ensures
        ({
            let e = exchange_energy(scf);
            &&& !scf.ctrl.isdf_new ==> e.kernel == crate::scf_io::hamiltonian::hf_plan(
                scf.ctrl,
                scf.algorithm_jk,
                scf.scftype,
            ).exchange
            &&& scf.ctrl.use_isdf ==> e.kernel == isdf_exchange(scf.ctrl)
            &&& !scf.ctrl.use_isdf ==> e.kernel == exchange_of(scf.ctrl, scf.algorithm_jk)
            &&& e.channels == scf.mol.spin_channel
            &&& e.half <==> e.channels == 1
        }),
{
}

/// What remains comes first, then the exact exchange, then every component of the functional at
/// its own place; only on a grid are the latter integrated.
pub proof fn law_energy_components(n: nat, i: int)
    requires
        n <= usize::MAX,
    ensures
        energy_components(n).len() == n + 2,
        energy_components(n)[0] == EnergyComponent::WithoutXc,
        energy_components(n)[1] == EnergyComponent::ExactExchange,
        0 <= i < n ==> energy_components(n)[i + 2] == EnergyComponent::Functional(i as usize),
        functional_source(true) == FunctionalSource::Grid,
        functional_source(false) == FunctionalSource::Zero,
{
}

/// The closed orbitals are those of the second spin, and together with the open ones they are
/// those of the first; the virtual ones are what the first spin leaves.
pub proof fn law_projectors()
    ensures
        ({
            let (c, o, v) = (
                projector(Space::Closed),
                projector(Space::Open),
                projector(Space::Virtual),
            );
            &&& c == (0int, 0int, 1int)
            &&& (c.0 + o.0, c.1 + o.1, c.2 + o.2) == (0int, 1int, 0int)
            &&& (v.0, v.1 + 1, v.2) == (1int, 0int, 0int)
        }),
{
}

/// Between two spaces acts the Fock matrix of the spin that occupies one of them alone: that of
/// the second spin between closed and open orbitals, where the first spin occupies both, that of
/// the first between open and virtual ones, where the second occupies neither, and the mean
/// elsewhere. The order of the spaces does not matter.
pub proof fn law_fock_between(l: Space, r: Space)
    ensures
        fock_between(l, r) == fock_between(r, l),
        fock_between(l, r) == SpinFock::Beta <==> (l == Space::Closed && r == Space::Open) || (l
            == Space::Open && r == Space::Closed),
        fock_between(l, r) == SpinFock::Alpha <==> (l == Space::Open && r == Space::Virtual) || (l
            == Space::Virtual && r == Space::Open),
{
}

} // verus!
