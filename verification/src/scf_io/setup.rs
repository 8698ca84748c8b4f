//! Decisions made before the first iteration: the type of calculation, the algorithms
//! for the Coulomb and exchange matrices, and the integrals to prepare.

use crate::binary64::Real;
use crate::keywords::is_word;
use crate::scf_io::driver::{ConvergenceCriteria, ScfThresholds};
use crate::scf_io::smear::Smearing;
use vstd::prelude::*;

verus! {

/// Type of self-consistent-field calculation.
#[derive(Clone, Copy, Debug, PartialEq, Eq, Structural)]
pub enum SCFType {
    RHF,
    ROHF,
    UHF,
}

/// The type of calculation: restricted unless spin polarization is asked for, and open
/// shell when the numbers of alpha and beta electrons differ.
pub open spec fn scf_type(same_spins: bool, spin_polarization: bool) -> SCFType {
    if spin_polarization {
        SCFType::UHF
    } else if same_spins {
        SCFType::RHF
    } else {
        SCFType::ROHF
    }
}

/// The number of spins that a calculation treats apart, where `asked` are asked for.
pub open spec fn channels_of(t: SCFType, asked: usize) -> usize {
    if t == SCFType::ROHF {
        2
    } else {
        asked
    }
}

/// Whether two values are numerically equal.
pub open spec fn equal_numbers(a: Real, b: Real) -> bool {
    a.at_most(b) && b.at_most(a)
}

/// The starting potential of a calculation.
#[derive(Clone, Copy, Debug, PartialEq, Eq, Structural)]
pub enum InitialGuess {
    /// Superposition of atomic potentials, which is evaluated on a grid.
    Vsap,
    Other,
}

/// The starting potential that a keyword names.
pub open spec fn guess_of(keyword: Seq<char>) -> InitialGuess {
    if keyword == "vsap"@ {
        InitialGuess::Vsap
    } else {
        InitialGuess::Other
    }
}

impl InitialGuess {
    /// The starting potential that a keyword names.
    pub fn from_keyword(keyword: &String) -> (g: InitialGuess)
        ensures
            g == guess_of(keyword@),
    {
        if is_word(keyword, "vsap") {
            InitialGuess::Vsap
        } else {
            InitialGuess::Other
        }
    }
}

/// The settings of a calculation.
#[derive(Clone, Copy, Debug, PartialEq, Eq, Structural)]
pub struct Control {
    pub spin_polarization: bool,
    /// The algorithms that the input asks for.
    pub algorithm_jk: AlgorithmJK,
    pub eri_type: EriType,
    pub use_auxbas: bool,
    pub use_ri_symm: bool,
    pub use_dm_only: bool,
    pub use_isdf: bool,
    pub isdf_k_only: bool,
    pub isdf_new: bool,
    pub ri_k_only: bool,
    /// Scalar relativistic core Hamiltonian.
    pub sfx2c: bool,
    /// A dispersion correction is asked for.
    pub empirical_dispersion: bool,
    pub initial_guess: InitialGuess,
    /// Basis function values up to this are left out on the grid.
    pub ao_cutoff: Real,
    /// Full tables are dropped once there are compressed ones.
    pub drop_dense_ao: bool,
    /// Occupations are smeared.
    pub smearing: Option<Smearing>,
    /// The iteration from which on the mixers extrapolate.
    pub start_diis_cycle: usize,
    pub solvent_enabled: bool,
    /// The functional's parameters come from a neural network.
    pub deep_learning: bool,
    /// A quasiparticle calculation follows.
    pub quasiparticle_methods: bool,
    /// The quasiparticle calculation brings its own auxiliary basis.
    pub bse_auxbas: bool,
    pub scf_conv_criteria: ConvergenceCriteria,
    pub thresholds: ScfThresholds,
    pub max_scf_cycle: usize,
}

/// The molecule, as far as decisions depend on it.
#[derive(Clone, Copy, Debug, PartialEq, Eq, Structural)]
pub struct Molecule {
    /// Numbers of alpha and beta electrons.
    pub num_alpha: Real,
    pub num_beta: Real,
    pub spin_channel: usize,
    pub num_basis: usize,
    pub num_auxbas: usize,
    pub num_state: usize,
    /// The first correlated orbital.
    pub start_mo: usize,
    pub use_eri: bool,
    pub ghost_potentials: usize,
    pub external_field: bool,
    pub point_charges: usize,
    /// The functional is a range-separated hybrid.
    pub is_rsh: bool,
    /// A density functional is in use.
    pub is_dfa_scf: bool,
    /// The number of exchange-correlation components.
    pub components: usize,
    /// The functional brings a dispersion correction.
    pub has_dispersion: bool,
}

/// A self-consistent-field calculation.
#[derive(Clone, Copy, Debug)]
pub struct SCF {
    pub ctrl: Control,
    pub mol: Molecule,
    pub scftype: SCFType,
    /// The algorithms in use.
    pub algorithm_jk: AlgorithmJK,
    /// Highest occupied and lowest unoccupied orbital of each spin.
    pub homo: [usize; 2],
    pub lumo: [usize; 2],
}

impl SCF {
    /// A calculation before anything is prepared. Its type follows from the electrons and
    /// from whether spin polarization is asked for; a restricted open-shell calculation
    /// treats both spins whatever was asked for.
    pub fn init_scf(mol: Molecule, ctrl: Control) -> (s: SCF)
        ensures
            s.scftype == scf_type(
                equal_numbers(mol.num_alpha, mol.num_beta),
                ctrl.spin_polarization,
            ),
            s.mol == (Molecule {
                spin_channel: channels_of(s.scftype, mol.spin_channel),
                ..mol
            }),
            s.ctrl == ctrl,
            s.algorithm_jk == AlgorithmJK::Default,
            s.homo@ == seq![0usize, 0usize],
            s.lumo@ == seq![0usize, 0usize],
    {
        let same: bool = mol.num_alpha.le(mol.num_beta) && mol.num_beta.le(mol.num_alpha);
        let scftype: SCFType = if same && !ctrl.spin_polarization {
            SCFType::RHF
        } else if !same && !ctrl.spin_polarization {
            SCFType::ROHF
        } else {
            SCFType::UHF
        };
        let mut mol: Molecule = mol;
        match scftype {
            SCFType::ROHF => {
                mol.spin_channel = 2;
            },
            _ => {},
        }
        let s = SCF {
            ctrl,
            mol,
            scftype,
            algorithm_jk: AlgorithmJK::Default,
            homo: [0, 0],
            lumo: [0, 0],
        };
        assert(s.homo@ =~= seq![0usize, 0usize]);
        assert(s.lumo@ =~= seq![0usize, 0usize]);
        s
    }
}

/// Algorithm for the Coulomb matrix.
#[derive(Clone, Copy, Debug, PartialEq, Eq, Structural)]
pub enum AlgorithmJ {
    Default,
    /// Resolution of the identity, the storage not yet chosen.
    Ri,
    RiIncore,
    RiDirect,
    /// An algorithm without resolution of the identity.
    Other,
}

/// Algorithm for the exchange matrix.
#[derive(Clone, Copy, Debug, PartialEq, Eq, Structural)]
pub enum AlgorithmK {
    Default,
    Ri,
    RiIncore,
    RiDirect,
    Other,
}

/// Algorithms for both matrices.
#[derive(Clone, Copy, Debug, PartialEq, Eq, Structural)]
pub enum AlgorithmJK {
    Default,
    Ri,
    RiIncore,
    RiDirect,
    Separated(AlgorithmJ, AlgorithmK),
    Other,
}

/// The Coulomb algorithm with its storage chosen.
pub open spec fn resolve_j(j: AlgorithmJ, fits: bool) -> AlgorithmJ {
    if j == AlgorithmJ::Default || j == AlgorithmJ::Ri {
        if fits {
            AlgorithmJ::RiIncore
        } else {
            AlgorithmJ::RiDirect
        }
    } else {
        j
    }
}

/// The exchange algorithm with its storage chosen.
pub open spec fn resolve_k(k: AlgorithmK, fits: bool) -> AlgorithmK {
    if k == AlgorithmK::Default || k == AlgorithmK::Ri {
        if fits {
            AlgorithmK::RiIncore
        } else {
            AlgorithmK::RiDirect
        }
    } else {
        k
    }
}

/// The algorithms with every storage chosen; `fits` tells whether the three-centre
/// integrals fit into memory.
pub open spec fn resolve_jk(a: AlgorithmJK, fits: bool) -> AlgorithmJK {
    match a {
        AlgorithmJK::Default | AlgorithmJK::Ri => if fits {
            AlgorithmJK::RiIncore
        } else {
            AlgorithmJK::RiDirect
        },
        AlgorithmJK::Separated(j, k) => AlgorithmJK::Separated(
            resolve_j(j, fits),
            resolve_k(k, fits),
        ),
        _ => a,
    }
}

/// Bytes needed for the three-centre integrals: a double for each pair of basis functions
/// and each auxiliary function, twice that for range-separated hybrids. Pairs are not
/// taken as unordered, which leaves a margin.
pub open spec fn ri_bytes(nao: int, naux: int, rsh: bool) -> int {
    8 * (nao * nao * naux) * (if rsh { 2int } else { 1 })
}

/// Bytes needed for the three-centre integrals.
pub fn ri_memory_bytes(nao: usize, naux: usize, rsh: bool) -> (b: u128)
    requires
        nao * nao * naux <= usize::MAX,
    ensures
        b == ri_bytes(nao as int, naux as int, rsh),
{
    assert(naux >= 1 ==> nao * nao <= nao * nao * naux) by (nonlinear_arith)
        requires
            nao >= 0,
            naux >= 0,
    ;
    if naux == 0 {
        assert(nao * nao * naux == 0) by (nonlinear_arith)
            requires
                naux == 0,
        ;
        return 0;
    }
    let product: usize = nao * nao * naux;
    let single: u128 = 8 * (product as u128);
    if rsh {
        2 * single
    } else {
        single
    }
}

/// Whether the three-centre integrals fit into the available bytes.
pub open spec fn ri_fits(available: int, nao: int, naux: int, rsh: bool) -> bool {
    available >= ri_bytes(nao, naux, rsh)
}

impl SCF {
    /// Chooses the algorithms for the Coulomb and exchange matrices: what the input leaves
    /// open becomes a resolution of the identity, in memory if it fits and direct
    /// otherwise. `available` is what is left of the memory limit in bytes, negative if it
    /// is exceeded.
    pub fn update_jk_algorithms(&mut self, available: i128)
        requires
            old(self).mol.num_basis * old(self).mol.num_basis * old(self).mol.num_auxbas
                <= usize::MAX,
        ensures
            final(self).algorithm_jk == resolve_jk(
                old(self).ctrl.algorithm_jk,
                ri_fits(
                    available as int,
                    old(self).mol.num_basis as int,
                    old(self).mol.num_auxbas as int,
                    old(self).mol.is_rsh,
                ),
            ),
            final(self).ctrl == old(self).ctrl,
            final(self).mol == old(self).mol,
            final(self).scftype == old(self).scftype,
            final(self).homo == old(self).homo,
            final(self).lumo == old(self).lumo,
    {
        let required: u128 = ri_memory_bytes(
            self.mol.num_basis,
            self.mol.num_auxbas,
            self.mol.is_rsh,
        );
        let fits: bool = available >= 0 && available as u128 >= required;
        self.algorithm_jk = match self.ctrl.algorithm_jk {
            AlgorithmJK::Default | AlgorithmJK::Ri => if fits {
                AlgorithmJK::RiIncore
            } else {
                AlgorithmJK::RiDirect
            },
            AlgorithmJK::Separated(j, k) => {
                let new_j: AlgorithmJ = match j {
                    AlgorithmJ::Default | AlgorithmJ::Ri => if fits {
                        AlgorithmJ::RiIncore
                    } else {
                        AlgorithmJ::RiDirect
                    },
                    _ => j,
                };
                let new_k: AlgorithmK = match k {
                    AlgorithmK::Default | AlgorithmK::Ri => if fits {
                        AlgorithmK::RiIncore
                    } else {
                        AlgorithmK::RiDirect
                    },
                    _ => k,
                };
                AlgorithmJK::Separated(new_j, new_k)
            },
            other => other,
        };
    }
}

/// The Coulomb part of a choice.
pub open spec fn part_j(a: AlgorithmJK) -> AlgorithmJ {
    match a {
        AlgorithmJK::Default => AlgorithmJ::Default,
        AlgorithmJK::Ri => AlgorithmJ::Ri,
        AlgorithmJK::RiIncore => AlgorithmJ::RiIncore,
        AlgorithmJK::RiDirect => AlgorithmJ::RiDirect,
        AlgorithmJK::Separated(j, _) => j,
        AlgorithmJK::Other => AlgorithmJ::Other,
    }
}

/// The exchange part of a choice.
pub open spec fn part_k(a: AlgorithmJK) -> AlgorithmK {
    match a {
        AlgorithmJK::Default => AlgorithmK::Default,
        AlgorithmJK::Ri => AlgorithmK::Ri,
        AlgorithmJK::RiIncore => AlgorithmK::RiIncore,
        AlgorithmJK::RiDirect => AlgorithmK::RiDirect,
        AlgorithmJK::Separated(_, k) => k,
        AlgorithmJK::Other => AlgorithmK::Other,
    }
}

/// No choice is left open, what the input specified is kept, and choosing again changes
/// nothing, however the available memory has changed by then.
pub proof fn law_resolved(a: AlgorithmJK, fits: bool, later: bool)
    ensures
        ({
            let r = resolve_jk(a, fits);
            &&& part_j(r) != AlgorithmJ::Default && part_j(r) != AlgorithmJ::Ri
            &&& part_k(r) != AlgorithmK::Default && part_k(r) != AlgorithmK::Ri
            &&& part_j(a) != AlgorithmJ::Default && part_j(a) != AlgorithmJ::Ri ==> part_j(r)
                == part_j(a)
            &&& part_k(a) != AlgorithmK::Default && part_k(a) != AlgorithmK::Ri ==> part_k(r)
                == part_k(a)
            &&& resolve_jk(r, later) == r
        }),
{
}

/// How two-electron integrals are evaluated.
#[derive(Clone, Copy, Debug, PartialEq, Eq, Structural)]
pub enum EriType {
    Analytic,
    RiV,
    Other,
}

/// The evaluation that a keyword names.
pub open spec fn eri_of(keyword: Seq<char>) -> EriType {
    if keyword == "analytic"@ {
        EriType::Analytic
    } else if keyword == "ri_v"@ {
        EriType::RiV
    } else {
        EriType::Other
    }
}

impl EriType {
    /// The evaluation that a keyword names.
    pub fn from_keyword(keyword: &String) -> (e: EriType)
        ensures
            e == eri_of(keyword@),
    {
        if is_word(keyword, "analytic") {
            EriType::Analytic
        } else if is_word(keyword, "ri_v") {
            EriType::RiV
        } else {
            EriType::Other
        }
    }
}

/// Where the name of a dispersion correction comes from.
#[derive(Clone, Copy, Debug, PartialEq, Eq, Structural)]
pub enum Dispersion {
    Nothing,
    Functional,
    Requested,
}

/// The integrals to prepare.
#[derive(Clone, Copy, Debug, PartialEq, Eq, Structural)]
pub struct IntegralPlan {
    pub dispersion: Dispersion,
    pub relativistic_core: bool,
    pub ghost_potential: bool,
    pub external_field: bool,
    pub point_charges: bool,
    /// Four-centre integrals.
    pub ijkl: bool,
    /// Three-centre integrals in full format.
    pub ri3fn: bool,
    /// Three-centre integrals that use the symmetry of the pairs.
    pub rimatr: bool,
    /// Short-range three-centre integrals in full format.
    pub ri3fn_sr: bool,
    /// Short-range three-centre integrals that use the symmetry of the pairs.
    pub rimatr_sr: bool,
}

/// Whether three-centre integrals are kept in memory for one of the matrices.
pub open spec fn keeps_integrals(a: AlgorithmJK) -> bool {
    part_j(a) == AlgorithmJ::RiIncore || part_k(a) == AlgorithmK::RiIncore
}

/// The integrals to prepare.
pub open spec fn integral_plan(c: Control, mol: Molecule, algorithm: AlgorithmJK) -> IntegralPlan {
    let kept = keeps_integrals(algorithm);
    let isdf = kept && c.eri_type == EriType::RiV && c.use_isdf;
    let full = kept && c.use_auxbas && !c.use_ri_symm;
    let symm = kept && c.use_auxbas && c.use_ri_symm;
    IntegralPlan {
        dispersion: if mol.has_dispersion {
            Dispersion::Functional
        } else if c.empirical_dispersion {
            Dispersion::Requested
        } else {
            Dispersion::Nothing
        },
        relativistic_core: c.sfx2c,
        ghost_potential: mol.ghost_potentials > 0,
        external_field: mol.external_field,
        point_charges: mol.point_charges > 0,
        ijkl: !c.use_auxbas,
        ri3fn: (full && !isdf) || c.isdf_k_only,
        rimatr: symm && !isdf,
        ri3fn_sr: mol.is_rsh && kept && !symm,
        rimatr_sr: mol.is_rsh && kept && symm,
    }
}

/// Whether three-centre integrals are kept in memory for one of the matrices.
pub fn keeps_integrals_in_memory(a: AlgorithmJK) -> (b: bool)
    ensures
        b == keeps_integrals(a),
{
    match a {
        AlgorithmJK::RiIncore => true,
        AlgorithmJK::Separated(j, k) => matches!(j, AlgorithmJ::RiIncore) || matches!(
            k,
            AlgorithmK::RiIncore
        ),
        _ => false,
    }
}

impl SCF {
    /// Decides which integrals are prepared.
    pub fn prepare_necessary_integrals(&self) -> (p: IntegralPlan)
        ensures
            p == integral_plan(self.ctrl, self.mol, self.algorithm_jk),
    {
        let c: Control = self.ctrl;
        let kept: bool = keeps_integrals_in_memory(self.algorithm_jk);
        let isdf: bool = kept && matches!(c.eri_type, EriType::RiV) && c.use_isdf;
        let full: bool = kept && c.use_auxbas && !c.use_ri_symm;
        let symm: bool = kept && c.use_auxbas && c.use_ri_symm;
        let dispersion: Dispersion = if self.mol.has_dispersion {
            Dispersion::Functional
        } else if c.empirical_dispersion {
            Dispersion::Requested
        } else {
            Dispersion::Nothing
        };
        IntegralPlan {
            dispersion,
            relativistic_core: c.sfx2c,
            ghost_potential: self.mol.ghost_potentials > 0,
            external_field: self.mol.external_field,
            point_charges: self.mol.point_charges > 0,
            ijkl: !c.use_auxbas,
            ri3fn: if full && !isdf {
                true
            } else {
                c.isdf_k_only
            },
            rimatr: symm && !isdf,
            ri3fn_sr: self.mol.is_rsh && kept && !symm,
            rimatr_sr: self.mol.is_rsh && kept && symm,
        }
    }

    /// Takes over the number of usable eigenvectors of the overlap matrix: with fewer of
    /// them than basis functions there are fewer states.
    pub fn take_usable_states(&mut self, found: usize, basis_functions: usize)
        ensures
            final(self).mol == (Molecule {
                num_state: usable_states(found, basis_functions, old(self).mol.num_state),
                ..old(self).mol
            }),
            final(self).ctrl == old(self).ctrl,
            final(self).scftype == old(self).scftype,
            final(self).algorithm_jk == old(self).algorithm_jk,
            final(self).homo == old(self).homo,
            final(self).lumo == old(self).lumo,
    {
        if found < basis_functions {
            self.mol.num_state = found;
        }
    }
}

/// The number of states when `found` eigenvectors of the overlap matrix are usable.
pub open spec fn usable_states(found: usize, basis_functions: usize, num_state: usize) -> usize {
    if found < basis_functions {
        found
    } else {
        num_state
    }
}

/// Which integrals a Bethe-Salpeter calculation with its own auxiliary basis prepares.
#[derive(Clone, Copy, Debug, PartialEq, Eq, Structural)]
pub enum BseIntegrals {
    Nothing,
    Rimatr,
    Ri3fn,
}

/// The integrals of a Bethe-Salpeter calculation.
pub open spec fn bse_plan(c: Control) -> BseIntegrals {
    if !(c.quasiparticle_methods && c.bse_auxbas) {
        BseIntegrals::Nothing
    } else if c.use_ri_symm {
        BseIntegrals::Rimatr
    } else {
        BseIntegrals::Ri3fn
    }
}

impl SCF {
    /// Decides on the integrals of a Bethe-Salpeter calculation: none unless it brings its
    /// own auxiliary basis.
    pub fn prepare_bse_integrals(&self) -> (r: BseIntegrals)
        ensures
            r == bse_plan(self.ctrl),
    {
        if !self.ctrl.quasiparticle_methods || !self.ctrl.bse_auxbas {
            BseIntegrals::Nothing
        } else if self.ctrl.use_ri_symm {
            BseIntegrals::Rimatr
        } else {
            BseIntegrals::Ri3fn
        }
    }
}

/// How the basis functions are tabulated on the integration grid.
#[derive(Clone, Copy, Debug, PartialEq, Eq, Structural)]
pub enum GridPlan {
    /// No grid is needed.
    Nothing,
    /// Compressed tables only.
    Sparse,
    /// Full tables, compressed afterwards.
    Dense,
}

/// How the basis functions are tabulated on the integration grid: a grid is needed for a
/// density functional, for interpolative fitting and for a guess that is evaluated on it.
pub open spec fn grid_plan(c: Control, is_dfa_scf: bool) -> GridPlan {
    if !(is_dfa_scf || c.use_isdf || c.initial_guess == InitialGuess::Vsap) {
        GridPlan::Nothing
    } else if crate::binary64::zero().below(c.ao_cutoff) {
        GridPlan::Sparse
    } else {
        GridPlan::Dense
    }
}

impl SCF {
    /// Decides whether an integration grid is built, and how it is tabulated.
    pub fn prepare_density_grids(&self) -> (r: GridPlan)
        ensures
            r == grid_plan(self.ctrl, self.mol.is_dfa_scf),
    {
        if self.mol.is_dfa_scf || self.ctrl.use_isdf || matches!(
            self.ctrl.initial_guess,
            InitialGuess::Vsap
        ) {
            if self.ctrl.ao_cutoff.gt(Real { bits: 0 }) {
                GridPlan::Sparse
            } else {
                GridPlan::Dense
            }
        } else {
            GridPlan::Nothing
        }
    }
}

/// Whether the full tables of a grid are dropped.
pub open spec fn dense_dropped(c: Control, is_dfa_scf: bool, compressed: bool) -> bool {
    grid_plan(c, is_dfa_scf) != GridPlan::Nothing && c.drop_dense_ao && compressed
}

impl SCF {
    /// Whether the full tables of a grid are dropped, given whether there are compressed
    /// ones by now.
    pub fn drops_dense_tables(&self, compressed: bool) -> (b: bool)
        ensures
            b == dense_dropped(self.ctrl, self.mol.is_dfa_scf, compressed),
    {
        match self.prepare_density_grids() {
            GridPlan::Nothing => false,
            _ => self.ctrl.drop_dense_ao && compressed,
        }
    }
}

/// What the interpolative density fitting prepares. A density from the core Hamiltonian
/// comes first, by which the grid is pruned.
#[derive(Clone, Copy, Debug, PartialEq, Eq, Structural)]
pub struct IsdfPlan {
    /// Both channels start from the core Hamiltonian; otherwise the second is left blank.
    pub both_channels: bool,
    /// Fitted three-centre integrals.
    pub ri3fn_isdf: bool,
    /// Interpolation tables.
    pub tables: bool,
}

/// What the interpolative density fitting prepares; `None` when it is not in use.
pub open spec fn isdf_plan(c: Control, mol: Molecule) -> Option<IsdfPlan> {
    if mol.use_eri && c.eri_type == EriType::RiV && c.use_isdf {
        Some(
            IsdfPlan {
                both_channels: mol.spin_channel != 1,
                ri3fn_isdf: c.use_auxbas && !c.use_ri_symm && !c.isdf_new,
                tables: c.isdf_new,
            },
        )
    } else {
        None
    }
}

impl SCF {
    /// Decides what the interpolative density fitting prepares.
    pub fn prepare_isdf(&self) -> (r: Option<IsdfPlan>)
        ensures
            r == isdf_plan(self.ctrl, self.mol),
    {
        let c: Control = self.ctrl;
        let isdf: bool = self.mol.use_eri && matches!(c.eri_type, EriType::RiV) && c.use_isdf;
        if !isdf {
            return None;
        }
        let full: bool = c.use_auxbas && !c.use_ri_symm;
        Some(
            IsdfPlan {
                both_channels: self.mol.spin_channel != 1,
                ri3fn_isdf: full && !c.isdf_new,
                tables: c.isdf_new,
            },
        )
    }
}

/// One piece of work of the interpolative density fitting.
#[derive(Clone, Copy, Debug, PartialEq, Eq, Structural)]
pub enum IsdfStep {
    /// Take the core Hamiltonian as the Fock matrix of the first channel only, or of both.
    CoreFock { both: bool },
    /// Diagonalize; the number of states found is taken over.
    Diagonalize,
    Occupy,
    BuildDensity,
    /// Drop grid points where the density is small.
    PruneGrid,
    /// Fit the three-centre integrals on the pruned grid.
    FitIntegrals,
    /// Tabulate interpolation vectors on the pruned grid.
    Tabulate,
}

/// The work of the interpolative density fitting, in order.
pub open spec fn isdf_work(p: IsdfPlan) -> Seq<IsdfStep> {
    let guess = seq![
        IsdfStep::CoreFock { both: p.both_channels },
        IsdfStep::Diagonalize,
        IsdfStep::Occupy,
        IsdfStep::BuildDensity,
        IsdfStep::PruneGrid,
    ];
    let fit: Seq<IsdfStep> = if p.ri3fn_isdf {
        seq![IsdfStep::FitIntegrals]
    } else {
        seq![]
    };
    let tabulate: Seq<IsdfStep> = if p.tables {
        seq![IsdfStep::Tabulate]
    } else {
        seq![]
    };
    guess + fit + tabulate
}

/// Lists the work of the interpolative density fitting.
pub fn isdf_steps(p: IsdfPlan) -> (r: Vec<IsdfStep>)
    ensures
        r@ == isdf_work(p),
{
    let mut r: Vec<IsdfStep> = Vec::new();
    r.push(IsdfStep::CoreFock { both: p.both_channels });
    r.push(IsdfStep::Diagonalize);
    r.push(IsdfStep::Occupy);
    r.push(IsdfStep::BuildDensity);
    r.push(IsdfStep::PruneGrid);
    if p.ri3fn_isdf {
        r.push(IsdfStep::FitIntegrals);
    }
    if p.tables {
        r.push(IsdfStep::Tabulate);
    }
    assert(r@ =~= isdf_work(p));
    r
}

/// What is prepared before the initial guess, in this order.
#[derive(Clone, Copy, Debug, PartialEq, Eq, Structural)]
pub struct Preparation {
    pub integrals: IntegralPlan,
    pub grids: GridPlan,
    /// The cavity of the solvent is built.
    pub solvent: bool,
    pub isdf: Option<IsdfPlan>,
}

/// What is prepared for a calculation with resolved algorithms.
pub open spec fn preparation(c: Control, mol: Molecule, a: AlgorithmJK) -> Preparation {
    Preparation {
        integrals: integral_plan(c, mol, a),
        grids: grid_plan(c, mol.is_dfa_scf),
        solvent: c.solvent_enabled,
        isdf: isdf_plan(c, mol),
    }
}

/// Resolves the algorithms of a calculation and decides what is prepared for it.
/// `available` is what is left of the memory limit in bytes.
pub fn initialize_scf(scf: &mut SCF, available: i128) -> (p: Preparation)
    requires
        old(scf).mol.num_basis * old(scf).mol.num_basis * old(scf).mol.num_auxbas <= usize::MAX,
    ensures
        final(scf).algorithm_jk == resolve_jk(
            old(scf).ctrl.algorithm_jk,
            ri_fits(
                available as int,
                old(scf).mol.num_basis as int,
                old(scf).mol.num_auxbas as int,
                old(scf).mol.is_rsh,
            ),
        ),
        final(scf).ctrl == old(scf).ctrl,
        final(scf).mol == old(scf).mol,
        final(scf).scftype == old(scf).scftype,
        final(scf).homo == old(scf).homo,
        final(scf).lumo == old(scf).lumo,
        p == preparation(final(scf).ctrl, final(scf).mol, final(scf).algorithm_jk),
{
    scf.update_jk_algorithms(available);
    Preparation {
        integrals: scf.prepare_necessary_integrals(),
        grids: scf.prepare_density_grids(),
        solvent: scf.prepare_solvent_calculation(),
        isdf: scf.prepare_isdf(),
    }
}

impl SCF {
    /// Whether the cavity of a solvent is prepared.
    pub fn prepare_solvent_calculation(&self) -> (b: bool)
        ensures
            b == self.ctrl.solvent_enabled,
    {
        self.ctrl.solvent_enabled
    }

    /// A calculation, and what is prepared for it.
    pub fn build(mol: Molecule, ctrl: Control, available: i128) -> (r: (SCF, Preparation))
        requires
            mol.num_basis * mol.num_basis * mol.num_auxbas <= usize::MAX,
        ensures
            r.0.scftype == scf_type(
                equal_numbers(mol.num_alpha, mol.num_beta),
                ctrl.spin_polarization,
            ),
            r.0.mol == (Molecule {
                spin_channel: channels_of(r.0.scftype, mol.spin_channel),
                ..mol
            }),
            r.0.ctrl == ctrl,
            r.0.algorithm_jk == resolve_jk(
                ctrl.algorithm_jk,
                ri_fits(
                    available as int,
                    mol.num_basis as int,
                    mol.num_auxbas as int,
                    mol.is_rsh,
                ),
            ),
            r.0.homo@ == seq![0usize, 0usize],
            r.0.lumo@ == seq![0usize, 0usize],
            r.1 == preparation(ctrl, r.0.mol, r.0.algorithm_jk),
    {
        let mut scf: SCF = SCF::init_scf(mol, ctrl);
        let p: Preparation = initialize_scf(&mut scf, available);
        (scf, p)
    }
}

/// Interpolative fitting is never prepared without the integration grid that it reads.
pub proof fn law_fitting_has_grid(c: Control, mol: Molecule, a: AlgorithmJK)
    ensures
        preparation(c, mol, a).isdf is Some ==> preparation(c, mol, a).grids != GridPlan::Nothing,
{
}

/// Spin polarization makes a calculation unrestricted, whatever its electrons. Without it, equal
/// numbers of electrons make a closed shell and different ones a restricted open shell, which
/// alone treats two spins whatever is asked for.
pub proof fn law_scf_type(same_spins: bool, spin_polarization: bool, asked: usize)
    ensures
        ({
            let t = scf_type(same_spins, spin_polarization);
            &&& t == SCFType::UHF <==> spin_polarization
            &&& t == SCFType::RHF <==> !spin_polarization && same_spins
            &&& t == SCFType::ROHF <==> !spin_polarization && !same_spins
            &&& t == SCFType::ROHF ==> channels_of(t, asked) == 2
            &&& t != SCFType::ROHF ==> channels_of(t, asked) == asked
        }),
{
}

/// Two numbers are equal exactly when neither is below the other, and what is no number equals
/// nothing, itself neither; the order of the two does not matter.
pub proof fn law_equal_numbers(a: Real, b: Real)
    ensures
        equal_numbers(a, b) <==> !a.nan() && !b.nan() && !a.below(b) && !b.below(a),
        equal_numbers(a, b) == equal_numbers(b, a),
        equal_numbers(a, a) <==> !a.nan(),
        equal_numbers(Real { bits: 0 }, Real { bits: 0x8000_0000_0000_0000 }),
{
}

/// One keyword names the superposition of potentials, two name an evaluation of integrals, in
/// lower case, and no other text does.
pub proof fn law_setup_keywords(keyword: Seq<char>)
    ensures
        guess_of(keyword) == InitialGuess::Vsap <==> keyword == "vsap"@,
        eri_of(keyword) == EriType::Analytic <==> keyword == "analytic"@,
        eri_of(keyword) == EriType::RiV <==> keyword == "ri_v"@,
{
    reveal_strlit("vsap");
    reveal_strlit("analytic");
    reveal_strlit("ri_v");
    assert("analytic"@.len() == 8 && "ri_v"@.len() == 4);
}

/// A pair of algorithms gives the Coulomb matrix its first and the exchange matrix its second;
/// a single one gives both the same.
pub proof fn law_parts(a: AlgorithmJK, j: AlgorithmJ, k: AlgorithmK)
    ensures
        part_j(AlgorithmJK::Separated(j, k)) == j,
        part_k(AlgorithmJK::Separated(j, k)) == k,
        !(a is Separated) ==> {
            &&& part_j(a) == AlgorithmJ::Default <==> a == AlgorithmJK::Default
            &&& part_j(a) == AlgorithmJ::Ri <==> a == AlgorithmJK::Ri
            &&& part_j(a) == AlgorithmJ::RiIncore <==> a == AlgorithmJK::RiIncore
            &&& part_j(a) == AlgorithmJ::RiDirect <==> a == AlgorithmJK::RiDirect
            &&& part_j(a) == AlgorithmJ::Other <==> a == AlgorithmJK::Other
            &&& part_k(a) == AlgorithmK::Default <==> a == AlgorithmJK::Default
            &&& part_k(a) == AlgorithmK::Ri <==> a == AlgorithmJK::Ri
            &&& part_k(a) == AlgorithmK::RiIncore <==> a == AlgorithmJK::RiIncore
            &&& part_k(a) == AlgorithmK::RiDirect <==> a == AlgorithmJK::RiDirect
            &&& part_k(a) == AlgorithmK::Other <==> a == AlgorithmJK::Other
        },
{
}

/// Where the input leaves the choice open, integrals are kept in memory exactly when they fit,
/// and computed in batches otherwise, for the Coulomb matrix and for the exchange matrix alike;
/// a choice of the input stands whether or not they fit. Separate algorithms stay separate.
pub proof fn law_memory_decides(a: AlgorithmJK, fits: bool)
    ensures
        ({
            let r = resolve_jk(a, fits);
            let open_j = part_j(a) == AlgorithmJ::Default || part_j(a) == AlgorithmJ::Ri;
            let open_k = part_k(a) == AlgorithmK::Default || part_k(a) == AlgorithmK::Ri;
            &&& part_j(r) == AlgorithmJ::RiIncore <==> part_j(a) == AlgorithmJ::RiIncore || (open_j
                && fits)
            &&& part_j(r) == AlgorithmJ::RiDirect <==> part_j(a) == AlgorithmJ::RiDirect || (open_j
                && !fits)
            &&& part_k(r) == AlgorithmK::RiIncore <==> part_k(a) == AlgorithmK::RiIncore || (open_k
                && fits)
            &&& part_k(r) == AlgorithmK::RiDirect <==> part_k(a) == AlgorithmK::RiDirect || (open_k
                && !fits)
            &&& r is Separated <==> a is Separated
        }),
{
}

/// Each auxiliary function takes eight bytes for each pair of basis functions, and twice as many
/// when short-range integrals are kept too.
pub proof fn law_ri_bytes(nao: int, naux: int, rsh: bool)
    ensures
        ri_bytes(nao, naux, true) == 2 * ri_bytes(nao, naux, false),
        ri_bytes(nao, naux + 1, false) == ri_bytes(nao, naux, false) + 8 * (nao * nao),
        ri_bytes(nao, 0, rsh) == 0,
{
    let p = nao * nao;
    assert(p * (naux + 1) == p * naux + p) by (nonlinear_arith);
    assert(p * 0 == 0);
}

/// Integrals fit exactly when what they take is available, to the byte: with more memory they
/// still fit, and with none to spare they do.
pub proof fn law_ri_fits(available: int, more: int, nao: int, naux: int, rsh: bool)
    ensures
        ri_fits(ri_bytes(nao, naux, rsh), nao, naux, rsh),
        !ri_fits(ri_bytes(nao, naux, rsh) - 1, nao, naux, rsh),
        ri_fits(available, nao, naux, rsh) && available <= more ==> ri_fits(more, nao, naux, rsh),
{
}

/// Integrals are kept in memory exactly when one of the two matrices is made from kept ones, be
/// it by a common algorithm or by one of two separate ones.
pub proof fn law_keeps_integrals(a: AlgorithmJK, j: AlgorithmJ, k: AlgorithmK)
    ensures
        keeps_integrals(AlgorithmJK::RiIncore),
        keeps_integrals(AlgorithmJK::Separated(AlgorithmJ::RiIncore, k)),
        keeps_integrals(AlgorithmJK::Separated(j, AlgorithmK::RiIncore)),
        j != AlgorithmJ::RiIncore && k != AlgorithmK::RiIncore ==> !keeps_integrals(
            AlgorithmJK::Separated(j, k),
        ),
        !(a is Separated) && a != AlgorithmJK::RiIncore ==> !keeps_integrals(a),
{
}

/// Four-centre integrals are made exactly without an auxiliary basis. Three-centre integrals
/// are made for kept algorithms with one, with pair symmetry or in full as asked for, unless
/// interpolation takes their place; interpolation for the exchange alone needs the full ones in
/// any case.
pub proof fn law_integrals(c: Control, mol: Molecule, a: AlgorithmJK)
    ensures
        ({
            let p = integral_plan(c, mol, a);
            let replaced = c.use_isdf && c.eri_type == EriType::RiV;
            let made = keeps_integrals(a) && c.use_auxbas && !replaced;
            &&& p.ijkl <==> !c.use_auxbas
            &&& p.rimatr <==> made && c.use_ri_symm
            &&& p.ri3fn <==> c.isdf_k_only || (made && !c.use_ri_symm)
            &&& !keeps_integrals(a) ==> !p.rimatr && !p.rimatr_sr && !p.ri3fn_sr
            &&& p.ri3fn && p.rimatr ==> c.isdf_k_only
        }),
{
}

/// Short-range integrals are made exactly for a range-separated hybrid with kept integrals, in
/// one of the two formats: with pair symmetry exactly where an auxiliary basis with pair
/// symmetry is in use. Interpolation does not replace them.
pub proof fn law_short_range_integrals(c: Control, mol: Molecule, a: AlgorithmJK)
    ensures
        ({
            let p = integral_plan(c, mol, a);
            &&& p.ri3fn_sr || p.rimatr_sr <==> mol.is_rsh && keeps_integrals(a)
            &&& !(p.ri3fn_sr && p.rimatr_sr)
            &&& p.rimatr_sr <==> mol.is_rsh && keeps_integrals(a) && c.use_auxbas && c.use_ri_symm
        }),
{
}

/// The core Hamiltonian holds what the molecule and the input bring: ghost potentials and point
/// charges where there is at least one, a field, a relativistic correction. The dispersion
/// correction of a functional goes before one that is asked for.
pub proof fn law_core_terms(c: Control, mol: Molecule, a: AlgorithmJK)
    ensures
        ({
            let p = integral_plan(c, mol, a);
            &&& p.dispersion == Dispersion::Functional <==> mol.has_dispersion
            &&& p.dispersion == Dispersion::Requested <==> !mol.has_dispersion
                && c.empirical_dispersion
            &&& p.dispersion == Dispersion::Nothing <==> !mol.has_dispersion
                && !c.empirical_dispersion
            &&& p.relativistic_core <==> c.sfx2c
            &&& p.ghost_potential <==> mol.ghost_potentials >= 1
            &&& p.point_charges <==> mol.point_charges >= 1
            &&& p.external_field <==> mol.external_field
        }),
{
}

/// A grid is needed for a density functional, for interpolation and for the superposition of
/// potentials, and for nothing else; its tables are sparse exactly at a positive cutoff. They
/// are dropped only where there are tables, compressed ones among them, and dropping was asked
/// for.
pub proof fn law_grids(c: Control, is_dfa_scf: bool, compressed: bool)
    ensures
        ({
            let g = grid_plan(c, is_dfa_scf);
            let needed = is_dfa_scf || c.use_isdf || c.initial_guess == InitialGuess::Vsap;
            &&& g != GridPlan::Nothing <==> needed
            &&& g == GridPlan::Sparse <==> needed && 0 < c.ao_cutoff.bits <= 0x7ff0_0000_0000_0000
            &&& dense_dropped(c, is_dfa_scf, compressed) <==> needed && c.drop_dense_ao && compressed
        }),
{
}

/// Interpolation is prepared exactly where it is asked for with resolution of the identity in a
/// calculation with electron repulsion. It keeps tables, or fits full integrals where an
/// auxiliary basis has no pair symmetry, never both; one channel is left blank exactly when
/// there is one spin.
pub proof fn law_interpolation(c: Control, mol: Molecule)
    ensures
        ({
            let p = isdf_plan(c, mol);
            &&& p is Some <==> mol.use_eri && c.use_isdf && c.eri_type == EriType::RiV
            &&& p is Some ==> {
                let q = p->0;
                &&& q.tables <==> c.isdf_new
                &&& q.ri3fn_isdf <==> c.use_auxbas && !c.use_ri_symm && !c.isdf_new
                &&& !(q.tables && q.ri3fn_isdf)
                &&& !q.both_channels <==> mol.spin_channel == 1
            }
        }),
{
}

/// Interpolation starts from a guess: the core Hamiltonian, its orbitals, their occupations, the
/// density and the points that it needs, in this order. Only then are integrals fitted and
/// tables made, each exactly where it is planned.
pub proof fn law_interpolation_steps(p: IsdfPlan)
    ensures
        ({
            let w = isdf_work(p);
            &&& w.len() >= 5
            &&& w[0] == IsdfStep::CoreFock { both: p.both_channels }
            &&& w[1] == IsdfStep::Diagonalize && w[2] == IsdfStep::Occupy
            &&& w[3] == IsdfStep::BuildDensity && w[4] == IsdfStep::PruneGrid
            &&& w.contains(IsdfStep::FitIntegrals) <==> p.ri3fn_isdf
            &&& w.contains(IsdfStep::Tabulate) <==> p.tables
            &&& w.len() == 5 + (if p.ri3fn_isdf { 1int } else { 0 }) + (if p.tables { 1int } else {
                0
            })
            &&& p.tables ==> w[w.len() - 1] == IsdfStep::Tabulate
        }),
{
    let w = isdf_work(p);
    if p.ri3fn_isdf {
        assert(w.contains(w[5]));
    }
    if p.tables {
        assert(w.contains(w[w.len() - 1]));
    }
}

/// A calculation prepares what its own parts plan, and a solvent exactly where one is asked for.
pub proof fn law_preparation(c: Control, mol: Molecule, a: AlgorithmJK)
    ensures
        preparation(c, mol, a).integrals == integral_plan(c, mol, a),
        preparation(c, mol, a).grids == grid_plan(c, mol.is_dfa_scf),
        preparation(c, mol, a).isdf == isdf_plan(c, mol),
        preparation(c, mol, a).solvent <==> c.solvent_enabled,
{
}

/// There are fewer states only when eigenvectors are lost; otherwise their number stays.
pub proof fn law_usable_states(found: usize, basis_functions: usize, num_state: usize)
    ensures
        found >= basis_functions ==> usable_states(found, basis_functions, num_state) == num_state,
        found < basis_functions ==> usable_states(found, basis_functions, num_state) == found,
{
}

/// A Bethe-Salpeter calculation prepares integrals exactly when it is asked for together with
/// its own auxiliary basis, with pair symmetry exactly when the others have it.
pub proof fn law_bse_integrals(c: Control)
    ensures
        bse_plan(c) != BseIntegrals::Nothing <==> c.quasiparticle_methods && c.bse_auxbas,
        bse_plan(c) == BseIntegrals::Rimatr <==> c.quasiparticle_methods && c.bse_auxbas
            && c.use_ri_symm,
{
}

} // verus!
