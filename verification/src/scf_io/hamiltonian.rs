//! Which kernels make up the Fock matrix, and the batches of the direct ones.

use crate::binary64::{zero, Real};
use crate::scf_io::setup::{
    integral_plan, part_j, part_k, preparation, resolve_jk, AlgorithmJ, AlgorithmJK, AlgorithmK,
    Control, EriType, Molecule, Preparation, SCFType, SCF,
};
use vstd::prelude::*;

verus! {

/// Kernel for the Coulomb matrix.
#[derive(Clone, Copy, Debug, PartialEq, Eq, Structural)]
pub enum CoulombKernel {
    /// From four-centre integrals.
    Analytic,
    /// From three-centre integrals stored with pair symmetry.
    Rimatr,
    /// From three-centre integrals stored in full.
    Ri3fn,
    /// From interpolated three-centre integrals.
    Ri3fnIsdf,
    /// From three-centre integrals computed in batches.
    Direct,
}

/// Kernel for the exchange matrix.
#[derive(Clone, Copy, Debug, PartialEq, Eq, Structural)]
pub enum ExchangeKernel {
    Analytic,
    RimatrDensity,
    RimatrOrbitals,
    Ri3fnDensity,
    Ri3fnOrbitals,
    IsdfDensity,
    IsdfOrbitals,
    /// From interpolation tables.
    IsdfTables,
    Direct,
    /// From short-range integrals stored with pair symmetry.
    ShortRimatr,
    /// From short-range integrals stored in full.
    ShortRi3fn,
    /// From short-range integrals computed in batches, for the negative range parameter.
    ShortDirect,
}

/// The Coulomb kernel for three-centre integrals in memory.
pub open spec fn incore_coulomb(c: Control) -> CoulombKernel {
    if c.use_ri_symm {
        CoulombKernel::Rimatr
    } else if c.use_isdf && !c.isdf_k_only && !c.isdf_new {
        CoulombKernel::Ri3fnIsdf
    } else {
        CoulombKernel::Ri3fn
    }
}

/// The exchange kernel for three-centre integrals in memory.
pub open spec fn incore_exchange(c: Control, dm_only: bool) -> ExchangeKernel {
    if c.use_ri_symm {
        if dm_only {
            ExchangeKernel::RimatrDensity
        } else {
            ExchangeKernel::RimatrOrbitals
        }
    } else if c.isdf_new {
        ExchangeKernel::IsdfTables
    } else if dm_only {
        ExchangeKernel::Ri3fnDensity
    } else {
        ExchangeKernel::Ri3fnOrbitals
    }
}

/// The exchange kernel for interpolated integrals.
pub open spec fn isdf_exchange(c: Control) -> ExchangeKernel {
    if c.use_ri_symm {
        ExchangeKernel::RimatrDensity
    } else if c.use_dm_only {
        ExchangeKernel::IsdfDensity
    } else {
        ExchangeKernel::IsdfOrbitals
    }
}

/// The Coulomb algorithm is one of the two with a kernel here.
pub open spec fn coulomb_resolved(a: AlgorithmJK) -> bool {
    part_j(a) == AlgorithmJ::RiIncore || part_j(a) == AlgorithmJ::RiDirect
}

/// The exchange algorithm is one of the two with a kernel here.
pub open spec fn exchange_resolved(a: AlgorithmJK) -> bool {
    part_k(a) == AlgorithmK::RiIncore || part_k(a) == AlgorithmK::RiDirect
}

/// The Coulomb kernel of the chosen algorithm.
pub open spec fn coulomb_of(c: Control, a: AlgorithmJK) -> CoulombKernel {
    if part_j(a) == AlgorithmJ::RiIncore {
        incore_coulomb(c)
    } else {
        CoulombKernel::Direct
    }
}

/// The exchange kernel of the chosen algorithm.
pub open spec fn exchange_of(c: Control, a: AlgorithmJK) -> ExchangeKernel {
    if part_k(a) == AlgorithmK::RiIncore {
        incore_exchange(c, c.use_dm_only)
    } else {
        ExchangeKernel::Direct
    }
}

impl SCF {
    /// Selects the Coulomb kernel for integrals in memory.
    pub fn generate_vj_with_ri_v_sync(&self) -> (k: CoulombKernel)
        ensures
            k == incore_coulomb(self.ctrl),
    {
        if self.ctrl.use_ri_symm {
            CoulombKernel::Rimatr
        } else if self.ctrl.use_isdf && !self.ctrl.isdf_k_only && !self.ctrl.isdf_new {
            CoulombKernel::Ri3fnIsdf
        } else {
            CoulombKernel::Ri3fn
        }
    }

    /// Selects the exchange kernel for integrals in memory.
    pub fn generate_vk_with_ri_v(&self, use_dm_only: bool) -> (k: ExchangeKernel)
        ensures
            k == incore_exchange(self.ctrl, use_dm_only),
    {
        if self.ctrl.use_ri_symm {
            if use_dm_only {
                ExchangeKernel::RimatrDensity
            } else {
                ExchangeKernel::RimatrOrbitals
            }
        } else if self.ctrl.isdf_new {
            ExchangeKernel::IsdfTables
        } else if use_dm_only {
            ExchangeKernel::Ri3fnDensity
        } else {
            ExchangeKernel::Ri3fnOrbitals
        }
    }

    /// Selects the exchange kernel for interpolated integrals.
    pub fn generate_vk_with_isdf(&self) -> (k: ExchangeKernel)
        ensures
            k == isdf_exchange(self.ctrl),
    {
        if self.ctrl.use_ri_symm {
            ExchangeKernel::RimatrDensity
        } else if self.ctrl.use_dm_only {
            ExchangeKernel::IsdfDensity
        } else {
            ExchangeKernel::IsdfOrbitals
        }
    }

    /// Selects the Coulomb kernel of the chosen algorithm.
    pub fn coulomb_kernel(&self) -> (k: CoulombKernel)
        requires
            coulomb_resolved(self.algorithm_jk),
        ensures
            k == coulomb_of(self.ctrl, self.algorithm_jk),
    {
        match self.algorithm_jk {
            AlgorithmJK::RiIncore => self.generate_vj_with_ri_v_sync(),
            AlgorithmJK::Separated(AlgorithmJ::RiIncore, _) => self.generate_vj_with_ri_v_sync(),
            _ => CoulombKernel::Direct,
        }
    }

    /// Selects the exchange kernel of the chosen algorithm.
    pub fn exchange_kernel(&self) -> (k: ExchangeKernel)
        requires
            exchange_resolved(self.algorithm_jk),
        ensures
            k == exchange_of(self.ctrl, self.algorithm_jk),
    {
        match self.algorithm_jk {
            AlgorithmJK::RiIncore => self.generate_vk_with_ri_v(self.ctrl.use_dm_only),
            AlgorithmJK::Separated(_, AlgorithmK::RiIncore) => self.generate_vk_with_ri_v(
                self.ctrl.use_dm_only,
            ),
            _ => ExchangeKernel::Direct,
        }
    }
}

/// The kernels of a Hartree-Fock matrix.
#[derive(Clone, Copy, Debug, PartialEq, Eq, Structural)]
pub struct HfPlan {
    pub coulomb: CoulombKernel,
    pub exchange: ExchangeKernel,
    /// The exchange is subtracted with half weight rather than with full weight.
    pub half: bool,
    /// The effective matrix of a restricted open-shell calculation is formed.
    pub roothaan: bool,
}

/// The kernels of a Hartree-Fock matrix with resolution of the identity.
pub open spec fn hf_plan(c: Control, a: AlgorithmJK, scftype: SCFType) -> HfPlan {
    HfPlan {
        coulomb: if c.isdf_new {
            CoulombKernel::Direct
        } else {
            coulomb_of(c, a)
        },
        exchange: if c.isdf_new {
            ExchangeKernel::IsdfTables
        } else if c.use_isdf {
            isdf_exchange(c)
        } else {
            exchange_of(c, a)
        },
        half: scftype == SCFType::RHF,
        roothaan: scftype == SCFType::ROHF,
    }
}

/// The kernels of a Hartree-Fock matrix that is made from the density alone.
pub open spec fn density_plan(c: Control, scftype: SCFType) -> HfPlan {
    HfPlan {
        coulomb: if c.isdf_new || c.ri_k_only {
            CoulombKernel::Direct
        } else {
            incore_coulomb(c)
        },
        exchange: incore_exchange(c, true),
        half: scftype == SCFType::RHF,
        roothaan: scftype == SCFType::ROHF,
    }
}

impl SCF {
    /// Selects the kernels of a Hartree-Fock matrix with resolution of the identity.
    pub fn generate_hf_hamiltonian_ri_v(&self) -> (p: HfPlan)
        requires
            !self.ctrl.isdf_new ==> coulomb_resolved(self.algorithm_jk),
            !self.ctrl.isdf_new && !self.ctrl.use_isdf ==> exchange_resolved(self.algorithm_jk),
        ensures
            p == hf_plan(self.ctrl, self.algorithm_jk, self.scftype),
    {
        let c: Control = self.ctrl;
        let coulomb: CoulombKernel = if c.isdf_new {
            CoulombKernel::Direct
        } else {
            self.coulomb_kernel()
        };
        let exchange: ExchangeKernel = if c.use_isdf && !c.isdf_new {
            self.generate_vk_with_isdf()
        } else if c.isdf_new {
            ExchangeKernel::IsdfTables
        } else {
            self.exchange_kernel()
        };
        HfPlan {
            coulomb,
            exchange,
            half: half_exchange(self.scftype),
            roothaan: matches!(self.scftype, SCFType::ROHF),
        }
    }

    /// Selects the kernels of a Hartree-Fock matrix that is made from the density alone, as
    /// the initial guess needs it.
    pub fn generate_hf_hamiltonian_ri_v_dm_only(&self) -> (p: HfPlan)
        ensures
            p == density_plan(self.ctrl, self.scftype),
    {
        let coulomb: CoulombKernel = if self.ctrl.isdf_new || self.ctrl.ri_k_only {
            CoulombKernel::Direct
        } else {
            self.generate_vj_with_ri_v_sync()
        };
        HfPlan {
            coulomb,
            exchange: self.generate_vk_with_ri_v(true),
            half: half_exchange(self.scftype),
            roothaan: matches!(self.scftype, SCFType::ROHF),
        }
    }
}

/// Which exchange a term of a Kohn-Sham matrix is.
#[derive(Clone, Copy, Debug, PartialEq, Eq, Structural)]
pub enum ExchangePart {
    /// Exchange over the whole range, scaled by the hybrid fraction.
    Plain,
    /// Exchange over the whole range of a range-separated hybrid.
    Full,
    /// The short-range part of a range-separated hybrid.
    ShortRange,
}

/// The fraction of exact exchange that a factor is made from.
#[derive(Clone, Copy, Debug, PartialEq, Eq, Structural)]
pub enum ExchangeFraction {
    /// The hybrid fraction.
    Hybrid,
    /// The fraction of the whole range, alpha.
    Alpha,
    /// Alpha less the hybrid fraction.
    AlphaLessHybrid,
}

/// The factor of an exchange matrix: a fraction, negative or not, halved or not.
#[derive(Clone, Copy, Debug, PartialEq, Eq, Structural)]
pub struct ExchangeFactor {
    pub fraction: ExchangeFraction,
    pub negative: bool,
    pub half: bool,
}

/// The factor of a part of the exchange. Exchange lowers the Fock matrix, by half as much
/// when the density holds both spins. With a range-separated hybrid the whole range counts
/// with alpha, and the short range is given back where alpha exceeds the hybrid fraction.
pub open spec fn factor_of(part: ExchangePart, t: SCFType) -> ExchangeFactor {
    let half = t == SCFType::RHF;
    match part {
        ExchangePart::Plain => ExchangeFactor {
            fraction: ExchangeFraction::Hybrid,
            negative: true,
            half,
        },
        ExchangePart::Full => ExchangeFactor {
            fraction: ExchangeFraction::Alpha,
            negative: true,
            half,
        },
        ExchangePart::ShortRange => ExchangeFactor {
            fraction: ExchangeFraction::AlphaLessHybrid,
            negative: false,
            half,
        },
    }
}

impl SCF {
    /// The factor of a part of the exchange.
    pub fn exchange_factor(&self, part: ExchangePart) -> (f: ExchangeFactor)
        ensures
            f == factor_of(part, self.scftype),
    {
        let half: bool = half_exchange(self.scftype);
        match part {
            ExchangePart::Plain => ExchangeFactor {
                fraction: ExchangeFraction::Hybrid,
                negative: true,
                half,
            },
            ExchangePart::Full => ExchangeFactor {
                fraction: ExchangeFraction::Alpha,
                negative: true,
                half,
            },
            ExchangePart::ShortRange => ExchangeFactor {
                fraction: ExchangeFraction::AlphaLessHybrid,
                negative: false,
                half,
            },
        }
    }
}

/// Twice the value of a factor, for fractions given in whole units.
pub open spec fn doubled_factor(f: ExchangeFactor, hybrid: int, alpha: int) -> int {
    let x = match f.fraction {
        ExchangeFraction::Hybrid => hybrid,
        ExchangeFraction::Alpha => alpha,
        ExchangeFraction::AlphaLessHybrid => alpha - hybrid,
    };
    let y = if f.negative { -x } else { x };
    if f.half {
        y
    } else {
        y + y
    }
}

/// An exchange term: its part with the factor, and its kernel if there are integrals for it.
#[derive(Clone, Copy, Debug, PartialEq, Eq, Structural)]
pub struct ExchangeTerm {
    pub part: ExchangePart,
    pub factor: ExchangeFactor,
    pub kernel: ExchangeKernel,
}

/// How the exchange-correlation potential is evaluated.
#[derive(Clone, Copy, Debug, PartialEq, Eq, Structural)]
pub enum XcKernel {
    Nothing,
    Density,
    Orbitals,
}

/// How the exchange-correlation potential of a number of components is evaluated.
pub open spec fn xc_of(components: usize, dm_only: bool) -> XcKernel {
    if components == 0 {
        XcKernel::Nothing
    } else if dm_only {
        XcKernel::Density
    } else {
        XcKernel::Orbitals
    }
}

/// Whether the effective matrix of a restricted open-shell calculation is formed.
pub open spec fn needs_effective(t: SCFType) -> bool {
    t == SCFType::ROHF
}

/// Whether the solvent's potential is added to a Kohn-Sham matrix.
pub open spec fn adds_solvent(enabled: bool, potential: bool) -> bool {
    enabled && potential
}

/// The scaling factors of the exchange in a Kohn-Sham matrix.
#[derive(Clone, Copy, Debug, PartialEq, Eq, Structural)]
pub enum ExchangeScaling {
    /// A global hybrid with this factor.
    Global(Real),
    /// A range-separated hybrid with these factors of the full and of the short range.
    Separated { full: Real, short: Real },
}

/// What a Kohn-Sham matrix depends on besides the settings.
#[derive(Clone, Copy, Debug, PartialEq, Eq, Structural)]
pub struct KsInput {
    pub scaling: ExchangeScaling,
    /// Short-range integrals stored with pair symmetry exist.
    pub rimatr_sr: bool,
    /// Short-range integrals stored in full exist.
    pub ri3fn_sr: bool,
    /// A solvent potential of an earlier step exists.
    pub solvent_potential: bool,
}

/// The parts of a Kohn-Sham matrix.
pub struct KsPlan {
    pub coulomb: CoulombKernel,
    pub exchange: Vec<ExchangeTerm>,
    pub xc: XcKernel,
    pub roothaan: bool,
    pub solvent: bool,
}

/// The pattern of 1e-10, up to which the parts of range-separated exchange are left out.
pub const SCALING_FLOOR: u64 = 0x3ddb_7cdf_d9d7_bdbb;

/// Whether a part of range-separated exchange is large enough to matter.
pub open spec fn matters(scaling: Real) -> bool {
    (Real { bits: SCALING_FLOOR }).below(Real { bits: scaling.magnitude() as u64 })
}

/// Whether a scaling factor is numerically zero.
pub open spec fn is_zero(scaling: Real) -> bool {
    scaling.at_most(zero()) && zero().at_most(scaling)
}

/// The kernel for the short-range part, where there is one.
pub open spec fn short_kernel(k: KsInput, a: AlgorithmJK) -> Option<ExchangeKernel> {
    if part_k(a) == AlgorithmK::RiDirect {
        Some(ExchangeKernel::ShortDirect)
    } else if k.rimatr_sr {
        Some(ExchangeKernel::ShortRimatr)
    } else if k.ri3fn_sr {
        Some(ExchangeKernel::ShortRi3fn)
    } else {
        None
    }
}

/// Whether an exchange matrix over the whole range is needed.
pub open spec fn needs_full_exchange(scaling: ExchangeScaling) -> bool {
    match scaling {
        ExchangeScaling::Global(s) => !is_zero(s),
        ExchangeScaling::Separated { full, short } => matters(full),
    }
}

/// The exchange terms of a Kohn-Sham matrix from four-centre integrals.
pub open spec fn analytic_exchange(t: SCFType, scaling: Real) -> Seq<ExchangeTerm> {
    if is_zero(scaling) {
        seq![]
    } else {
        seq![exchange_term(ExchangePart::Plain, t, ExchangeKernel::Analytic)]
    }
}

/// The kernels of a Hartree-Fock matrix from four-centre integrals.
pub open spec fn analytic_plan(t: SCFType) -> HfPlan {
    HfPlan {
        coulomb: CoulombKernel::Analytic,
        exchange: ExchangeKernel::Analytic,
        half: t == SCFType::RHF,
        roothaan: t == SCFType::ROHF,
    }
}

/// Whether an exchange matrix over the whole range is needed.
pub fn is_full_exchange_needed(scaling: ExchangeScaling) -> (b: bool)
    ensures
        b == needs_full_exchange(scaling),
{
    match scaling {
        ExchangeScaling::Global(s) => !(s.le(Real { bits: 0 }) && s.ge(Real { bits: 0 })),
        ExchangeScaling::Separated { full, short: _ } => full.abs().gt(
            Real { bits: SCALING_FLOOR },
        ),
    }
}

/// The exchange term of a part with its kernel.
pub open spec fn exchange_term(
    part: ExchangePart,
    t: SCFType,
    kernel: ExchangeKernel,
) -> ExchangeTerm {
    ExchangeTerm { part, factor: factor_of(part, t), kernel }
}

/// The exchange terms of a Kohn-Sham matrix.
pub open spec fn ks_exchange(
    c: Control,
    a: AlgorithmJK,
    t: SCFType,
    k: KsInput,
) -> Seq<ExchangeTerm> {
    match k.scaling {
        ExchangeScaling::Global(s) => if is_zero(s) {
            seq![]
        } else {
            seq![exchange_term(ExchangePart::Plain, t, exchange_of(c, a))]
        },
        ExchangeScaling::Separated { full, short } => {
            let first: Seq<ExchangeTerm> = if matters(full) {
                seq![exchange_term(ExchangePart::Full, t, exchange_of(c, a))]
            } else {
                seq![]
            };
            let second: Seq<ExchangeTerm> = if matters(short) && short_kernel(k, a) is Some {
                seq![exchange_term(ExchangePart::ShortRange, t, short_kernel(k, a)->0)]
            } else {
                seq![]
            };
            first + second
        },
    }
}

impl SCF {
    /// The exchange term of a part with its kernel.
    fn term(&self, part: ExchangePart, kernel: ExchangeKernel) -> (t: ExchangeTerm)
        ensures
            t == exchange_term(part, self.scftype, kernel),
    {
        ExchangeTerm { part, factor: self.exchange_factor(part), kernel }
    }

    /// Selects the parts of a Kohn-Sham matrix with resolution of the identity.
    pub fn generate_ks_hamiltonian_ri_v(&self, k: KsInput) -> (p: KsPlan)
        requires
            coulomb_resolved(self.algorithm_jk),
            needs_full_exchange(k.scaling) ==> exchange_resolved(self.algorithm_jk),
        ensures
            p.coulomb == coulomb_of(self.ctrl, self.algorithm_jk),
            p.exchange@ == ks_exchange(self.ctrl, self.algorithm_jk, self.scftype, k),
            p.xc == xc_of(self.mol.components, self.ctrl.use_dm_only),
            p.roothaan == needs_effective(self.scftype),
            p.solvent == adds_solvent(self.ctrl.solvent_enabled, k.solvent_potential),
    {
        let coulomb: CoulombKernel = self.coulomb_kernel();
        let mut exchange: Vec<ExchangeTerm> = Vec::new();
        match k.scaling {
            ExchangeScaling::Global(s) => {
                let none: bool = s.le(Real { bits: 0 }) && s.ge(Real { bits: 0 });
                if !none {
                    let kernel: ExchangeKernel = self.exchange_kernel();
                    exchange.push(self.term(ExchangePart::Plain, kernel));
                }
            },
            ExchangeScaling::Separated { full, short } => {
                if full.abs().gt(Real { bits: SCALING_FLOOR }) {
                    let kernel: ExchangeKernel = self.exchange_kernel();
                    exchange.push(self.term(ExchangePart::Full, kernel));
                }
                if short.abs().gt(Real { bits: SCALING_FLOOR }) {
                    let kernel: Option<ExchangeKernel> = match self.algorithm_jk {
                        AlgorithmJK::RiDirect => Some(ExchangeKernel::ShortDirect),
                        AlgorithmJK::Separated(_, AlgorithmK::RiDirect) => Some(
                            ExchangeKernel::ShortDirect,
                        ),
                        _ => if k.rimatr_sr {
                            Some(ExchangeKernel::ShortRimatr)
                        } else if k.ri3fn_sr {
                            Some(ExchangeKernel::ShortRi3fn)
                        } else {
                            None
                        },
                    };
                    match kernel {
                        Some(kernel) => {
                            exchange.push(self.term(ExchangePart::ShortRange, kernel));
                        },
                        None => {},
                    }
                }
            },
        }
        assert(exchange@ =~= ks_exchange(self.ctrl, self.algorithm_jk, self.scftype, k));
        let xc: XcKernel = if self.mol.components == 0 {
            XcKernel::Nothing
        } else if self.ctrl.use_dm_only {
            XcKernel::Density
        } else {
            XcKernel::Orbitals
        };
        KsPlan {
            coulomb,
            exchange,
            xc,
            roothaan: matches!(self.scftype, SCFType::ROHF),
            solvent: self.ctrl.solvent_enabled && k.solvent_potential,
        }
    }

    /// Selects the parts of a Kohn-Sham matrix from four-centre integrals.
    pub fn generate_ks_hamiltonian_erifold4(&self, scaling: Real) -> (p: KsPlan)
        ensures
            p.coulomb == CoulombKernel::Analytic,
            p.exchange@ == analytic_exchange(self.scftype, scaling),
            p.xc == xc_of(self.mol.components, false),
            p.roothaan == needs_effective(self.scftype),
            !p.solvent,
    {
        let mut exchange: Vec<ExchangeTerm> = Vec::new();
        let none: bool = scaling.le(Real { bits: 0 }) && scaling.ge(Real { bits: 0 });
        if !none {
            exchange.push(self.term(ExchangePart::Plain, ExchangeKernel::Analytic));
        }
        assert(exchange@ =~= analytic_exchange(self.scftype, scaling));
        KsPlan {
            coulomb: CoulombKernel::Analytic,
            exchange,
            xc: if self.mol.components == 0 {
                XcKernel::Nothing
            } else {
                XcKernel::Orbitals
            },
            roothaan: matches!(self.scftype, SCFType::ROHF),
            solvent: false,
        }
    }

    /// The kernels of a Hartree-Fock matrix from four-centre integrals.
    pub fn generate_hf_hamiltonian_erifold4(&self) -> (p: HfPlan)
        ensures
            p == analytic_plan(self.scftype),
    {
        HfPlan {
            coulomb: CoulombKernel::Analytic,
            exchange: ExchangeKernel::Analytic,
            half: half_exchange(self.scftype),
            roothaan: matches!(self.scftype, SCFType::ROHF),
        }
    }
}

/// Whether the exchange carries half weight: the density of a restricted calculation holds
/// both spins.
pub fn half_exchange(scftype: SCFType) -> (b: bool)
    ensures
        b == (scftype == SCFType::RHF),
{
    matches!(scftype, SCFType::RHF)
}

/// The Fock matrix that a level shift is added to, and the density it is made from.
#[derive(Clone, Copy, Debug, PartialEq, Eq, Structural)]
pub enum ShiftTarget {
    /// The Fock matrix and the density of one spin.
    Channel(usize),
    /// The effective Fock matrix of a restricted open-shell calculation, and the total
    /// density.
    Effective,
}

/// Whether densities count half in a level shift.
pub open spec fn shift_halves(scftype: SCFType) -> bool {
    scftype != SCFType::UHF
}

/// The level shifts of a calculation.
pub open spec fn shift_targets(scftype: SCFType, spin_channel: int) -> Seq<ShiftTarget> {
    match scftype {
        SCFType::RHF => seq![ShiftTarget::Channel(0)],
        SCFType::UHF => Seq::new(spin_channel as nat, |i: int| ShiftTarget::Channel(i as usize)),
        SCFType::ROHF => seq![ShiftTarget::Effective],
    }
}

impl SCF {
    /// The level shifts of a calculation, and whether densities count half because they
    /// hold both spins.
    pub fn level_shifts(&self) -> (r: (Vec<ShiftTarget>, bool))
        ensures
            r.0@ == shift_targets(self.scftype, self.mol.spin_channel as int),
            r.1 == shift_halves(self.scftype),
    {
        let mut targets: Vec<ShiftTarget> = Vec::new();
        match self.scftype {
            SCFType::RHF => {
                targets.push(ShiftTarget::Channel(0));
                assert(targets@ =~= seq![ShiftTarget::Channel(0)]);
                (targets, true)
            },
            SCFType::ROHF => {
                targets.push(ShiftTarget::Effective);
                assert(targets@ =~= seq![ShiftTarget::Effective]);
                (targets, true)
            },
            SCFType::UHF => {
                let mut i: usize = 0;
                while i < self.mol.spin_channel
                    invariant
                        i <= self.mol.spin_channel,
                        targets@ =~= shift_targets(SCFType::UHF, i as int),
                    decreases self.mol.spin_channel - i,
                {
                    targets.push(ShiftTarget::Channel(i));
                    i += 1;
                }
                (targets, false)
            },
        }
    }
}

/// How the Fock matrix is built.
#[derive(Clone, Copy, Debug, PartialEq, Eq, Structural)]
pub enum FockRoute {
    /// Nothing is built: the evaluation of integrals is unknown.
    Nothing,
    HfAnalytic,
    HfRi,
    HfRiDensity,
    KsAnalytic,
    KsRi,
    /// With resolution of the identity, from the density alone.
    KsRiDensity,
}

/// How the Fock matrix of an iteration is built: Hartree-Fock unless there are
/// exchange-correlation components.
pub open spec fn fock_route(components: usize, eri_type: EriType) -> FockRoute {
    if components == 0 {
        match eri_type {
            EriType::Analytic => FockRoute::HfAnalytic,
            EriType::RiV => FockRoute::HfRi,
            EriType::Other => FockRoute::Nothing,
        }
    } else if eri_type == EriType::Analytic {
        FockRoute::KsAnalytic
    } else {
        FockRoute::KsRi
    }
}

/// How the Fock matrix of the initial guess is built: with resolution of the identity it
/// comes from the density alone, as there are no orbitals yet.
pub open spec fn guess_route(components: usize, eri_type: EriType) -> FockRoute {
    match eri_type {
        EriType::Analytic => if components == 0 {
            FockRoute::HfAnalytic
        } else {
            FockRoute::KsAnalytic
        },
        EriType::RiV => if components == 0 {
            FockRoute::HfRiDensity
        } else {
            FockRoute::KsRiDensity
        },
        EriType::Other => FockRoute::Nothing,
    }
}

impl SCF {
    /// Decides how the Fock matrix of the initial guess is built.
    pub fn generate_hf_hamiltonian_for_guess(&self) -> (r: FockRoute)
        ensures
            r == guess_route(self.mol.components, self.ctrl.eri_type),
    {
        match self.ctrl.eri_type {
            EriType::Analytic => if self.mol.components == 0 {
                FockRoute::HfAnalytic
            } else {
                FockRoute::KsAnalytic
            },
            EriType::RiV => if self.mol.components == 0 {
                FockRoute::HfRiDensity
            } else {
                FockRoute::KsRiDensity
            },
            EriType::Other => FockRoute::Nothing,
        }
    }
}

/// The algorithms that remain after resolving have kernels here, unless the input names
/// others.
pub proof fn law_resolved_have_kernels(a: AlgorithmJK, fits: bool)
    ensures
        part_j(a) != AlgorithmJ::Other ==> coulomb_resolved(resolve_jk(a, fits)),
        part_k(a) != AlgorithmK::Other ==> exchange_resolved(resolve_jk(a, fits)),
{
}

/// The integrals that a Coulomb kernel reads are prepared.
pub open spec fn coulomb_prepared(k: CoulombKernel, p: Preparation) -> bool {
    match k {
        CoulombKernel::Analytic => p.integrals.ijkl,
        CoulombKernel::Rimatr => p.integrals.rimatr,
        CoulombKernel::Ri3fn => p.integrals.ri3fn,
        CoulombKernel::Ri3fnIsdf => p.isdf is Some && p.isdf->0.ri3fn_isdf,
        CoulombKernel::Direct => true,
    }
}

/// The integrals that an exchange kernel reads are prepared.
pub open spec fn exchange_prepared(k: ExchangeKernel, p: Preparation) -> bool {
    match k {
        ExchangeKernel::Analytic => p.integrals.ijkl,
        ExchangeKernel::RimatrDensity | ExchangeKernel::RimatrOrbitals => p.integrals.rimatr,
        ExchangeKernel::Ri3fnDensity | ExchangeKernel::Ri3fnOrbitals => p.integrals.ri3fn,
        ExchangeKernel::IsdfDensity | ExchangeKernel::IsdfOrbitals => p.isdf is Some
            && p.isdf->0.ri3fn_isdf,
        ExchangeKernel::IsdfTables => p.isdf is Some && p.isdf->0.tables,
        ExchangeKernel::Direct | ExchangeKernel::ShortDirect => true,
        ExchangeKernel::ShortRimatr => p.integrals.rimatr_sr,
        ExchangeKernel::ShortRi3fn => p.integrals.ri3fn_sr,
    }
}

/// Every kernel of a Hartree-Fock matrix with resolution of the identity finds the
/// integrals it reads among those prepared. Fitted integrals are not stored with pair
/// symmetry, and interpolation tables need the fitting to be in use.
pub proof fn law_kernels_find_integrals(c: Control, mol: Molecule, a: AlgorithmJK, t: SCFType)
    requires
        c.use_auxbas,
        c.use_isdf ==> !c.use_ri_symm && mol.use_eri && c.eri_type == EriType::RiV,
        c.isdf_new ==> c.use_isdf,
        coulomb_resolved(a),
        exchange_resolved(a),
    ensures
        ({
            let p = preparation(c, mol, a);
            &&& coulomb_prepared(hf_plan(c, a, t).coulomb, p)
            &&& exchange_prepared(hf_plan(c, a, t).exchange, p)
        }),
{
}

/// The kernels of a Kohn-Sham matrix find the integrals they read among those prepared,
/// with interpolative fitting as long as it serves the exchange only.
pub proof fn law_functional_kernels_find_integrals(
    c: Control,
    mol: Molecule,
    a: AlgorithmJK,
    t: SCFType,
    k: KsInput,
)
    requires
        c.use_auxbas,
        c.use_isdf ==> c.isdf_k_only && !c.use_ri_symm && mol.use_eri && c.eri_type
            == EriType::RiV,
        c.isdf_new ==> c.use_isdf,
        coulomb_resolved(a),
        exchange_resolved(a),
        k.rimatr_sr == integral_plan(c, mol, a).rimatr_sr,
        k.ri3fn_sr == integral_plan(c, mol, a).ri3fn_sr,
    ensures
        coulomb_prepared(coulomb_of(c, a), preparation(c, mol, a)),
        forall|i: int|
            0 <= i < ks_exchange(c, a, t, k).len() ==> exchange_prepared(
                (#[trigger] ks_exchange(c, a, t, k)[i]).kernel,
                preparation(c, mol, a),
            ),
{
}

/// For a range-separated hybrid with an auxiliary basis, the short-range kernel finds the
/// short-range integrals among those prepared.
pub proof fn law_short_range_finds_integrals(
    c: Control,
    mol: Molecule,
    a: AlgorithmJK,
    k: KsInput,
)
    requires
        mol.is_rsh,
        exchange_resolved(a),
        k.rimatr_sr == integral_plan(c, mol, a).rimatr_sr,
        k.ri3fn_sr == integral_plan(c, mol, a).ri3fn_sr,
    ensures
        short_kernel(k, a) is Some,
        exchange_prepared(short_kernel(k, a)->0, preparation(c, mol, a)),
{
}

/// The parts of a range-separated hybrid add up as they should. With the exchange over the
/// whole range split into a short and a long range, the short range counts with the hybrid
/// fraction and the long range with alpha, each negative and halved like plain exchange.
pub proof fn law_range_separation(t: SCFType, hybrid: int, alpha: int, short: int, long: int)
    ensures
        ({
            let exchange = hybrid * short + alpha * long;
            doubled_factor(factor_of(ExchangePart::Full, t), hybrid, alpha) * (short + long)
                + doubled_factor(factor_of(ExchangePart::ShortRange, t), hybrid, alpha) * short
                == (if t == SCFType::RHF {
                -exchange
            } else {
                -(exchange + exchange)
            })
        }),
{
    let (f, g) = (-alpha, alpha - hybrid);
    assert(f * (short + long) == -(alpha * short) - alpha * long) by (nonlinear_arith)
        requires
            f == -alpha,
    ;
    assert(g * short == alpha * short - hybrid * short) by (nonlinear_arith)
        requires
            g == alpha - hybrid,
    ;
    assert((f + f) * (short + long) == f * (short + long) + f * (short + long))
        by (nonlinear_arith);
    assert((g + g) * short == g * short + g * short) by (nonlinear_arith);
}

/// The batch size of a direct kernel: what the user asks for or else the estimate, but no
/// less than the smallest sensible size.
pub open spec fn batch_of(estimate: int, smallest: int, user: Option<usize>) -> int {
    let wanted = match user {
        Some(u) => u as int,
        None => estimate,
    };
    if wanted < smallest {
        smallest
    } else {
        wanted
    }
}

/// The smallest sensible batch size: two pieces of work per thread.
pub fn smallest_batch(threads: usize) -> (n: usize)
    requires
        threads <= usize::MAX / 2,
    ensures
        n == 2 * threads,
{
    2 * threads
}

/// Chooses the batch size of the direct Coulomb kernel.
pub fn generate_vj_ri_direct(estimate: usize, smallest: usize, user: Option<usize>) -> (n: usize)
    ensures
        n == batch_of(estimate as int, smallest as int, user),
{
    let wanted: usize = match user {
        Some(u) => u,
        None => estimate,
    };
    if wanted < smallest {
        smallest
    } else {
        wanted
    }
}

/// Whether the semi-direct exchange kernel is taken.
pub open spec fn takes_semi(use_dm_only: bool, estimate_semi: int, smallest: int) -> bool {
    !use_dm_only && estimate_semi >= smallest
}

/// The batch size of the exchange kernel that is taken.
pub open spec fn exchange_batch(
    use_dm_only: bool,
    estimate_semi: int,
    estimate_direct: int,
    smallest: int,
    user: Option<usize>,
) -> int {
    if takes_semi(use_dm_only, estimate_semi, smallest) {
        batch_of(estimate_semi, smallest, user)
    } else {
        batch_of(estimate_direct, smallest, user)
    }
}

/// Chooses between the semi-direct and the direct exchange kernel, and the batch size: the
/// semi-direct one is taken where orbitals may be used and its estimate is large enough.
pub fn generate_vk_ri_direct(
    use_dm_only: bool,
    estimate_semi: usize,
    estimate_direct: usize,
    smallest: usize,
    user: Option<usize>,
) -> (r: (bool, usize))
    ensures
        r.0 == takes_semi(use_dm_only, estimate_semi as int, smallest as int),
        r.1 == exchange_batch(
            use_dm_only,
            estimate_semi as int,
            estimate_direct as int,
            smallest as int,
            user,
        ),
{
    if !use_dm_only && estimate_semi >= smallest {
        (true, generate_vj_ri_direct(estimate_semi, smallest, user))
    } else {
        (false, generate_vj_ri_direct(estimate_direct, smallest, user))
    }
}

/// A batch is never smaller than the smallest sensible size.
pub proof fn law_batch_not_too_small(estimate: int, smallest: int, user: Option<usize>)
    ensures
        batch_of(estimate, smallest, user) >= smallest,
{
}

/// The pattern of the machine epsilon, above which an orbital counts for the memory
/// estimate.
pub const OCCUPIED_EPSILON: u64 = 0x3cb0_0000_0000_0000;

/// The number of orbitals occupied above the machine epsilon.
pub open spec fn occupied_above_epsilon(occupation: Seq<Real>) -> nat
    decreases occupation.len(),
{
    if occupation.len() == 0 {
        0
    } else {
        occupied_above_epsilon(occupation.drop_last()) + (if (Real {
            bits: OCCUPIED_EPSILON,
        }).below(occupation.last()) {
            1nat
        } else {
            0
        })
    }
}

/// Counts the orbitals occupied above the machine epsilon.
pub fn count_occupied(occupation: &Vec<Real>) -> (n: usize)
    ensures
        n == occupied_above_epsilon(occupation@),
{
    let mut n: usize = 0;
    let mut i: usize = 0;
    assert(occupation@.take(0) =~= Seq::<Real>::empty());
    while i < occupation.len()
        invariant
            i <= occupation@.len(),
            n <= i,
            n == occupied_above_epsilon(occupation@.take(i as int)),
        decreases occupation@.len() - i,
    {
        assert(occupation@.take(i + 1).drop_last() =~= occupation@.take(i as int));
        assert(occupation@.take(i + 1).last() == occupation@[i as int]);
        if occupation[i].gt(Real { bits: OCCUPIED_EPSILON }) {
            n += 1;
        }
        i += 1;
    }
    assert(occupation@.take(i as int) =~= occupation@);
    n
}

/// A Fock matrix has exchange-correlation components exactly when the functional has some,
/// however integrals are evaluated. Four-centre integrals are used exactly when they are asked
/// for, and only Hartree-Fock with an unknown evaluation builds nothing.
pub proof fn law_route_by_components(components: usize, eri_type: EriType)
    ensures
        ({
            let r = fock_route(components, eri_type);
            &&& (r == FockRoute::KsAnalytic || r == FockRoute::KsRi) <==> components > 0
            &&& (r == FockRoute::HfAnalytic || r == FockRoute::KsAnalytic) <==> eri_type
                == EriType::Analytic
            &&& r == FockRoute::HfRi <==> components == 0 && eri_type == EriType::RiV
            &&& r == FockRoute::Nothing <==> components == 0 && eri_type == EriType::Other
        }),
{
}

/// The guess is built like an iteration, with components exactly when the functional has some,
/// but with resolution of the identity always from the density alone, and never from unknown
/// integrals.
pub proof fn law_guess_route_by_components(components: usize, eri_type: EriType)
    ensures
        ({
            let r = guess_route(components, eri_type);
            let later = fock_route(components, eri_type);
            &&& r == FockRoute::Nothing <==> eri_type == EriType::Other
            &&& r == FockRoute::HfRiDensity <==> later == FockRoute::HfRi
            &&& r == FockRoute::KsRiDensity <==> later == FockRoute::KsRi && eri_type
                == EriType::RiV
            &&& eri_type == EriType::Analytic ==> r == later
        }),
{
}

/// Integrals are kept in memory for the Coulomb matrix exactly when its algorithm says so.
/// Of those kept, the ones with pair symmetry come first, and interpolated ones are used only
/// where interpolation is for the Coulomb matrix too and keeps no tables.
pub proof fn law_coulomb_kernel(c: Control, a: AlgorithmJK)
    ensures
        ({
            let k = coulomb_of(c, a);
            let kept = part_j(a) == AlgorithmJ::RiIncore;
            &&& k != CoulombKernel::Analytic
            &&& k == CoulombKernel::Direct <==> !kept
            &&& k == CoulombKernel::Rimatr <==> kept && c.use_ri_symm
            &&& k == CoulombKernel::Ri3fnIsdf <==> kept && !c.use_ri_symm && c.use_isdf
                && !c.isdf_k_only && !c.isdf_new
            &&& kept ==> k == incore_coulomb(c)
        }),
{
}

/// The kernel of an exchange matrix reads the orbitals.
pub open spec fn reads_orbitals(k: ExchangeKernel) -> bool {
    k == ExchangeKernel::RimatrOrbitals || k == ExchangeKernel::Ri3fnOrbitals || k
        == ExchangeKernel::IsdfOrbitals
}

/// The kernel of an exchange matrix reads integrals stored with pair symmetry.
pub open spec fn reads_rimatr(k: ExchangeKernel) -> bool {
    k == ExchangeKernel::RimatrDensity || k == ExchangeKernel::RimatrOrbitals
}

/// The kernel of an exchange matrix reads integrals stored in full.
pub open spec fn reads_ri3fn(k: ExchangeKernel) -> bool {
    k == ExchangeKernel::Ri3fnDensity || k == ExchangeKernel::Ri3fnOrbitals
}

/// Integrals are kept in memory for the exchange matrix exactly when its algorithm says so.
/// Of those kept, the ones with pair symmetry come first, then interpolation tables, and
/// orbitals are read unless only the density may be.
pub proof fn law_exchange_kernel(c: Control, a: AlgorithmJK)
    ensures
        ({
            let k = exchange_of(c, a);
            let kept = part_k(a) == AlgorithmK::RiIncore;
            &&& k == ExchangeKernel::Direct <==> !kept
            &&& reads_rimatr(k) <==> kept && c.use_ri_symm
            &&& k == ExchangeKernel::IsdfTables <==> kept && !c.use_ri_symm && c.isdf_new
            &&& reads_ri3fn(k) <==> kept && !c.use_ri_symm && !c.isdf_new
            &&& reads_orbitals(k) <==> kept && !c.use_dm_only && (c.use_ri_symm || !c.isdf_new)
        }),
{
}

/// Interpolated exchange reads the density exactly when orbitals may not be read or the
/// integrals have pair symmetry; it never reads full integrals.
pub proof fn law_interpolated_exchange(c: Control)
    ensures
        ({
            let k = isdf_exchange(c);
            &&& reads_orbitals(k) <==> !c.use_ri_symm && !c.use_dm_only
            &&& reads_rimatr(k) <==> c.use_ri_symm
            &&& !reads_ri3fn(k)
            &&& k == ExchangeKernel::IsdfDensity <==> !c.use_ri_symm && c.use_dm_only
            &&& k == ExchangeKernel::IsdfOrbitals <==> !c.use_ri_symm && !c.use_dm_only
        }),
{
}

/// Interpolation tables replace both kernels of a Hartree-Fock matrix, interpolation without
/// them replaces the exchange kernel alone, and without interpolation both algorithms decide
/// for themselves. Exchange counts half exactly for a closed shell, and only a restricted open
/// shell needs an effective matrix.
pub proof fn law_hf_plan(c: Control, a: AlgorithmJK, t: SCFType)
    ensures
        ({
            let p = hf_plan(c, a, t);
            &&& c.isdf_new ==> p.coulomb == CoulombKernel::Direct && p.exchange
                == ExchangeKernel::IsdfTables
            &&& !c.isdf_new ==> p.coulomb == coulomb_of(c, a)
            &&& c.use_isdf && !c.isdf_new ==> p.exchange == isdf_exchange(c)
            &&& !c.use_isdf && !c.isdf_new ==> p.exchange == exchange_of(c, a)
            &&& c.use_dm_only ==> !reads_orbitals(p.exchange)
            &&& p.half <==> t == SCFType::RHF
            &&& p.roothaan <==> t == SCFType::ROHF
        }),
{
}

/// A matrix for the guess never reads orbitals, whatever the settings allow. Its kernels are
/// those of a calculation with kept integrals that may read the density only, apart from a
/// Coulomb matrix in batches where integrals are kept for the exchange alone or as tables.
pub proof fn law_density_plan(c: Control, t: SCFType)
    ensures
        ({
            let p = density_plan(c, t);
            &&& !reads_orbitals(p.exchange)
            &&& reads_rimatr(p.exchange) <==> c.use_ri_symm
            &&& p.exchange == ExchangeKernel::IsdfTables <==> !c.use_ri_symm && c.isdf_new
            &&& p.coulomb == CoulombKernel::Direct <==> c.isdf_new || c.ri_k_only
            &&& c.use_dm_only ==> p.exchange == exchange_of(c, AlgorithmJK::RiIncore)
            &&& !c.isdf_new && !c.ri_k_only ==> p.coulomb == coulomb_of(c, AlgorithmJK::RiIncore)
            &&& p.half == hf_plan(c, AlgorithmJK::RiIncore, t).half
            &&& p.roothaan == hf_plan(c, AlgorithmJK::RiIncore, t).roothaan
        }),
{
}

/// Four-centre integrals make both matrices of Hartree-Fock; weight and effective matrix are
/// as with resolution of the identity.
pub proof fn law_analytic_plan(c: Control, a: AlgorithmJK, t: SCFType)
    ensures
        analytic_plan(t).coulomb == CoulombKernel::Analytic,
        analytic_plan(t).exchange == ExchangeKernel::Analytic,
        analytic_plan(t).half == hf_plan(c, a, t).half,
        analytic_plan(t).roothaan == hf_plan(c, a, t).roothaan,
{
}

/// Exchange over the whole range takes the hybrid fraction off the Fock matrix once per spin,
/// so half as often when the density holds both spins. A range-separated hybrid whose two
/// fractions agree amounts to the same.
pub proof fn law_plain_exchange(t: SCFType, hybrid: int, alpha: int)
    ensures
        doubled_factor(factor_of(ExchangePart::Plain, t), hybrid, alpha) == (if t == SCFType::RHF {
            -hybrid
        } else {
            -2 * hybrid
        }),
        doubled_factor(factor_of(ExchangePart::Full, t), hybrid, hybrid) == doubled_factor(
            factor_of(ExchangePart::Plain, t),
            hybrid,
            hybrid,
        ),
        doubled_factor(factor_of(ExchangePart::ShortRange, t), hybrid, hybrid) == 0,
        factor_of(ExchangePart::Plain, t).half <==> t == SCFType::RHF,
{
}

/// A part of range-separated exchange matters by its size alone, exactly above 1e-10, and the
/// only factors that are zero are the two zeros.
pub proof fn law_scaling_matters(scaling: Real, larger: Real)
    ensures
        matters(scaling) && scaling.magnitude() <= larger.magnitude() && !larger.nan() ==> matters(
            larger,
        ),
        scaling.nan() ==> !matters(scaling),
        matters(Real { bits: 0x3ddb_7cdf_d9d7_bdbc }),
        matters(Real { bits: 0xbddb_7cdf_d9d7_bdbc }),
        !matters(Real { bits: 0x3ddb_7cdf_d9d7_bdbb }),
        !matters(Real { bits: 0xbddb_7cdf_d9d7_bdbb }),
        is_zero(scaling) <==> scaling.bits == 0 || scaling.bits == 0x8000_0000_0000_0000,
        is_zero(scaling) ==> !matters(scaling),
{
}

/// Short-range exchange runs in batches exactly when exchange does; otherwise it takes the
/// stored short-range integrals that exist, those with pair symmetry first.
pub proof fn law_short_kernel(k: KsInput, a: AlgorithmJK)
    ensures
        ({
            let direct = part_k(a) == AlgorithmK::RiDirect;
            let s = short_kernel(k, a);
            &&& s == Some(ExchangeKernel::ShortDirect) <==> direct
            &&& s == Some(ExchangeKernel::ShortRimatr) <==> !direct && k.rimatr_sr
            &&& s == Some(ExchangeKernel::ShortRi3fn) <==> !direct && !k.rimatr_sr && k.ri3fn_sr
            &&& s is None <==> !direct && !k.rimatr_sr && !k.ri3fn_sr
        }),
{
}

/// A Kohn-Sham matrix has a term over the whole range exactly when one is needed, plain for a
/// global hybrid and full for a range-separated one, and a short-range term exactly for a
/// range-separated hybrid whose short range matters and has a kernel. Each term has its part's
/// factor and kernel, the whole range comes first, and none comes twice.
pub proof fn law_exchange_terms(c: Control, a: AlgorithmJK, t: SCFType, k: KsInput, e: ExchangeTerm)
    ensures
        ({
            let terms = ks_exchange(c, a, t, k);
            let separated = k.scaling is Separated;
            &&& terms.contains(e) <==> {
                &&& e.factor == factor_of(e.part, t)
                &&& match e.part {
                    ExchangePart::Plain => !separated && needs_full_exchange(k.scaling) && e.kernel
                        == exchange_of(c, a),
                    ExchangePart::Full => separated && needs_full_exchange(k.scaling) && e.kernel
                        == exchange_of(c, a),
                    ExchangePart::ShortRange => {
                        &&& k.scaling matches ExchangeScaling::Separated { full, short } && matters(
                            short,
                        )
                        &&& Some(e.kernel) == short_kernel(k, a)
                    },
                }
            }
            &&& forall|i: int, j: int|
                0 <= i < j < terms.len() ==> (#[trigger] terms[i]).part != ExchangePart::ShortRange
                    && (#[trigger] terms[j]).part == ExchangePart::ShortRange
        }),
{
    let terms = ks_exchange(c, a, t, k);
    if terms.len() > 0 {
        assert(terms.contains(terms[0]));
    }
    if terms.len() > 1 {
        assert(terms.contains(terms[1]));
    }
}

/// The whole range is needed exactly when its factor is not zero, for a global hybrid, or
/// exceeds 1e-10 in size, for a range-separated one; the short range has no say.
pub proof fn law_full_exchange_needed(s: Real, short: Real)
    ensures
        needs_full_exchange(ExchangeScaling::Global(s)) <==> s.bits != 0 && s.bits
            != 0x8000_0000_0000_0000,
        needs_full_exchange(ExchangeScaling::Separated { full: s, short }) <==> matters(s),
{
}

/// With four-centre integrals exact exchange is one plain term, left out exactly when a global
/// hybrid with this factor would need none.
pub proof fn law_analytic_exchange(t: SCFType, scaling: Real, i: int)
    ensures
        analytic_exchange(t, scaling).len() == (if needs_full_exchange(
            ExchangeScaling::Global(scaling),
        ) {
            1nat
        } else {
            0
        }),
        0 <= i < analytic_exchange(t, scaling).len() ==> {
            let e = analytic_exchange(t, scaling)[i];
            &&& e.part == ExchangePart::Plain
            &&& e.factor == factor_of(ExchangePart::Plain, t)
            &&& e.kernel == ExchangeKernel::Analytic
        },
{
}

/// A potential of exchange and correlation is evaluated exactly when there are components, and
/// from the density exactly when orbitals may not be read.
pub proof fn law_xc_kernel(components: usize, dm_only: bool)
    ensures
        xc_of(components, dm_only) == XcKernel::Nothing <==> components == 0,
        xc_of(components, dm_only) == XcKernel::Density <==> components > 0 && dm_only,
        xc_of(components, dm_only) == XcKernel::Orbitals <==> components > 0 && !dm_only,
{
}

/// A restricted open shell shifts its effective matrix and nothing else. The other kinds shift
/// each of their own channels once, of which a closed shell has one. Densities count half
/// exactly where one density holds both spins.
pub proof fn law_shift_targets(t: SCFType, channels: int, i: usize)
    requires
        0 <= channels <= usize::MAX,
    ensures
        ({
            let s = shift_targets(t, channels);
            &&& s.contains(ShiftTarget::Effective) <==> t == SCFType::ROHF
            &&& s.contains(ShiftTarget::Channel(i)) <==> (t == SCFType::RHF && i == 0) || (t
                == SCFType::UHF && i < channels)
            &&& s.no_duplicates()
            &&& shift_halves(t) <==> t == SCFType::RHF || t == SCFType::ROHF
        }),
{
    let s = shift_targets(t, channels);
    if t == SCFType::UHF {
        if i < channels {
            assert(s[i as int] == ShiftTarget::Channel(i));
        }
    } else {
        assert(s.contains(s[0]));
    }
}

/// A batch is what was wanted wherever that is sensible, and the smallest sensible size
/// otherwise. What the user wants silences the estimate.
pub proof fn law_batch(estimate: int, other: int, smallest: int, user: usize)
    ensures
        estimate >= smallest ==> batch_of(estimate, smallest, None) == estimate,
        estimate < smallest ==> batch_of(estimate, smallest, None) == smallest,
        user >= smallest ==> batch_of(estimate, smallest, Some(user)) == user,
        user < smallest ==> batch_of(estimate, smallest, Some(user)) == smallest,
        batch_of(estimate, smallest, Some(user)) == batch_of(other, smallest, Some(user)),
{
}

/// The semi-direct kernel needs orbitals, and is taken with them as soon as its batch is not
/// below the smallest sensible size.
pub proof fn law_semi_direct(estimate: int, smallest: int)
    ensures
        !takes_semi(true, estimate, smallest),
        takes_semi(false, estimate, smallest) <==> batch_of(estimate, smallest, None) == estimate,
{
}

/// Counting occupied orbitals part by part gives the same count; an orbital counts exactly
/// above the machine epsilon, by one.
pub proof fn law_occupied_above_epsilon(a: Seq<Real>, b: Seq<Real>, x: Real)
    ensures
        occupied_above_epsilon(a + b) == occupied_above_epsilon(a) + occupied_above_epsilon(b),
        occupied_above_epsilon(a) <= a.len(),
        occupied_above_epsilon(seq![x]) == (if 0x3cb0_0000_0000_0000 < x.bits
            <= 0x7ff0_0000_0000_0000 {
            1nat
        } else {
            0
        }),
    decreases b.len(), a.len(),
{
    reveal_with_fuel(occupied_above_epsilon, 2);
    let e: Seq<Real> = seq![];
    assert(seq![x].drop_last() =~= e);
    if b.len() == 0 {
        assert(a + b =~= a);
        if a.len() > 0 {
            law_occupied_above_epsilon(a.drop_last(), b, x);
            assert(a.drop_last() + b =~= a.drop_last());
        }
    } else {
        law_occupied_above_epsilon(a, b.drop_last(), x);
        assert((a + b).drop_last() =~= a + b.drop_last());
        assert((a + b).last() == b.last());
    }
}

/// Only a restricted open shell needs an effective matrix, with and without a functional. The
/// solvent acts exactly when it is set up and has a potential.
pub proof fn law_functional_matrix(c: Control, a: AlgorithmJK, t: SCFType, enabled: bool, v: bool)
    ensures
        needs_effective(t) == hf_plan(c, a, t).roothaan,
        needs_effective(t) <==> t == SCFType::ROHF,
        adds_solvent(enabled, v) <==> enabled && v,
{
}

/// The batch of the exchange comes from the estimate of the kernel that is taken, which is the
/// direct one wherever orbitals may not be read; what the user wants goes before either.
pub proof fn law_exchange_batch(semi: int, direct: int, smallest: int, user: usize, dm_only: bool)
    ensures
        exchange_batch(true, semi, direct, smallest, None) == batch_of(direct, smallest, None),
        semi >= smallest ==> exchange_batch(false, semi, direct, smallest, None) == semi,
        semi < smallest ==> exchange_batch(false, semi, direct, smallest, None) == batch_of(
            direct,
            smallest,
            None,
        ),
        exchange_batch(dm_only, semi, direct, smallest, Some(user)) == batch_of(
            semi,
            smallest,
            Some(user),
        ),
        exchange_batch(dm_only, semi, direct, smallest, None) >= smallest,
{
}

} // verus!
