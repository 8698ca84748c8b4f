//! Smeared occupations: which density they are drawn from, and the search for the
//! chemical potential.

use crate::binary64::Real;
use crate::counts::{as_binary64, half_count};
use crate::scf_io::setup::{SCFType, SCF};
use crate::scf_io::util::{
    homo_of, law_occupied_count, occupied_count, occupied_orbital_count, ORB_OCCUPATION_THRESHOLD,
};
use crate::sequences::{ints, lemma_ints_push, positions};
use vstd::prelude::*;

verus! {

/// Shape of the smearing.
#[derive(Clone, Copy, Debug, PartialEq, Eq, Structural)]
pub enum SmearingType {
    FERMI,
    GAUSSIAN,
}

/// The settings of smeared occupations.
#[derive(Clone, Copy, Debug, PartialEq, Eq, Structural)]
pub struct Smearing {
    pub shape: SmearingType,
    /// The initial width.
    pub sigma: Real,
    /// The width shrinks over the iterations.
    pub anneal: bool,
    /// The smallest width.
    pub sigma_min: Option<Real>,
}

/// The width to which a shrinking width tends.
#[derive(Clone, Copy, Debug, PartialEq, Eq, Structural)]
pub enum WidthFloor {
    Given(Real),
    /// The larger of `ratio` times the initial width and `least`.
    Largest { ratio: Real, least: Real },
}

/// The pattern of 0.01, the part of the initial width that is kept.
pub const FLOOR_RATIO: u64 = 0x3f84_7ae1_47ae_147b;

/// The pattern of 0.001, the smallest width unless another is given.
pub const FLOOR_LEAST: u64 = 0x3f50_624d_d2f1_a9fc;

/// The smallest width unless one is given: a hundredth of the initial width, and at least one
/// thousandth.
pub open spec fn default_floor() -> WidthFloor {
    WidthFloor::Largest { ratio: Real { bits: FLOOR_RATIO }, least: Real { bits: FLOOR_LEAST } }
}

/// The width of an iteration.
#[derive(Clone, Copy, Debug, PartialEq, Eq, Structural)]
pub enum SmearWidth {
    /// The initial width.
    Fixed(Real),
    /// A width that shrinks from the initial one to the floor, over `length` iterations from
    /// iteration `start` on; this is iteration `num_iter`.
    Annealed { from: Real, floor: WidthFloor, num_iter: usize, start: usize, length: usize },
}

/// The width of an iteration: it shrinks only on request, from the iteration in which the
/// mixers start to extrapolate, over half of the cycles.
pub open spec fn width_of(
    s: Smearing,
    num_iter: usize,
    start_diis_cycle: usize,
    max_scf_cycle: usize,
) -> SmearWidth {
    if s.anneal {
        SmearWidth::Annealed {
            from: s.sigma,
            floor: match s.sigma_min {
                Some(x) => WidthFloor::Given(x),
                None => default_floor(),
            },
            num_iter,
            start: start_diis_cycle,
            length: (as_binary64(max_scf_cycle as int) / 2) as usize,
        }
    } else {
        SmearWidth::Fixed(s.sigma)
    }
}

/// The width of an iteration; `None` without smearing.
pub open spec fn width_in(scf: SCF, num_iter: usize) -> Option<SmearWidth> {
    match scf.ctrl.smearing {
        Some(s) => Some(
            width_of(s, num_iter, scf.ctrl.start_diis_cycle, scf.ctrl.max_scf_cycle),
        ),
        None => None,
    }
}

impl SCF {
    /// Plans the width of an iteration; `None` without smearing.
    pub fn smearing_width(&self, num_iter: usize) -> (w: Option<SmearWidth>)
        ensures
            w == width_in(*self, num_iter),
    {
        match self.ctrl.smearing {
            None => None,
            Some(s) => {
                if !s.anneal {
                    return Some(SmearWidth::Fixed(s.sigma));
                }
                let floor: WidthFloor = match s.sigma_min {
                    Some(x) => WidthFloor::Given(x),
                    None => WidthFloor::Largest {
                        ratio: Real { bits: FLOOR_RATIO },
                        least: Real { bits: FLOOR_LEAST },
                    },
                };
                Some(
                    SmearWidth::Annealed {
                        from: s.sigma,
                        floor,
                        num_iter,
                        start: self.ctrl.start_diis_cycle,
                        length: half_count(self.ctrl.max_scf_cycle),
                    },
                )
            },
        }
    }
}

/// How the occupations of a calculation are smeared.
#[derive(Clone, Copy, Debug, PartialEq, Eq, Structural)]
pub struct SmearingPlan {
    /// The number of channels to smear.
    pub channels: usize,
    /// Each orbital holds two electrons: occupations and entropy are doubled, and the
    /// electrons shared out are half of all.
    pub doubled: bool,
}

/// How the occupations of a calculation are smeared: restricted ones by pairs of electrons,
/// others spin by spin.
pub open spec fn smearing_of(scf: &SCF) -> SmearingPlan {
    if scf.scftype == SCFType::RHF {
        SmearingPlan { channels: 1, doubled: true }
    } else {
        SmearingPlan { channels: scf.mol.spin_channel, doubled: false }
    }
}

/// Decides how the occupations of a calculation are smeared. A restricted open-shell
/// calculation cannot be smeared.
pub fn smearing_plan(scf: &SCF) -> (p: SmearingPlan)
    requires
        scf.scftype != SCFType::ROHF,
    ensures
        p == smearing_of(scf),
{
    match scf.scftype {
        SCFType::RHF => SmearingPlan { channels: 1, doubled: true },
        _ => SmearingPlan { channels: scf.mol.spin_channel, doubled: false },
    }
}

/// The number of orbitals up to the last occupied one.
pub open spec fn filled_orbitals(occupation: Seq<Real>) -> int {
    occupied_count(occupation, Real { bits: ORB_OCCUPATION_THRESHOLD }) as int
}

/// The highest occupied orbital of channel `s` after smearing: channels that are not smeared keep
/// theirs.
pub open spec fn smeared_homo(scf: &SCF, occupation: Seq<Real>, s: int) -> int {
    if s < smearing_of(scf).channels {
        homo_of(filled_orbitals(occupation))
    } else {
        scf.homo@[s] as int
    }
}

/// The lowest unoccupied orbital of channel `s` after smearing.
pub open spec fn smeared_lumo(scf: &SCF, occupation: Seq<Real>, s: int) -> int {
    if s < smearing_of(scf).channels {
        filled_orbitals(occupation)
    } else {
        scf.lumo@[s] as int
    }
}

/// Takes over smeared occupations, given for one electron per orbital: the frontier orbitals
/// of every smeared channel are the last orbital occupied above the threshold and the one
/// behind it.
pub fn apply_smearing(scf: &mut SCF, occupation: &[Vec<Real>; 2])
    requires
        old(scf).scftype != SCFType::ROHF,
        old(scf).mol.spin_channel <= 2,
    ensures
        final(scf).ctrl == old(scf).ctrl,
        final(scf).mol == old(scf).mol,
        final(scf).scftype == old(scf).scftype,
        final(scf).algorithm_jk == old(scf).algorithm_jk,
        forall|s: int|
            0 <= s < 2 ==> #[trigger] final(scf).homo@[s] == smeared_homo(
                old(scf),
                occupation@[s]@,
                s,
            ),
        forall|s: int|
            0 <= s < 2 ==> #[trigger] final(scf).lumo@[s] == smeared_lumo(
                old(scf),
                occupation@[s]@,
                s,
            ),
{
    let plan: SmearingPlan = smearing_plan(scf);
    let mut homo: [usize; 2] = scf.homo;
    let mut lumo: [usize; 2] = scf.lumo;
    let mut s: usize = 0;
    while s < plan.channels
        invariant
            s <= plan.channels <= 2,
            forall|x: int|
                0 <= x < 2 ==> #[trigger] homo@[x] == (if x < s {
                    homo_of(filled_orbitals(occupation@[x]@))
                } else {
                    scf.homo@[x] as int
                }),
            forall|x: int|
                0 <= x < 2 ==> #[trigger] lumo@[x] == (if x < s {
                    filled_orbitals(occupation@[x]@)
                } else {
                    scf.lumo@[x] as int
                }),
        decreases plan.channels - s,
    {
        let n: usize = occupied_orbital_count(&occupation[s]);
        homo[s] = n.saturating_sub(1);
        lumo[s] = n;
        s += 1;
    }
    scf.homo = homo;
    scf.lumo = lumo;
}

/// No orbital from the lowest unoccupied one on is occupied above the threshold.
pub proof fn law_smeared_lumo(occupation: Seq<Real>, i: int)
    requires
        filled_orbitals(occupation) <= i < occupation.len(),
    ensures
        !(Real { bits: ORB_OCCUPATION_THRESHOLD }).below(occupation[i]),
{
    law_occupied_count(
        occupation,
        Real { bits: ORB_OCCUPATION_THRESHOLD },
        Real { bits: ORB_OCCUPATION_THRESHOLD },
    );
}

/// How an orbital is filled at a reduced distance above the chemical potential.
#[derive(Clone, Copy, Debug, PartialEq, Eq, Structural)]
pub enum FermiRegion {
    /// Far above: empty.
    Empty,
    /// Far below: full.
    Full,
    /// Close by: by the Fermi function.
    Partial,
}

/// The pattern of 40, the reduced distance beyond which an orbital is empty or full.
pub const FAR: u64 = 0x4044_0000_0000_0000;

/// The pattern of -40.
pub const FAR_BELOW: u64 = 0xc044_0000_0000_0000;

/// The pattern of 1, a full occupation.
pub const FULL: u64 = 0x3ff0_0000_0000_0000;

/// How an orbital at a reduced distance is filled.
pub open spec fn fermi_region(x: Real) -> FermiRegion {
    if (Real { bits: FAR }).below(x) {
        FermiRegion::Empty
    } else if x.below(Real { bits: FAR_BELOW }) {
        FermiRegion::Full
    } else {
        FermiRegion::Partial
    }
}

/// Decides how the orbitals at reduced distances above the chemical potential are filled.
pub fn fermi_occ(distances: &Vec<Real>) -> (r: Vec<FermiRegion>)
    ensures
        r@ == distances@.map_values(|x: Real| fermi_region(x)),
{
    let mut r: Vec<FermiRegion> = Vec::new();
    let mut i: usize = 0;
    while i < distances.len()
        invariant
            i <= distances@.len(),
            r@.len() == i,
            forall|k: int| 0 <= k < i ==> #[trigger] r@[k] == fermi_region(distances@[k]),
        decreases distances@.len() - i,
    {
        let x: Real = distances[i];
        if x.gt(Real { bits: FAR }) {
            r.push(FermiRegion::Empty);
        } else if x.lt(Real { bits: FAR_BELOW }) {
            r.push(FermiRegion::Full);
        } else {
            r.push(FermiRegion::Partial);
        }
        i += 1;
    }
    assert(r@ =~= distances@.map_values(|x: Real| fermi_region(x)));
    r
}

/// Whether an orbital contributes to the entropy: it is neither empty nor full.
pub open spec fn has_entropy(occupation: Seq<Real>) -> spec_fn(int) -> bool {
    |i: int|
        crate::binary64::zero().below(occupation[i]) && occupation[i].below(Real { bits: FULL })
}

/// The orbitals that contribute to the entropy.
pub fn fermi_entropy(occupation: &Vec<Real>) -> (r: Vec<usize>)
    ensures
        ints(r@) == positions(occupation@.len(), has_entropy(occupation@)),
{
    let mut r: Vec<usize> = Vec::new();
    assert(ints(r@) =~= seq![]);
    let mut i: usize = 0;
    while i < occupation.len()
        invariant
            i <= occupation@.len(),
            ints(r@) == positions(i as nat, has_entropy(occupation@)),
        decreases occupation@.len() - i,
    {
        if occupation[i].gt(Real { bits: 0 }) && occupation[i].lt(Real { bits: FULL }) {
            proof {
                lemma_ints_push(r@, i);
            }
            r.push(i);
        }
        i += 1;
    }
    r
}

/// Where the chemical potential is looked for.
#[derive(Clone, Copy, Debug, PartialEq, Eq, Structural)]
pub enum PotentialSearch {
    /// No electrons: this much below the first orbital energy.
    Below(u32),
    /// All orbitals filled: this much above the last orbital energy.
    Above(u32),
    /// By bisection, from this many widths below the first to as many above the last orbital
    /// energy. If no midpoint is exact, the answer is the middle of the last interval.
    Bisect { widths: u32 },
}

/// Where the chemical potential for `nocc` electrons in `orbitals` orbitals is looked for.
pub open spec fn search_for(nocc: Real, orbitals: Real) -> PotentialSearch {
    if nocc.at_most(crate::binary64::zero()) {
        PotentialSearch::Below(1)
    } else if orbitals.at_most(nocc) {
        PotentialSearch::Above(1)
    } else {
        PotentialSearch::Bisect { widths: 20 }
    }
}

/// Decides where the chemical potential for `nocc` electrons in `orbitals` orbitals is
/// looked for; both are given as binary64 numbers.
pub fn find_mu(nocc: Real, orbitals: Real) -> (r: PotentialSearch)
    ensures
        r == search_for(nocc, orbitals),
{
    if nocc.le(Real { bits: 0 }) {
        PotentialSearch::Below(1)
    } else if nocc.ge(orbitals) {
        PotentialSearch::Above(1)
    } else {
        PotentialSearch::Bisect { widths: 20 }
    }
}

/// The pattern of 1e-12, below which an electron count is exact.
pub const COUNT_TOLERANCE: u64 = 0x3d71_9799_812d_ea11;

/// The number of bisection steps.
pub const BISECTION_STEPS: usize = 200;

/// A bisection interval.
#[derive(Clone, Copy, Debug, PartialEq, Eq, Structural)]
pub struct Bisection {
    pub lo: Real,
    pub hi: Real,
    /// The steps made so far.
    pub steps: usize,
}

impl Bisection {
    /// Whether a midpoint with this deviation of the electron count is the answer.
    pub open spec fn exact(deviation: Real) -> bool {
        (Real { bits: deviation.magnitude() as u64 }).below(Real { bits: COUNT_TOLERANCE })
    }

    /// The interval after a step: the midpoint becomes the lower end if it holds too few
    /// electrons, the upper end otherwise.
    pub open spec fn halved(self, mid: Real, count: Real, wanted: Real) -> Bisection {
        if count.below(wanted) {
            Bisection { lo: mid, hi: self.hi, steps: (self.steps + 1) as usize }
        } else {
            Bisection { lo: self.lo, hi: mid, steps: (self.steps + 1) as usize }
        }
    }

    /// Whether there are steps left.
    pub open spec fn unfinished(self) -> bool {
        self.steps < BISECTION_STEPS
    }

    /// Whether there are steps left.
    pub fn goes_on(&self) -> (b: bool)
        ensures
            b == self.unfinished(),
    {
        self.steps < BISECTION_STEPS
    }

    /// One step at the midpoint `mid`, whose electron count deviates by `deviation` from
    /// the wanted one: the midpoint if it is exact, otherwise a smaller interval.
    pub fn step(&mut self, mid: Real, count: Real, wanted: Real, deviation: Real) -> (r: Option<
        Real,
    >)
        requires
            old(self).steps < BISECTION_STEPS,
        ensures
            Bisection::exact(deviation) ==> r == Some(mid) && *final(self) == *old(self),
            !Bisection::exact(deviation) ==> r is None && *final(self) == old(self).halved(
                mid,
                count,
                wanted,
            ),
    {
        if deviation.abs().lt(Real { bits: COUNT_TOLERANCE }) {
            return Some(mid);
        }
        if count.lt(wanted) {
            self.lo = mid;
        } else {
            self.hi = mid;
        }
        self.steps = self.steps + 1;
        None
    }
}

/// A bisection keeps a lower end that holds too few electrons and an upper end that does
/// not, whatever the electron count at each point is.
pub proof fn law_bisection_brackets(
    b: Bisection,
    mid: Real,
    wanted: Real,
    count_at: spec_fn(Real) -> Real,
)
    requires
        count_at(b.lo).below(wanted),
        !count_at(b.hi).below(wanted),
    ensures
        ({
            let next = b.halved(mid, count_at(mid), wanted);
            count_at(next.lo).below(wanted) && !count_at(next.hi).below(wanted)
        }),
{
}

/// The width stays as it is unless it is annealed. Then it starts from the same width, takes half
/// of all cycles, and ends at the width that was given for that or else at the larger of a
/// hundredth of the first and a thousandth.
pub proof fn law_width(s: Smearing, num_iter: usize, start: usize, max_scf_cycle: usize)
    ensures
        ({
            let w = width_of(s, num_iter, start, max_scf_cycle);
            &&& w == SmearWidth::Fixed(s.sigma) <==> !s.anneal
            &&& w is Annealed <==> s.anneal
            &&& w matches SmearWidth::Annealed { from, floor, num_iter: n, start: b, length } ==> {
                &&& from == s.sigma
                &&& n == num_iter
                &&& b == start
                &&& max_scf_cycle < 0x20_0000_0000_0000 ==> length == max_scf_cycle / 2
                &&& s.sigma_min matches Some(x) ==> floor == WidthFloor::Given(x)
                &&& s.sigma_min is None ==> floor == (WidthFloor::Largest {
                    ratio: Real { bits: 0x3f84_7ae1_47ae_147b },
                    least: Real { bits: 0x3f50_624d_d2f1_a9fc },
                })
            }
        }),
{
    if max_scf_cycle < 0x20_0000_0000_0000 {
        crate::counts::law_half_exact(max_scf_cycle as int);
    }
}

/// One density that holds both spins is smeared once, with doubled occupations; otherwise each
/// channel is smeared by itself.
pub proof fn law_smearing_plan(scf: &SCF)
    ensures
        smearing_of(scf).doubled <==> scf.scftype == SCFType::RHF,
        smearing_of(scf).doubled ==> smearing_of(scf).channels == 1,
        !smearing_of(scf).doubled ==> smearing_of(scf).channels == scf.mol.spin_channel,
{
}

/// An orbital counts as empty exactly more than 40 widths above the potential and as full exactly
/// more than 40 below, so that mirrored distances have mirrored regions.
pub proof fn law_fermi_region(x: Real, mirrored: Real)
    requires
        mirrored.magnitude() == x.magnitude(),
        mirrored.bits != x.bits,
    ensures
        fermi_region(x) == FermiRegion::Empty <==> fermi_region(mirrored) == FermiRegion::Full,
        fermi_region(x) == FermiRegion::Empty <==> 0x4044_0000_0000_0000 < x.bits
            <= 0x7ff0_0000_0000_0000,
        fermi_region(x) == FermiRegion::Partial <==> x.nan() || x.magnitude()
            <= 0x4044_0000_0000_0000,
{
}

/// Exactly the orbitals that are neither empty nor full have entropy.
pub proof fn law_has_entropy(occupation: Seq<Real>, i: int)
    ensures
        has_entropy(occupation)(i) <==> 0 < occupation[i].bits < 0x3ff0_0000_0000_0000,
{
}

/// Without electrons the potential lies below the orbitals and with all orbitals filled above
/// them, by one; in between it is looked for by bisection, 20 widths beyond them.
pub proof fn law_search(nocc: Real, orbitals: Real)
    requires
        !nocc.nan(),
        !orbitals.nan(),
    ensures
        search_for(nocc, orbitals) is Below <==> nocc.at_most(crate::binary64::zero()),
        search_for(nocc, orbitals) is Bisect <==> crate::binary64::zero().below(nocc) && nocc.below(
            orbitals,
        ),
        search_for(nocc, orbitals) matches PotentialSearch::Below(d) ==> d == 1,
        search_for(nocc, orbitals) matches PotentialSearch::Above(d) ==> d == 1,
        search_for(nocc, orbitals) matches PotentialSearch::Bisect { widths } ==> widths == 20,
{
}

/// A count is exact within 1e-12 on either side. A step that is not moves one end to the midpoint
/// and leaves the other: the lower end exactly when there are too few electrons. After 200 steps
/// there are none left.
pub proof fn law_bisection_step(b: Bisection, mid: Real, count: Real, wanted: Real, deviation: Real)
    requires
        b.unfinished(),
    ensures
        Bisection::exact(deviation) <==> deviation.magnitude() < 0x3d71_9799_812d_ea11,
        ({
            let next = b.halved(mid, count, wanted);
            &&& next.steps == b.steps + 1
            &&& count.below(wanted) ==> next.lo == mid && next.hi == b.hi
            &&& !count.below(wanted) ==> next.lo == b.lo && next.hi == mid
            &&& !next.unfinished() <==> b.steps == 199
        }),
{
}

/// There is a width exactly with smearing; it is annealed from the first extrapolation on.
pub proof fn law_width_in(scf: SCF, num_iter: usize)
    ensures
        width_in(scf, num_iter) is Some <==> scf.ctrl.smearing is Some,
        scf.ctrl.smearing matches Some(s) ==> width_in(scf, num_iter) == Some(
            width_of(s, num_iter, scf.ctrl.start_diis_cycle, scf.ctrl.max_scf_cycle),
        ),
{
}

/// In a smeared channel the lowest unoccupied orbital follows the last one filled above 1e-6, and
/// the highest occupied one is right below; a channel that is not smeared keeps both.
pub proof fn law_smeared_frontier(scf: &SCF, occupation: Seq<Real>, s: int)
    requires
        0 <= s < 2,
    ensures
        s < smearing_of(scf).channels ==> smeared_lumo(scf, occupation, s)
            == crate::scf_io::util::occupied_count(
            occupation,
            Real { bits: 0x3eb0_c6f7_a0b5_ed8d },
        ),
        s < smearing_of(scf).channels && smeared_lumo(scf, occupation, s) > 0 ==> smeared_homo(
            scf,
            occupation,
            s,
        ) + 1 == smeared_lumo(scf, occupation, s),
        s >= smearing_of(scf).channels ==> smeared_homo(scf, occupation, s) == scf.homo@[s]
            && smeared_lumo(scf, occupation, s) == scf.lumo@[s],
        scf.scftype == SCFType::RHF ==> smeared_lumo(scf, occupation, 1) == scf.lumo@[1],
{
}

} // verus!
