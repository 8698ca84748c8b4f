//! Ranges of orbitals, and the orbitals that post-processing uses.

use crate::binary64::Real;
use crate::scf_io::setup::{SCFType, SCF};
use crate::scf_io::util::{occupied_count, occupied_orbital_count, ORB_OCCUPATION_THRESHOLD};
use core::ops::Range;
use vstd::prelude::*;

verus! {

/// The larger of two indices.
pub open spec fn max_of(a: int, b: int) -> int {
    if a >= b {
        a
    } else {
        b
    }
}

/// The smaller of two indices.
pub open spec fn min_of(a: int, b: int) -> int {
    if a <= b {
        a
    } else {
        b
    }
}

/// The highest frontier orbital among the first `n` channels.
pub open spec fn top_homo(homo: Seq<usize>, n: int) -> int
    decreases n,
{
    if n <= 0 {
        0
    } else {
        max_of(top_homo(homo, n - 1), homo[n - 1] as int)
    }
}

/// The lowest unoccupied orbital among the first `n` channels, no higher than `num_state`.
pub open spec fn bottom_lumo(lumo: Seq<usize>, num_state: int, n: int) -> int
    decreases n,
{
    if n <= 0 {
        num_state
    } else {
        min_of(bottom_lumo(lumo, num_state, n - 1), lumo[n - 1] as int)
    }
}

/// The occupied orbitals that correlation methods need: the first, and the one behind the last.
pub open spec fn occupied_range(scf: SCF) -> (int, int) {
    (scf.mol.start_mo as int, top_homo(scf.homo@, scf.mol.spin_channel as int) + 1)
}

/// The virtual orbitals that correlation methods need: the first, and the one behind the last.
pub open spec fn virtual_range(scf: SCF) -> (int, int) {
    (
        bottom_lumo(scf.lumo@, scf.mol.num_state as int, scf.mol.spin_channel as int),
        scf.mol.num_state as int,
    )
}

/// The occupied and the virtual orbitals that correlation methods need: from the first
/// correlated orbital to the highest occupied one of any spin, and from the lowest
/// unoccupied one of any spin to the last.
pub fn determine_ri3mo_size_for_pt2_and_rpa(scf: &SCF) -> (r: (Range<usize>, Range<usize>))
    requires
        scf.mol.spin_channel <= 2,
        scf.homo@[0] < usize::MAX,
        scf.homo@[1] < usize::MAX,
    ensures
        (r.0.start as int, r.0.end as int) == occupied_range(*scf),
        (r.1.start as int, r.1.end as int) == virtual_range(*scf),
{
    let mut top: usize = 0;
    let mut bottom: usize = scf.mol.num_state;
    let mut s: usize = 0;
    while s < scf.mol.spin_channel
        invariant
            s <= scf.mol.spin_channel <= 2,
            scf.homo@[0] < usize::MAX,
            scf.homo@[1] < usize::MAX,
            top < usize::MAX,
            top == top_homo(scf.homo@, s as int),
            bottom == bottom_lumo(scf.lumo@, scf.mol.num_state as int, s as int),
        decreases scf.mol.spin_channel - s,
    {
        if scf.homo[s] > top {
            top = scf.homo[s];
        }
        if scf.lumo[s] < bottom {
            bottom = scf.lumo[s];
        }
        s += 1;
    }
    (scf.mol.start_mo..top + 1, bottom..scf.mol.num_state)
}

/// Every channel's occupied orbitals from the first correlated one on, and all its
/// unoccupied orbitals, are in the two ranges.
pub proof fn law_ri3mo_ranges_cover(
    homo: Seq<usize>,
    lumo: Seq<usize>,
    num_state: int,
    n: int,
    s: int,
)
    requires
        0 <= s < n,
    ensures
        homo[s] <= top_homo(homo, n),
        bottom_lumo(lumo, num_state, n) <= lumo[s],
        bottom_lumo(lumo, num_state, n) <= num_state,
    decreases n,
{
    if s < n - 1 {
        law_ri3mo_ranges_cover(homo, lumo, num_state, n - 1, s);
    } else {
        lemma_bottom_lumo_bound(lumo, num_state, n);
    }
}

proof fn lemma_bottom_lumo_bound(lumo: Seq<usize>, num_state: int, n: int)
    ensures
        bottom_lumo(lumo, num_state, n) <= num_state,
    decreases n,
{
    if n > 0 {
        lemma_bottom_lumo_bound(lumo, num_state, n - 1);
    }
}

/// Which orbitals a transformation uses.
#[derive(Clone, Copy, Debug, PartialEq, Eq, Structural)]
pub enum OrbitalSource {
    Canonical,
    /// Orbitals that diagonalize the occupied and virtual blocks of each spin.
    SemiCanonical,
}

/// The orbitals that correlation methods use.
pub open spec fn correlation_orbitals(t: SCFType) -> OrbitalSource {
    if t == SCFType::ROHF {
        OrbitalSource::SemiCanonical
    } else {
        OrbitalSource::Canonical
    }
}

/// A transformation of the three-centre integrals to pairs of orbitals.
#[derive(Clone, Copy, Debug, PartialEq, Eq, Structural)]
pub struct TransformPlan {
    pub orbitals: OrbitalSource,
    /// Semi-canonical orbitals are made first.
    pub semi_diagonalize: bool,
    /// Integrals in memory are transformed; otherwise they are computed on the way.
    pub stored: bool,
    /// The integrals in memory are given up afterwards.
    pub release: bool,
    /// Each channel is transformed.
    pub channels: usize,
}

/// The transformation for correlation methods.
pub open spec fn transform_plan(scf: SCF, rimatr: bool) -> TransformPlan {
    TransformPlan {
        orbitals: correlation_orbitals(scf.scftype),
        semi_diagonalize: scf.scftype == SCFType::ROHF,
        stored: rimatr,
        release: rimatr,
        channels: scf.mol.spin_channel,
    }
}

/// One of several transformations of the same integrals.
pub open spec fn repeated_plan(scf: SCF) -> TransformPlan {
    TransformPlan {
        orbitals: correlation_orbitals(scf.scftype),
        semi_diagonalize: false,
        stored: true,
        release: false,
        channels: scf.mol.spin_channel,
    }
}

/// The transformation for all orbitals.
pub open spec fn full_plan(scf: SCF) -> TransformPlan {
    TransformPlan {
        orbitals: OrbitalSource::Canonical,
        semi_diagonalize: false,
        stored: true,
        release: true,
        channels: scf.mol.spin_channel,
    }
}

impl SCF {
    /// Plans a transformation for correlation methods. `rimatr` tells whether there are
    /// integrals in memory.
    pub fn generate_ri3mo_rayon(&self, rimatr: bool) -> (p: TransformPlan)
        requires
            rimatr || 1 <= self.mol.spin_channel <= 2,
        ensures
            p == transform_plan(*self, rimatr),
    {
        let rohf: bool = matches!(self.scftype, SCFType::ROHF);
        TransformPlan {
            orbitals: if rohf {
                OrbitalSource::SemiCanonical
            } else {
                OrbitalSource::Canonical
            },
            semi_diagonalize: rohf,
            stored: rimatr,
            release: rimatr,
            channels: self.mol.spin_channel,
        }
    }

    /// Plans one of several transformations of the same integrals: they are kept, and so
    /// are the semi-canonical orbitals of an earlier step.
    pub fn generate_ri3mo_rayon_for_multiple_times(&self) -> (p: TransformPlan)
        ensures
            p == repeated_plan(*self),
    {
        TransformPlan {
            orbitals: match self.scftype {
                SCFType::ROHF => OrbitalSource::SemiCanonical,
                _ => OrbitalSource::Canonical,
            },
            semi_diagonalize: false,
            stored: true,
            release: false,
            channels: self.mol.spin_channel,
        }
    }

    /// Plans the transformation of the integrals of a Bethe-Salpeter calculation.
    pub fn generate_ri3mo_bse(&self) -> (p: TransformPlan)
        ensures
            p == repeated_plan(*self),
    {
        self.generate_ri3mo_rayon_for_multiple_times()
    }

    /// Plans the transformation for all orbitals, which are the canonical ones.
    pub fn generate_ri3mo_full_rayon(&self) -> (p: TransformPlan)
        ensures
            p == full_plan(*self),
    {
        TransformPlan {
            orbitals: OrbitalSource::Canonical,
            semi_diagonalize: false,
            stored: true,
            release: true,
            channels: self.mol.spin_channel,
        }
    }
}

/// Plans the transformation for perturbation theory and the random-phase approximation:
/// rows are the virtual orbitals, columns the occupied ones.
pub fn generate_ri3mo_rayon_for_pt2_and_rpa(scf: &SCF, rimatr: bool) -> (r: (
    Range<usize>,
    Range<usize>,
    TransformPlan,
))
    requires
        scf.mol.spin_channel <= 2,
        rimatr || 1 <= scf.mol.spin_channel,
        scf.homo@[0] < usize::MAX,
        scf.homo@[1] < usize::MAX,
    ensures
        (r.0.start as int, r.0.end as int) == virtual_range(*scf),
        (r.1.start as int, r.1.end as int) == occupied_range(*scf),
        r.2 == transform_plan(*scf, rimatr),
{
    let (occupied, unoccupied) = determine_ri3mo_size_for_pt2_and_rpa(scf);
    let plan: TransformPlan = scf.generate_ri3mo_rayon(rimatr);
    (unoccupied, occupied, plan)
}

/// The orbital blocks of a restricted open-shell calculation that are diagonalized
/// separately: occupied and virtual ones of the first spin, then of the second.
pub struct SemiCanonicalBlocks {
    pub alpha_occupied: Range<usize>,
    pub alpha_virtual: Range<usize>,
    pub beta_occupied: Range<usize>,
    pub beta_virtual: Range<usize>,
}

/// The blocks that are diagonalized separately for semi-canonical orbitals: each spin's
/// orbitals are split at its lowest unoccupied one.
pub fn semi_diagonalize_hamiltonian_outside(scf: &SCF) -> (b: SemiCanonicalBlocks)
    ensures
        b.alpha_occupied.start == 0,
        b.alpha_occupied.end == scf.lumo@[0],
        b.alpha_virtual.start == scf.lumo@[0],
        b.alpha_virtual.end == scf.mol.num_state,
        b.beta_occupied.start == 0,
        b.beta_occupied.end == scf.lumo@[1],
        b.beta_virtual.start == scf.lumo@[1],
        b.beta_virtual.end == scf.mol.num_state,
{
    SemiCanonicalBlocks {
        alpha_occupied: 0..scf.lumo[0],
        alpha_virtual: scf.lumo[0]..scf.mol.num_state,
        beta_occupied: 0..scf.lumo[1],
        beta_virtual: scf.lumo[1]..scf.mol.num_state,
    }
}

/// How many Fock matrices are diagonalized.
pub open spec fn diagonalized(t: SCFType, channels: usize) -> usize {
    if t == SCFType::ROHF {
        1
    } else {
        channels
    }
}

/// How many Fock matrices are diagonalized: a restricted open-shell calculation has one
/// effective matrix.
pub fn diagonalize_hamiltonian_outside_fast(scf: &SCF) -> (n: usize)
    ensures
        n == diagonalized(scf.scftype, scf.mol.spin_channel),
{
    match scf.scftype {
        SCFType::ROHF => 1,
        _ => scf.mol.spin_channel,
    }
}

/// The smallest of a number and the first `n` entries of a list.
pub open spec fn least(start: int, found: Seq<usize>, n: int) -> int
    decreases n,
{
    if n <= 0 {
        start
    } else {
        min_of(least(start, found, n - 1), found[n - 1] as int)
    }
}

/// The number of states after a diagonalization that may find fewer of them in a channel.
pub fn diagonalize_hamiltonian_outside_rayon(scf: &SCF, found: &Vec<usize>) -> (n: usize)
    ensures
        n == least(scf.mol.num_state as int, found@, found@.len() as int),
{
    let mut n: usize = scf.mol.num_state;
    let mut i: usize = 0;
    while i < found.len()
        invariant
            i <= found@.len(),
            n == least(scf.mol.num_state as int, found@, i as int),
        decreases found@.len() - i,
    {
        if found[i] < n {
            n = found[i];
        }
        i += 1;
    }
    n
}

/// What the density of a channel is made from: the first orbitals of a channel, each weighted
/// by its occupation in the density's own channel.
#[derive(Clone, Copy, Debug, PartialEq, Eq, Structural)]
pub struct DensitySource {
    /// The channel whose orbitals are taken.
    pub channel: usize,
    /// The number of orbitals that are taken, from the first on.
    pub columns: usize,
}

/// The channel whose orbitals make up the density of channel `spin`.
pub open spec fn orbital_channel(t: SCFType, spin: usize) -> usize {
    if t == SCFType::ROHF {
        0
    } else {
        spin
    }
}

/// What the density of channel `spin` is made from. All channels of a restricted open shell
/// share the orbitals of the first; orbitals behind the last occupied one are left out.
pub fn generate_density_matrix_outside(scf: &SCF, spin: usize, occupation: &Vec<Real>) -> (s:
    DensitySource)
    ensures
        s.channel == orbital_channel(scf.scftype, spin),
        s.columns == occupied_count(occupation@, Real { bits: ORB_OCCUPATION_THRESHOLD }),
{
    let channel: usize = match scf.scftype {
        SCFType::ROHF => 0,
        _ => spin,
    };
    DensitySource { channel, columns: occupied_orbital_count(occupation) }
}

/// A rotation of the two frontier orbitals of one spin by an angle in degrees.
#[derive(Clone, Copy, Debug, PartialEq, Eq, Structural)]
pub struct GuessRotation {
    pub spin: usize,
    pub homo: usize,
    pub lumo: usize,
    pub degrees: Real,
    /// The second spin is rotated the other way, so that the spins part.
    pub reversed: bool,
    /// The angle is outside the recommended range.
    pub unusual: bool,
}

/// The pattern of 45, the largest recommended angle.
pub const LARGEST_ANGLE: u64 = 0x4046_8000_0000_0000;

/// The rotation of spin `i`.
pub open spec fn guess_rotation(scf: &SCF, degrees: Real, i: int) -> GuessRotation {
    GuessRotation {
        spin: i as usize,
        homo: scf.homo@[i],
        lumo: scf.lumo@[i],
        degrees,
        reversed: i != 0,
        unusual: degrees.below(crate::binary64::zero()) || (Real {
            bits: LARGEST_ANGLE,
        }).below(degrees),
    }
}

/// The rotations that mix the frontier orbitals, one angle for each spin.
pub fn apply_guess_mix(scf: &SCF, degrees: &Vec<Real>) -> (r: Vec<GuessRotation>)
    requires
        degrees@.len() <= 2,
    ensures
        r@.len() == degrees@.len(),
        forall|i: int|
            0 <= i < r@.len() ==> #[trigger] r@[i] == guess_rotation(scf, degrees@[i], i),
{
    let mut r: Vec<GuessRotation> = Vec::new();
    let mut i: usize = 0;
    while i < degrees.len()
        invariant
            i <= degrees@.len() <= 2,
            r@.len() == i,
            forall|x: int|
                0 <= x < i ==> #[trigger] r@[x] == guess_rotation(scf, degrees@[x], x),
        decreases degrees@.len() - i,
    {
        let d: Real = degrees[i];
        r.push(
            GuessRotation {
                spin: i,
                homo: scf.homo[i],
                lumo: scf.lumo[i],
                degrees: d,
                reversed: i != 0,
                unusual: d.lt(Real { bits: 0 }) || d.gt(Real { bits: LARGEST_ANGLE }),
            },
        );
        i += 1;
    }
    r
}

/// How occupations are assigned.
#[derive(Clone, Copy, Debug, PartialEq, Eq, Structural)]
pub enum OCCType {
    /// By whole electrons.
    INTEGER,
    /// By the averaged shells of an atom.
    ATMSAD,
    /// By fractions of electrons among degenerate orbitals.
    FRAC,
}

/// The window of orbitals around forced occupations: from the lowest window start, at most
/// the last orbital, to the highest window end.
pub open spec fn window_of(last: int, windows: Seq<(usize, usize)>, n: int) -> (int, int)
    decreases n,
{
    if n <= 0 {
        (last, 0)
    } else {
        let w = window_of(last, windows, n - 1);
        (min_of(w.0, windows[n - 1].0 as int), max_of(w.1, windows[n - 1].1 as int))
    }
}

/// The window of orbitals whose occupations are printed after forced occupations.
pub fn occupation_window(orbitals: usize, windows: &Vec<(usize, usize)>) -> (r: (usize, usize))
    requires
        orbitals > 0,
    ensures
        (r.0 as int, r.1 as int) == window_of(orbitals - 1, windows@, windows@.len() as int),
{
    let mut lo: usize = orbitals - 1;
    let mut hi: usize = 0;
    let mut i: usize = 0;
    while i < windows.len()
        invariant
            i <= windows@.len(),
            (lo as int, hi as int) == window_of(orbitals - 1, windows@, i as int),
        decreases windows@.len() - i,
    {
        let (x, y): (usize, usize) = windows[i];
        if x < lo {
            lo = x;
        }
        if y > hi {
            hi = y;
        }
        i += 1;
    }
    (lo, hi)
}

/// How occupations are assigned, and what is printed of them.
#[derive(Clone, Copy, Debug, PartialEq, Eq)]
pub struct OccupationPlan {
    pub source: OCCType,
    /// The occupations of some states are forced.
    pub forced: bool,
    /// The window of orbitals whose occupations are printed.
    pub window: Option<(usize, usize)>,
    /// The window is printed for the second channel too.
    pub both: bool,
}

/// How occupations are assigned, and what is printed of them.
pub open spec fn occupation_plan(
    source: OCCType,
    orbitals: int,
    windows: Seq<(usize, usize)>,
    print_level: usize,
    channels: usize,
) -> OccupationPlan {
    let w = window_of(orbitals - 1, windows, windows.len() as int);
    let shown = windows.len() > 0 && print_level >= 2;
    OccupationPlan {
        source,
        forced: windows.len() > 0,
        window: if shown {
            Some((w.0 as usize, w.1 as usize))
        } else {
            None
        },
        both: shown && channels == 2,
    }
}

/// Plans the occupation of the orbitals. `windows` holds a window for each forced
/// occupation; the occupations around them are printed on request.
pub fn generate_occupation_outside(
    scf: &SCF,
    source: OCCType,
    orbitals: usize,
    windows: &Vec<(usize, usize)>,
    print_level: usize,
) -> (p: OccupationPlan)
    requires
        windows@.len() > 0 && print_level >= 2 ==> orbitals > 0,
    ensures
        p == occupation_plan(source, orbitals as int, windows@, print_level, scf.mol.spin_channel),
{
    let forced: bool = windows.len() > 0;
    let window: Option<(usize, usize)> = if forced && print_level >= 2 {
        Some(occupation_window(orbitals, windows))
    } else {
        None
    };
    OccupationPlan { source, forced, window, both: window.is_some() && scf.mol.spin_channel == 2 }
}

/// How the forces on point charges are evaluated.
#[derive(Clone, Copy, Debug, PartialEq, Eq, Structural)]
pub struct GhostForces {
    /// The number of charges, each of which gets a force.
    pub charges: usize,
    /// The sum of both spin densities acts, rather than the first alone.
    pub both_densities: bool,
}

/// The pattern of 1e-12, up to which a squared distance counts as none.
pub const NO_DISTANCE: u64 = 0x3d71_9799_812d_ea11;

/// Whether a nucleus at a squared distance acts on a point charge.
pub open spec fn acts(squared_distance: Real) -> bool {
    (Real { bits: NO_DISTANCE }).below(squared_distance)
}

/// Whether a nucleus at a squared distance acts on a point charge.
pub fn nucleus_acts(squared_distance: Real) -> (b: bool)
    ensures
        b == acts(squared_distance),
{
    squared_distance.gt(Real { bits: NO_DISTANCE })
}

/// How the forces on point charges are evaluated.
pub open spec fn ghost_forces(
    charges: usize,
    polarized: bool,
    densities: usize,
    second_complete: bool,
) -> Option<GhostForces> {
    if charges == 0 {
        None
    } else {
        Some(
            GhostForces {
                charges,
                both_densities: polarized && densities > 1 && second_complete,
            },
        )
    }
}

impl SCF {
    /// Plans the forces on point charges; `None` without charges. Both spin densities act
    /// only with spin polarization, and if the second density has the full size.
    pub fn compute_ghost_charge_forces(&self, densities: usize, second_complete: bool) -> (r:
        Option<GhostForces>)
        ensures
            r == ghost_forces(
                self.mol.point_charges,
                self.ctrl.spin_polarization,
                densities,
                second_complete,
            ),
    {
        if self.mol.point_charges == 0 {
            return None;
        }
        Some(
            GhostForces {
                charges: self.mol.point_charges,
                both_densities: self.ctrl.spin_polarization && densities > 1 && second_complete,
            },
        )
    }
}

/// Where an element of a Cartesian integral derivative is read from and written to, when
/// the two basis functions change places: direction `t`, functions `mu` and `nu`.
pub open spec fn transposed(nao: int, t: int, mu: int, nu: int) -> (int, int) {
    (mu + nu * nao + t * (nao * nao), t * nao * nao + mu * nao + nu)
}

/// Where an element of a Cartesian integral derivative is read from and written to.
pub fn transposed_derivative(nao: usize, t: usize, mu: usize, nu: usize) -> (r: (usize, usize))
    requires
        t < 3,
        mu < nao,
        nu < nao,
        3 * (nao * nao) <= usize::MAX,
    ensures
        (r.0 as int, r.1 as int) == transposed(nao as int, t as int, mu as int, nu as int),
{
    proof {
        law_transposed(nao as int, t as int, mu as int, nu as int, t as int, mu as int, nu as int);
        let n = nao as int;
        assert(0 <= nu * n && 0 <= mu * n && 0 <= t * (n * n) && 0 <= n * n && t * n * n == t * (n
            * n) && 0 <= t * n) by (nonlinear_arith)
            requires
                0 <= nu,
                0 <= mu,
                0 <= t,
                0 <= n,
        ;
        assert(t * n <= t * (n * n)) by (nonlinear_arith)
            requires
                n >= 1,
                t >= 0,
        ;
    }
    (mu + nu * nao + t * (nao * nao), t * nao * nao + mu * nao + nu)
}

/// Elements are read and written inside the array, and no two of them share a place.
pub proof fn law_transposed(
    nao: int,
    t: int,
    mu: int,
    nu: int,
    t2: int,
    mu2: int,
    nu2: int,
)
    requires
        0 <= t < 3,
        0 <= mu < nao,
        0 <= nu < nao,
        0 <= t2 < 3,
        0 <= mu2 < nao,
        0 <= nu2 < nao,
    ensures
        0 <= transposed(nao, t, mu, nu).0 < 3 * (nao * nao),
        0 <= transposed(nao, t, mu, nu).1 < 3 * (nao * nao),
        transposed(nao, t, mu, nu).0 == transposed(nao, t2, mu2, nu2).0 ==> (t, mu, nu) == (
            t2,
            mu2,
            nu2,
        ),
        transposed(nao, t, mu, nu).1 == transposed(nao, t2, mu2, nu2).1 ==> (t, mu, nu) == (
            t2,
            mu2,
            nu2,
        ),
{
    let a = nao * nao;
    crate::solvent::segments::lemma_cells(nao, nu, mu, nu2, mu2);
    crate::solvent::segments::lemma_cells(nao, mu, nu, mu2, nu2);
    crate::solvent::segments::lemma_cells(nao, nu2, mu2, nu, mu);
    crate::solvent::segments::lemma_cells(nao, mu2, nu2, mu, nu);
    assert(t * nao * nao == t * a) by (nonlinear_arith)
        requires
            a == nao * nao,
    ;
    assert(t2 * nao * nao == t2 * a) by (nonlinear_arith)
        requires
            a == nao * nao,
    ;
    assert(0 <= t * a <= 2 * a) by (nonlinear_arith)
        requires
            0 <= t <= 2,
            0 <= a,
    ;
    if t < t2 {
        assert(t * a + a <= t2 * a) by (nonlinear_arith)
            requires
                t + 1 <= t2,
                0 <= a,
        ;
    }
    if t2 < t {
        assert(t2 * a + a <= t * a) by (nonlinear_arith)
            requires
                t2 + 1 <= t,
                0 <= a,
        ;
    }
}

/// The highest occupied orbital of all channels belongs to one of them, and so does the lowest
/// unoccupied one unless it is the number of states.
pub proof fn law_frontiers_attained(homo: Seq<usize>, lumo: Seq<usize>, num_state: int, n: int)
    requires
        0 <= n,
    ensures
        top_homo(homo, n) == 0 || exists|s: int|
            0 <= s < n && #[trigger] homo[s] == top_homo(homo, n),
        bottom_lumo(lumo, num_state, n) == num_state || exists|s: int|
            0 <= s < n && #[trigger] lumo[s] == bottom_lumo(lumo, num_state, n),
        top_homo(homo, n) >= 0,
    decreases n,
{
    if n > 0 {
        law_frontiers_attained(homo, lumo, num_state, n - 1);
        let (t, b) = (top_homo(homo, n), bottom_lumo(lumo, num_state, n));
        if t == homo[n - 1] as int {
            assert(homo[n - 1] == t);
        } else if t != 0 {
            let s = choose|s: int| 0 <= s < n - 1 && #[trigger] homo[s] == top_homo(homo, n - 1);
            assert(homo[s] == t);
        }
        if b == lumo[n - 1] as int {
            assert(lumo[n - 1] == b);
        } else if b != num_state {
            let s = choose|s: int|
                0 <= s < n - 1 && #[trigger] lumo[s] == bottom_lumo(lumo, num_state, n - 1);
            assert(lumo[s] == b);
        }
    }
}

/// Correlation methods take semi-canonical orbitals exactly for a restricted open shell, and
/// make them first exactly there. Integrals in memory are transformed and given up; all channels
/// are transformed.
pub proof fn law_transform_plan(scf: SCF, rimatr: bool)
    ensures
        ({
            let p = transform_plan(scf, rimatr);
            &&& p.orbitals == OrbitalSource::SemiCanonical <==> scf.scftype == SCFType::ROHF
            &&& p.semi_diagonalize <==> p.orbitals == OrbitalSource::SemiCanonical
            &&& p.stored <==> rimatr
            &&& p.release <==> p.stored
            &&& p.channels == scf.mol.spin_channel
        }),
{
}

/// A transformation that is not the last keeps the integrals and makes no orbitals, but takes
/// the same ones. The transformation for all orbitals takes canonical ones in any case and gives
/// the integrals up.
pub proof fn law_repeated_plan(scf: SCF)
    ensures
        repeated_plan(scf).orbitals == transform_plan(scf, true).orbitals,
        repeated_plan(scf).channels == transform_plan(scf, true).channels,
        repeated_plan(scf).stored && !repeated_plan(scf).release,
        !repeated_plan(scf).semi_diagonalize,
        full_plan(scf).orbitals == OrbitalSource::Canonical,
        full_plan(scf).channels == transform_plan(scf, true).channels,
        full_plan(scf).stored && full_plan(scf).release,
        !full_plan(scf).semi_diagonalize,
{
}

/// A restricted open shell has one effective matrix, so its densities share the orbitals of the
/// first channel; every other calculation diagonalizes each channel and keeps to its own.
pub proof fn law_shared_orbitals(t: SCFType, channels: usize, spin: usize)
    ensures
        t == SCFType::ROHF ==> diagonalized(t, channels) == 1 && orbital_channel(t, spin) == 0,
        t != SCFType::ROHF ==> diagonalized(t, channels) == channels && orbital_channel(t, spin)
            == spin,
        spin < channels ==> orbital_channel(t, spin) < diagonalized(t, channels),
{
}

/// The number of states is the smallest of what was there and what each channel found.
pub proof fn law_least(start: int, found: Seq<usize>, n: int, i: int)
    requires
        0 <= n,
    ensures
        least(start, found, n) <= start,
        0 <= i < n ==> least(start, found, n) <= found[i],
        least(start, found, n) == start || exists|k: int|
            0 <= k < n && #[trigger] found[k] == least(start, found, n),
    decreases n,
{
    if n > 0 {
        law_least(start, found, n - 1, i);
        let l = least(start, found, n);
        if l == found[n - 1] as int {
            assert(found[n - 1] == l);
        } else if l != start {
            let k = choose|k: int|
                0 <= k < n - 1 && #[trigger] found[k] == least(start, found, n - 1);
            assert(found[k] == l);
        }
    }
}

/// The two spins are rotated in opposite directions, each between its own frontier orbitals. An
/// angle is unusual exactly below zero and above 45 degrees.
pub proof fn law_guess_rotation(scf: &SCF, degrees: Real, i: int)
    requires
        0 <= i < 2,
    ensures
        ({
            let r = guess_rotation(scf, degrees, i);
            &&& r.spin == i
            &&& r.homo == scf.homo@[i]
            &&& r.lumo == scf.lumo@[i]
            &&& r.degrees == degrees
            &&& r.reversed <==> i == 1
            &&& !degrees.nan() ==> (!r.unusual <==> degrees.bits == 0x8000_0000_0000_0000
                || degrees.bits <= 0x4046_8000_0000_0000)
        }),
{
}

/// The printed window reaches over every forced occupation, starts no higher than the last
/// orbital, and is no larger than that.
pub proof fn law_window(last: int, windows: Seq<(usize, usize)>, n: int, i: int)
    requires
        0 <= n,
    ensures
        ({
            let w = window_of(last, windows, n);
            &&& w.0 <= last
            &&& 0 <= w.1
            &&& 0 <= i < n ==> w.0 <= windows[i].0 && windows[i].1 <= w.1
            &&& w.0 == last || exists|k: int| 0 <= k < n && (#[trigger] windows[k]).0 == w.0
            &&& w.1 == 0 || exists|k: int| 0 <= k < n && (#[trigger] windows[k]).1 == w.1
        }),
    decreases n,
{
    if n > 0 {
        law_window(last, windows, n - 1, i);
        let (v, w) = (window_of(last, windows, n - 1), window_of(last, windows, n));
        if w.0 == windows[n - 1].0 as int {
            assert(windows[n - 1].0 == w.0);
        } else if w.0 != last {
            let k = choose|k: int| 0 <= k < n - 1 && (#[trigger] windows[k]).0 == v.0;
            assert(windows[k].0 == w.0);
        }
        if w.1 == windows[n - 1].1 as int {
            assert(windows[n - 1].1 == w.1);
        } else if w.1 != 0 {
            let k = choose|k: int| 0 <= k < n - 1 && (#[trigger] windows[k]).1 == v.1;
            assert(windows[k].1 == w.1);
        }
    }
}

/// A nucleus acts on a charge exactly from beyond a squared distance of 1e-12.
pub proof fn law_acts(d: Real, farther: Real)
    ensures
        acts(d) && d.below(farther) ==> acts(farther),
        acts(Real { bits: 0x3d71_9799_812d_ea12 }),
        !acts(Real { bits: 0x3d71_9799_812d_ea11 }),
        d.nan() ==> !acts(d),
{
}

/// Every point charge gets a force, by both spin densities exactly when spins are polarized and
/// there are two complete densities.
pub proof fn law_ghost_forces(charges: usize, polarized: bool, densities: usize, complete: bool)
    ensures
        ({
            let f = ghost_forces(charges, polarized, densities, complete);
            &&& f is Some <==> charges > 0
            &&& f is Some ==> (f->0).charges == charges
            &&& f is Some ==> ((f->0).both_densities <==> polarized && complete && densities >= 2)
        }),
{
}

/// An element is written where the one with its two functions exchanged is read, so what is
/// written is the transpose in each direction.
pub proof fn law_transposed_is_exchange(nao: int, t: int, mu: int, nu: int)
    ensures
        transposed(nao, t, mu, nu).1 == transposed(nao, t, nu, mu).0,
        transposed(nao, t, mu, nu).0 == transposed(nao, t, nu, mu).1,
        transposed(nao, t, mu, mu).0 == transposed(nao, t, mu, mu).1,
        transposed(nao, t + 1, mu, nu).0 == transposed(nao, t, mu, nu).0 + nao * nao,
        transposed(nao, t, mu + 1, nu).0 == transposed(nao, t, mu, nu).0 + 1,
        transposed(nao, t, mu, nu + 1).0 == transposed(nao, t, mu, nu).0 + nao,
{
    assert(t * nao * nao == t * (nao * nao)) by (nonlinear_arith);
    assert((t + 1) * (nao * nao) == t * (nao * nao) + nao * nao) by (nonlinear_arith);
    assert((nu + 1) * nao == nu * nao + nao) by (nonlinear_arith);
}

/// The ranges for correlation methods hold every occupied orbital from the first correlated one on
/// and every unoccupied orbital, of each channel, and reach no further than one channel needs.
pub proof fn law_correlation_ranges(scf: SCF, s: int, o: int)
    requires
        0 <= s < scf.mol.spin_channel <= 2,
    ensures
        scf.mol.start_mo <= o <= scf.homo@[s] ==> occupied_range(scf).0 <= o < occupied_range(scf).1,
        scf.lumo@[s] <= o < scf.mol.num_state ==> virtual_range(scf).0 <= o < virtual_range(scf).1,
        occupied_range(scf).0 == scf.mol.start_mo,
        virtual_range(scf).1 == scf.mol.num_state,
        scf.mol.spin_channel == 1 ==> occupied_range(scf).1 == scf.homo@[0] + 1,
        scf.mol.spin_channel == 2 ==> occupied_range(scf).1 == scf.homo@[0] + 1 || occupied_range(
            scf,
        ).1 == scf.homo@[1] + 1,
        scf.mol.spin_channel == 2 ==> virtual_range(scf).0 == scf.lumo@[0] || virtual_range(scf).0
            == scf.lumo@[1] || virtual_range(scf).0 == scf.mol.num_state,
{
    let n = scf.mol.spin_channel as int;
    law_ri3mo_ranges_cover(scf.homo@, scf.lumo@, scf.mol.num_state as int, n, s);
    reveal_with_fuel(top_homo, 3);
    reveal_with_fuel(bottom_lumo, 3);
}

/// Occupations are forced exactly where there are windows, and these are printed from level 2 on,
/// for both channels where there are two. Where occupations come from does not depend on that.
pub proof fn law_occupation_plan(
    source: OCCType,
    orbitals: int,
    windows: Seq<(usize, usize)>,
    print_level: usize,
    channels: usize,
)
    ensures
        ({
            let p = occupation_plan(source, orbitals, windows, print_level, channels);
            &&& p.source == source
            &&& p.forced <==> windows.len() > 0
            &&& p.window is Some <==> p.forced && print_level >= 2
            &&& p.both <==> p.window is Some && channels == 2
            &&& 0 < orbitals <= usize::MAX && p.window is Some ==> {
                let w = window_of(orbitals - 1, windows, windows.len() as int);
                (p.window->0).0 == w.0 && (p.window->0).1 == w.1
            }
        }),
{
    if 0 < orbitals <= usize::MAX {
        lemma_window_bounds(orbitals - 1, windows, windows.len() as int);
    }
}

proof fn lemma_window_bounds(last: int, windows: Seq<(usize, usize)>, n: int)
    requires
        0 <= last <= usize::MAX,
    ensures
        0 <= window_of(last, windows, n).0 <= usize::MAX,
        0 <= window_of(last, windows, n).1 <= usize::MAX,
    decreases n,
{
    if n > 0 {
        lemma_window_bounds(last, windows, n - 1);
    }
}

} // verus!
