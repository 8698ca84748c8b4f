//! The self-consistent-field iteration: when it stops, and what is done in which order.

use crate::binary64::Real;
use crate::keywords::is_word;
use crate::scf_io::orbitals::OCCType;
use crate::scf_io::setup::SCF;
use vstd::prelude::*;

verus! {

/// What has to be small for convergence besides the change of the energy.
#[derive(Clone, Copy, Debug, PartialEq, Eq, Structural)]
pub enum ConvergenceCriteria {
    /// The orbital gradient.
    Gradient,
    /// The change of the density.
    Density,
    /// The changes of the density and of the orbital energies.
    DensityAndEigenvalues,
}

/// The criteria that a keyword names.
pub open spec fn criteria_of(keyword: Seq<char>) -> Option<ConvergenceCriteria> {
    if keyword == "g"@ {
        Some(ConvergenceCriteria::Gradient)
    } else if keyword == "dm"@ {
        Some(ConvergenceCriteria::Density)
    } else if keyword == "dm,eev"@ {
        Some(ConvergenceCriteria::DensityAndEigenvalues)
    } else {
        None
    }
}

impl ConvergenceCriteria {
    /// The criteria that a keyword names.
    pub fn from_keyword(keyword: &String) -> (r: Option<ConvergenceCriteria>)
        ensures
            r == criteria_of(keyword@),
    {
        if is_word(keyword, "g") {
            Some(ConvergenceCriteria::Gradient)
        } else if is_word(keyword, "dm") {
            Some(ConvergenceCriteria::Density)
        } else if is_word(keyword, "dm,eev") {
            Some(ConvergenceCriteria::DensityAndEigenvalues)
        } else {
            None
        }
    }
}

/// The changes made by one iteration; those of the second spin follow the first.
#[derive(Clone, Copy, Debug, PartialEq, Eq, Structural)]
pub struct ScfChanges {
    /// The change of the total energy.
    pub energy: Real,
    /// The change of the total energy less the entropy times the width of this iteration.
    pub free_energy: Real,
    pub eigenvalues: Real,
    pub density_alpha: Real,
    pub density_beta: Real,
    pub gradient_alpha: Real,
    pub gradient_beta: Real,
}

/// The largest changes of a converged iteration.
#[derive(Clone, Copy, Debug, PartialEq, Eq, Structural)]
pub struct ScfThresholds {
    pub energy: Real,
    pub eigenvalues: Real,
    pub density: Real,
    pub gradient: Real,
}

/// Whether the changes of an iteration are small enough. With smeared occupations the free
/// energy counts.
pub open spec fn small_changes(
    criteria: ConvergenceCriteria,
    c: ScfChanges,
    t: ScfThresholds,
    spin_channel: int,
    smeared: bool,
) -> bool {
    &&& (Real {
        bits: (if smeared {
            c.free_energy
        } else {
            c.energy
        }).magnitude() as u64,
    }).at_most(t.energy)
    &&& match criteria {
        ConvergenceCriteria::Gradient => {
            &&& c.gradient_alpha.at_most(t.gradient)
            &&& spin_channel == 2 ==> c.gradient_beta.at_most(t.gradient)
        },
        ConvergenceCriteria::Density => {
            &&& c.density_alpha.at_most(t.density)
            &&& spin_channel == 2 ==> c.density_beta.at_most(t.density)
        },
        ConvergenceCriteria::DensityAndEigenvalues => {
            &&& c.density_alpha.at_most(t.density)
            &&& c.eigenvalues.at_most(t.eigenvalues)
            &&& spin_channel == 2 ==> c.density_beta.at_most(t.density)
        },
    }
}

/// Whether the iteration has converged, and whether it has used up its cycles; neither
/// during the first two.
pub open spec fn convergence(
    criteria: ConvergenceCriteria,
    c: ScfChanges,
    t: ScfThresholds,
    spin_channel: int,
    smeared: bool,
    num_iter: int,
    max_cycle: int,
) -> (bool, bool) {
    if num_iter < 2 {
        (false, false)
    } else {
        (small_changes(criteria, c, t, spin_channel, smeared), num_iter >= max_cycle)
    }
}

/// The energy that iterations are compared by.
#[derive(Clone, Copy, Debug, PartialEq, Eq, Structural)]
pub enum EnergyKind {
    Total,
    /// The total energy less the smearing entropy times the width.
    Free,
}

/// The energy that iterations are compared by.
pub open spec fn compared_energy(smeared: bool) -> EnergyKind {
    if smeared {
        EnergyKind::Free
    } else {
        EnergyKind::Total
    }
}

/// The number of states whose orbital energies are printed at the end.
pub open spec fn printed_count(first: int, second: int, num_state: int) -> int {
    let top = if first >= second { first } else { second };
    if top + 4 <= num_state {
        top + 4
    } else {
        num_state
    }
}

impl SCF {
    /// The energy that iterations are compared by: the free energy with smeared occupations.
    pub fn energy_kind(&self) -> (k: EnergyKind)
        ensures
            k == compared_energy(self.ctrl.smearing is Some),
    {
        if self.ctrl.smearing.is_some() {
            EnergyKind::Free
        } else {
            EnergyKind::Total
        }
    }

    /// Checks whether the iteration has converged, and whether it has used up its cycles.
    pub fn check_scf_convergence(&self, c: ScfChanges, num_iter: usize) -> (r: (bool, bool))
        ensures
            r == convergence(
                self.ctrl.scf_conv_criteria,
                c,
                self.ctrl.thresholds,
                self.mol.spin_channel as int,
                self.ctrl.smearing is Some,
                num_iter as int,
                self.ctrl.max_scf_cycle as int,
            ),
    {
        if num_iter < 2 {
            return (false, false);
        }
        let t: ScfThresholds = self.ctrl.thresholds;
        let two: bool = self.mol.spin_channel == 2;
        let energy: Real = match self.energy_kind() {
            EnergyKind::Free => c.free_energy,
            EnergyKind::Total => c.energy,
        };
        let mut small: bool = energy.abs().le(t.energy);
        match self.ctrl.scf_conv_criteria {
            ConvergenceCriteria::Gradient => {
                small = small && c.gradient_alpha.le(t.gradient);
                if two {
                    small = small && c.gradient_beta.le(t.gradient);
                }
            },
            ConvergenceCriteria::Density => {
                small = small && c.density_alpha.le(t.density);
                if two {
                    small = small && c.density_beta.le(t.density);
                }
            },
            ConvergenceCriteria::DensityAndEigenvalues => {
                small = small && c.density_alpha.le(t.density) && c.eigenvalues.le(t.eigenvalues);
                if two {
                    small = small && c.density_beta.le(t.density);
                }
            },
        }
        (small, num_iter >= self.ctrl.max_scf_cycle)
    }

    /// The number of states whose orbital energies are printed at the end: four above the
    /// highest occupied one, as far as there are any.
    pub fn states_to_print(&self) -> (n: usize)
        requires
            self.homo@[0] <= usize::MAX - 4,
            self.homo@[1] <= usize::MAX - 4,
        ensures
            n == printed_count(
                self.homo@[0] as int,
                self.homo@[1] as int,
                self.mol.num_state as int,
            ),
    {
        let top: usize = if self.homo[0] >= self.homo[1] {
            self.homo[0]
        } else {
            self.homo[1]
        };
        if top + 4 <= self.mol.num_state {
            top + 4
        } else {
            self.mol.num_state
        }
    }
}

/// One piece of work of the iteration.
#[derive(Clone, Copy, Debug, PartialEq, Eq, Structural)]
pub enum ScfAction {
    BuildFock,
    UpdateGradient,
    InitializeRecords,
    Diagonalize,
    Occupy,
    /// Smear the occupations at the initial width.
    SmearInitial,
    /// Smear the occupations at the width of the current iteration.
    Smear,
    /// Mix the frontier orbitals.
    MixGuess,
    RefreshRecords,
    BuildDensity,
    UpdateRecords,
    /// Make the next Fock matrix from the records.
    PrepareNextInput,
    /// Recompute the solvent charges.
    RefreshSolvent,
    PrintGap,
    CheckConvergence,
    /// Occupy the orbitals by whole electrons.
    OccupyInteger,
    /// Print the energy of the iteration.
    ReportIteration,
    /// Print the ranges of the solvent's matrices.
    ReportSolvent,
    /// Print the orbital energies around the frontier orbitals.
    PrintEigenvalues,
    PrintEigenvectors,
}

/// The settings of the iteration.
#[derive(Clone, Copy, Debug, PartialEq, Eq, Structural)]
pub struct ScfSettings {
    /// Only the initial guess is evaluated.
    pub noiter: bool,
    pub smear: bool,
    pub guess_mix: bool,
    /// The iteration in which the frontier orbitals are mixed.
    pub start_mix_cycle: usize,
    /// A solvent model is set up.
    pub solvent: bool,
    pub print_level: usize,
    pub occupation_type: OCCType,
}

/// The state of the iteration.
#[derive(Clone, Copy, Debug, PartialEq, Eq, Structural)]
pub struct ScfLoop {
    pub settings: ScfSettings,
    /// The number of completed record updates.
    pub num_iter: usize,
    /// The frontier orbitals need no mixing any more.
    pub mix_done: bool,
    pub converged: bool,
    pub exhausted: bool,
}

/// A piece of work that is done under a condition.
pub open spec fn only_if(b: bool, actions: Seq<ScfAction>) -> Seq<ScfAction> {
    if b {
        actions
    } else {
        seq![]
    }
}

/// The work before the first iteration.
pub open spec fn prologue(s: ScfSettings) -> Seq<ScfAction> {
    seq![
        ScfAction::BuildFock,
        ScfAction::UpdateGradient,
        ScfAction::InitializeRecords,
    ] + only_if(
        !s.noiter,
        seq![ScfAction::Diagonalize, ScfAction::Occupy] + only_if(
            s.smear,
            seq![ScfAction::SmearInitial],
        ) + only_if(s.guess_mix && s.start_mix_cycle == 0, seq![ScfAction::MixGuess]) + seq![
            ScfAction::BuildDensity,
            ScfAction::UpdateRecords,
        ],
    )
}

/// The state before the first iteration.
pub open spec fn initial_state(s: ScfSettings) -> ScfLoop {
    ScfLoop {
        settings: s,
        num_iter: 1,
        mix_done: s.start_mix_cycle == 0,
        converged: false,
        exhausted: false,
    }
}

impl ScfLoop {
    /// Whether the iteration is over; without iterating it is over at once.
    pub open spec fn over(self) -> bool {
        self.settings.noiter || self.converged || self.exhausted
    }

    /// Whether this iteration is the one asked for mixing the frontier orbitals.
    pub open spec fn mixes_now(self) -> bool {
        self.settings.guess_mix && !self.mix_done && self.num_iter
            == self.settings.start_mix_cycle
    }

    /// Whether the frontier orbitals are still waiting to be mixed once the scheduled
    /// mixing of this iteration has been done.
    pub open spec fn mix_pending(self) -> bool {
        self.settings.guess_mix && !self.mix_done && !self.mixes_now()
    }

    /// The work of one iteration up to the convergence check.
    pub open spec fn head(self) -> Seq<ScfAction> {
        seq![ScfAction::PrepareNextInput, ScfAction::Diagonalize, ScfAction::Occupy] + only_if(
            self.settings.smear,
            seq![ScfAction::Smear],
        ) + only_if(
            self.mixes_now(),
            seq![ScfAction::MixGuess, ScfAction::RefreshRecords],
        ) + seq![ScfAction::BuildDensity] + only_if(
            self.settings.solvent,
            seq![ScfAction::RefreshSolvent],
        ) + only_if(self.settings.print_level > 1, seq![ScfAction::PrintGap]) + seq![
            ScfAction::CheckConvergence,
        ]
    }

    /// The work of one iteration behind the convergence check. When the iteration would
    /// end with the mixing still pending, the orbitals are mixed now and it goes on.
    pub open spec fn tail(self, flags: (bool, bool)) -> Seq<ScfAction> {
        only_if(
            (flags.0 || flags.1) && self.mix_pending(),
            seq![
                ScfAction::MixGuess,
                ScfAction::RefreshRecords,
                ScfAction::BuildDensity,
                ScfAction::BuildFock,
                ScfAction::UpdateGradient,
                ScfAction::Diagonalize,
                ScfAction::Occupy,
            ],
        ) + seq![ScfAction::UpdateRecords] + only_if(
            self.settings.print_level > 0,
            seq![ScfAction::ReportIteration],
        )
    }

    /// The state after one iteration with the given outcome of the convergence check.
    pub open spec fn advanced(self, flags: (bool, bool)) -> ScfLoop {
        let forced = (flags.0 || flags.1) && self.mix_pending();
        ScfLoop {
            settings: self.settings,
            num_iter: (self.num_iter + 1) as usize,
            mix_done: self.mix_done || self.mixes_now() || forced,
            converged: flags.0 && !forced,
            exhausted: flags.1 && !forced,
        }
    }

    /// The state before the first iteration.
    pub fn new(s: ScfSettings) -> (l: ScfLoop)
        ensures
            l == initial_state(s),
    {
        ScfLoop {
            settings: s,
            num_iter: 1,
            mix_done: s.start_mix_cycle == 0,
            converged: false,
            exhausted: false,
        }
    }

    /// Whether the iteration is over; without iterating it is over at once.
    pub fn is_over(&self) -> (b: bool)
        ensures
            b == self.over(),
    {
        self.settings.noiter || self.converged || self.exhausted
    }

    /// The work of one iteration up to the convergence check.
    pub fn begin_iteration(&self) -> (r: Vec<ScfAction>)
        ensures
            r@ == self.head(),
    {
        let mut r: Vec<ScfAction> = Vec::new();
        r.push(ScfAction::PrepareNextInput);
        r.push(ScfAction::Diagonalize);
        r.push(ScfAction::Occupy);
        if self.settings.smear {
            r.push(ScfAction::Smear);
        }
        if self.settings.guess_mix && !self.mix_done && self.num_iter
            == self.settings.start_mix_cycle {
            r.push(ScfAction::MixGuess);
            r.push(ScfAction::RefreshRecords);
        }
        r.push(ScfAction::BuildDensity);
        if self.settings.solvent {
            r.push(ScfAction::RefreshSolvent);
        }
        if self.settings.print_level > 1 {
            r.push(ScfAction::PrintGap);
        }
        r.push(ScfAction::CheckConvergence);
        assert(r@ =~= self.head());
        r
    }

    /// Takes the outcome of the convergence check, and gives the rest of the iteration's
    /// work.
    pub fn end_iteration(&mut self, converged: bool, exhausted: bool) -> (r: Vec<ScfAction>)
        requires
            old(self).num_iter < usize::MAX,
        ensures
            r@ == old(self).tail((converged, exhausted)),
            *final(self) == old(self).advanced((converged, exhausted)),
    {
        let mut r: Vec<ScfAction> = Vec::new();
        let now: bool = self.settings.guess_mix && !self.mix_done && self.num_iter
            == self.settings.start_mix_cycle;
        let forced: bool = (converged || exhausted) && self.settings.guess_mix && !self.mix_done
            && !now;
        if forced {
            r.push(ScfAction::MixGuess);
            r.push(ScfAction::RefreshRecords);
            r.push(ScfAction::BuildDensity);
            r.push(ScfAction::BuildFock);
            r.push(ScfAction::UpdateGradient);
            r.push(ScfAction::Diagonalize);
            r.push(ScfAction::Occupy);
        }
        r.push(ScfAction::UpdateRecords);
        if self.settings.print_level > 0 {
            r.push(ScfAction::ReportIteration);
        }
        assert(r@ =~= self.tail((converged, exhausted)));
        self.num_iter = self.num_iter + 1;
        self.mix_done = self.mix_done || now || forced;
        self.converged = converged && !forced;
        self.exhausted = exhausted && !forced;
        r
    }
}

/// The work before the first iteration.
pub fn begin_scf(s: ScfSettings) -> (r: Vec<ScfAction>)
    ensures
        r@ == prologue(s),
{
    let mut r: Vec<ScfAction> = Vec::new();
    r.push(ScfAction::BuildFock);
    r.push(ScfAction::UpdateGradient);
    r.push(ScfAction::InitializeRecords);
    if !s.noiter {
        r.push(ScfAction::Diagonalize);
        r.push(ScfAction::Occupy);
        if s.smear {
            r.push(ScfAction::SmearInitial);
        }
        if s.guess_mix && s.start_mix_cycle == 0 {
            r.push(ScfAction::MixGuess);
        }
        r.push(ScfAction::BuildDensity);
        r.push(ScfAction::UpdateRecords);
    }
    assert(r@ =~= prologue(s));
    r
}

/// The work behind the last iteration: nothing without iterating.
pub open spec fn epilogue(s: ScfSettings) -> Seq<ScfAction> {
    only_if(
        !s.noiter,
        only_if(
            s.occupation_type == OCCType::FRAC,
            seq![ScfAction::OccupyInteger, ScfAction::BuildDensity],
        ) + seq![
            ScfAction::BuildFock,
            ScfAction::UpdateGradient,
            ScfAction::Diagonalize,
            ScfAction::Occupy,
        ] + only_if(s.solvent && s.print_level > 2, seq![ScfAction::ReportSolvent]) + only_if(
            s.print_level > 1,
            seq![ScfAction::PrintGap, ScfAction::PrintEigenvalues],
        ) + only_if(s.print_level > 3, seq![ScfAction::PrintEigenvectors]),
    )
}

/// The work behind the last iteration: a last Fock matrix without level shift, from whole
/// electrons if the occupations were fractional, and the final reports.
pub fn finish_scf(s: ScfSettings) -> (r: Vec<ScfAction>)
    ensures
        r@ == epilogue(s),
{
    let mut r: Vec<ScfAction> = Vec::new();
    if s.noiter {
        assert(r@ =~= epilogue(s));
        return r;
    }
    if matches!(s.occupation_type, OCCType::FRAC) {
        r.push(ScfAction::OccupyInteger);
        r.push(ScfAction::BuildDensity);
    }
    r.push(ScfAction::BuildFock);
    r.push(ScfAction::UpdateGradient);
    r.push(ScfAction::Diagonalize);
    r.push(ScfAction::Occupy);
    if s.solvent && s.print_level > 2 {
        r.push(ScfAction::ReportSolvent);
    }
    if s.print_level > 1 {
        r.push(ScfAction::PrintGap);
        r.push(ScfAction::PrintEigenvalues);
    }
    if s.print_level > 3 {
        r.push(ScfAction::PrintEigenvectors);
    }
    assert(r@ =~= epilogue(s));
    r
}

/// How often the frontier orbitals are mixed.
pub open spec fn mixings(actions: Seq<ScfAction>) -> nat
    decreases actions.len(),
{
    if actions.len() == 0 {
        0
    } else {
        mixings(actions.drop_last()) + (if actions.last() == ScfAction::MixGuess {
            1nat
        } else {
            0
        })
    }
}

proof fn lemma_mixings_concat(a: Seq<ScfAction>, b: Seq<ScfAction>)
    ensures
        mixings(a + b) == mixings(a) + mixings(b),
    decreases b.len(),
{
    if b.len() == 0 {
        assert(a + b =~= a);
    } else {
        assert((a + b).drop_last() =~= a + b.drop_last());
        lemma_mixings_concat(a, b.drop_last());
    }
}

proof fn lemma_no_mixings(a: Seq<ScfAction>)
    requires
        forall|i: int| 0 <= i < a.len() ==> #[trigger] a[i] != ScfAction::MixGuess,
    ensures
        mixings(a) == 0,
    decreases a.len(),
{
    if a.len() > 0 {
        assert(a.last() == a[a.len() - 1]);
        assert forall|i: int| 0 <= i < a.drop_last().len() implies #[trigger] a.drop_last()[i]
            != ScfAction::MixGuess by {
            assert(a.drop_last()[i] == a[i]);
        }
        lemma_no_mixings(a.drop_last());
    }
}

proof fn lemma_one_mixing(rest: Seq<ScfAction>)
    requires
        forall|i: int| 0 <= i < rest.len() ==> #[trigger] rest[i] != ScfAction::MixGuess,
    ensures
        mixings(seq![ScfAction::MixGuess] + rest) == 1,
{
    let one = seq![ScfAction::MixGuess];
    lemma_mixings_concat(one, rest);
    lemma_no_mixings(rest);
    assert(one.drop_last() =~= Seq::<ScfAction>::empty());
    assert(mixings(one.drop_last()) == 0);
    assert(mixings(one) == 1);
}

/// The work of a run whose convergence checks come out as given.
pub open spec fn run(l: ScfLoop, flags: Seq<(bool, bool)>) -> Seq<ScfAction>
    decreases flags.len(),
{
    if flags.len() == 0 {
        seq![]
    } else {
        l.head() + l.tail(flags[0]) + run(l.advanced(flags[0]), flags.skip(1))
    }
}

/// The state after a run whose convergence checks come out as given.
pub open spec fn after_run(l: ScfLoop, flags: Seq<(bool, bool)>) -> ScfLoop
    decreases flags.len(),
{
    if flags.len() == 0 {
        l
    } else {
        after_run(l.advanced(flags[0]), flags.skip(1))
    }
}

proof fn lemma_iteration_mixings(l: ScfLoop, flags: (bool, bool))
    ensures
        mixings(l.head() + l.tail(flags)) == (if l.settings.guess_mix && !l.mix_done
            && l.advanced(flags).mix_done {
            1nat
        } else {
            0
        }),
{
    let start = seq![ScfAction::PrepareNextInput, ScfAction::Diagonalize, ScfAction::Occupy]
        + only_if(l.settings.smear, seq![ScfAction::Smear]);
    let middle = only_if(
        l.mixes_now(),
        seq![ScfAction::MixGuess, ScfAction::RefreshRecords],
    );
    let end = seq![ScfAction::BuildDensity] + only_if(
        l.settings.solvent,
        seq![ScfAction::RefreshSolvent],
    ) + only_if(l.settings.print_level > 1, seq![ScfAction::PrintGap]) + seq![
        ScfAction::CheckConvergence,
    ];
    lemma_no_mixings(start);
    lemma_no_mixings(end);
    assert(l.head() =~= start + middle + end);
    lemma_mixings_concat(start + middle, end);
    lemma_mixings_concat(start, middle);
    if l.mixes_now() {
        lemma_one_mixing(seq![ScfAction::RefreshRecords]);
        assert(middle =~= seq![ScfAction::MixGuess] + seq![ScfAction::RefreshRecords]);
    } else {
        lemma_no_mixings(middle);
    }
    let last = seq![ScfAction::UpdateRecords] + only_if(
        l.settings.print_level > 0,
        seq![ScfAction::ReportIteration],
    );
    let redo = seq![
        ScfAction::RefreshRecords,
        ScfAction::BuildDensity,
        ScfAction::BuildFock,
        ScfAction::UpdateGradient,
        ScfAction::Diagonalize,
        ScfAction::Occupy,
    ];
    lemma_no_mixings(last);
    if (flags.0 || flags.1) && l.mix_pending() {
        lemma_one_mixing(redo);
        assert(l.tail(flags) =~= (seq![ScfAction::MixGuess] + redo) + last);
        lemma_mixings_concat(seq![ScfAction::MixGuess] + redo, last);
    } else {
        assert(l.tail(flags) =~= last);
    }
    lemma_mixings_concat(l.head(), l.tail(flags));
}

proof fn lemma_run_mixings(l: ScfLoop, flags: Seq<(bool, bool)>)
    ensures
        mixings(run(l, flags)) == (if l.settings.guess_mix && !l.mix_done && after_run(
            l,
            flags,
        ).mix_done {
            1nat
        } else {
            0
        }),
        after_run(l, flags).settings == l.settings,
        l.mix_done ==> after_run(l, flags).mix_done,
        flags.len() > 0 && after_run(l, flags).over() && l.settings.guess_mix
            && !l.settings.noiter ==> after_run(
            l,
            flags,
        ).mix_done,
    decreases flags.len(),
{
    if flags.len() > 0 {
        let next = l.advanced(flags[0]);
        lemma_iteration_mixings(l, flags[0]);
        lemma_run_mixings(next, flags.skip(1));
        lemma_mixings_concat(l.head() + l.tail(flags[0]), run(next, flags.skip(1)));
    }
}

/// Over a whole run, from the initial guess to the end of the iteration, the frontier
/// orbitals are mixed exactly once if that is asked for and never otherwise.
pub proof fn law_mixed_once(s: ScfSettings, flags: Seq<(bool, bool)>)
    requires
        !s.noiter,
        flags.len() > 0,
        after_run(initial_state(s), flags).over(),
    ensures
        mixings(prologue(s) + run(initial_state(s), flags)) == (if s.guess_mix {
            1nat
        } else {
            0
        }),
{
    let l = initial_state(s);
    lemma_run_mixings(l, flags);
    lemma_mixings_concat(prologue(s), run(l, flags));
    let first = seq![
        ScfAction::BuildFock,
        ScfAction::UpdateGradient,
        ScfAction::InitializeRecords,
    ] + (seq![ScfAction::Diagonalize, ScfAction::Occupy] + only_if(
        s.smear,
        seq![ScfAction::SmearInitial],
    ));
    let last = seq![ScfAction::BuildDensity, ScfAction::UpdateRecords];
    lemma_no_mixings(first);
    lemma_no_mixings(last);
    lemma_mixings_concat(first, last);
    if s.guess_mix && s.start_mix_cycle == 0 {
        lemma_one_mixing(last);
        assert(prologue(s) =~= first + (seq![ScfAction::MixGuess] + last));
        lemma_mixings_concat(first, seq![ScfAction::MixGuess] + last);
    } else {
        assert(prologue(s) =~= first + last);
    }
}

/// The iteration stops: once the cycles are used up it ends with the current iteration, or
/// with the next one if the orbitals had to be mixed first.
pub proof fn law_iteration_ends(l: ScfLoop, converged: bool, next_converged: bool)
    requires
        l.num_iter < usize::MAX,
    ensures
        ({
            let next = l.advanced((converged, true));
            next.over() || (next.mix_done && next.advanced((next_converged, true)).over())
        }),
{
}

/// Without iterating, nothing but the initial guess is evaluated.
pub proof fn law_skipped(s: ScfSettings)
    requires
        s.noiter,
    ensures
        initial_state(s).over(),
        epilogue(s).len() == 0,
        mixings(prologue(s)) == 0,
{
    lemma_no_mixings(prologue(s));
}

/// Each set of criteria has one keyword, in lower case, and no other text names one.
pub proof fn law_criteria_keywords(keyword: Seq<char>)
    ensures
        criteria_of(keyword) == Some(ConvergenceCriteria::Gradient) <==> keyword == "g"@,
        criteria_of(keyword) == Some(ConvergenceCriteria::Density) <==> keyword == "dm"@,
        criteria_of(keyword) == Some(ConvergenceCriteria::DensityAndEigenvalues) <==> keyword
            == "dm,eev"@,
{
    reveal_strlit("g");
    reveal_strlit("dm");
    reveal_strlit("dm,eev");
    assert("g"@.len() == 1 && "dm"@.len() == 2 && "dm,eev"@.len() == 6);
}

/// Iterations are compared by the free energy exactly when occupations are smeared, and
/// convergence depends on that energy alone.
pub proof fn law_compared_energy(
    criteria: ConvergenceCriteria,
    c: ScfChanges,
    d: ScfChanges,
    t: ScfThresholds,
    channels: int,
    smeared: bool,
)
    requires
        smeared ==> d == (ScfChanges { energy: d.energy, ..c }),
        !smeared ==> d == (ScfChanges { free_energy: d.free_energy, ..c }),
    ensures
        compared_energy(smeared) == EnergyKind::Free <==> smeared,
        small_changes(criteria, c, t, channels, smeared) == small_changes(
            criteria,
            d,
            t,
            channels,
            smeared,
        ),
{
}

/// Convergence needs an energy change that is at most its threshold in size, by either set of
/// criteria and with either sign; a change that is no number never converges.
pub proof fn law_energy_decides(
    criteria: ConvergenceCriteria,
    c: ScfChanges,
    t: ScfThresholds,
    channels: int,
    smeared: bool,
)
    ensures
        ({
            let e = if smeared { c.free_energy } else { c.energy };
            small_changes(criteria, c, t, channels, smeared) ==> {
                &&& !e.nan()
                &&& (Real { bits: e.magnitude() as u64 }).at_most(t.energy)
            }
        }),
{
}

/// What the criteria look at: the gradient alone, the density alone, or the density together
/// with the orbital energies. The second spin is looked at exactly when there are two. So
/// convergence by density and orbital energies is convergence by density with orbital energies
/// that change little.
pub proof fn law_criteria(
    c: ScfChanges,
    t: ScfThresholds,
    channels: int,
    smeared: bool,
)
    ensures
        ({
            let small = |k: ConvergenceCriteria| small_changes(k, c, t, channels, smeared);
            let energy = (Real {
                bits: (if smeared { c.free_energy } else { c.energy }).magnitude() as u64,
            }).at_most(t.energy);
            &&& small(ConvergenceCriteria::DensityAndEigenvalues) <==> small(
                ConvergenceCriteria::Density,
            ) && c.eigenvalues.at_most(t.eigenvalues)
            &&& channels == 2 ==> (small(ConvergenceCriteria::Gradient) <==> energy
                && c.gradient_alpha.at_most(t.gradient) && c.gradient_beta.at_most(t.gradient))
            &&& channels != 2 ==> (small(ConvergenceCriteria::Gradient) <==> energy
                && c.gradient_alpha.at_most(t.gradient))
            &&& channels == 2 ==> (small(ConvergenceCriteria::Density) <==> energy
                && c.density_alpha.at_most(t.density) && c.density_beta.at_most(t.density))
            &&& channels != 2 ==> (small(ConvergenceCriteria::Density) <==> energy
                && c.density_alpha.at_most(t.density))
        }),
{
}

/// Nothing ends in the first two iterations. Behind them convergence is by small changes,
/// however many cycles are left, and the cycles are used up from the last one on, whatever the
/// changes.
pub proof fn law_convergence(
    criteria: ConvergenceCriteria,
    c: ScfChanges,
    t: ScfThresholds,
    channels: int,
    smeared: bool,
    num_iter: int,
    max_cycle: int,
)
    ensures
        ({
            let r = convergence(criteria, c, t, channels, smeared, num_iter, max_cycle);
            &&& r.0 <==> num_iter >= 2 && small_changes(criteria, c, t, channels, smeared)
            &&& r.1 <==> num_iter >= 2 && num_iter >= max_cycle
        }),
{
}

/// The states printed at the end are all, or those up to the fourth above the higher of the two
/// highest occupied ones; the order of the spins does not matter.
pub proof fn law_printed_count(first: int, second: int, num_state: int)
    ensures
        ({
            let n = printed_count(first, second, num_state);
            &&& n <= num_state
            &&& n <= first + 4 || n <= second + 4
            &&& n < num_state ==> n == first + 4 || n == second + 4
            &&& n < num_state ==> n >= first + 4 && n >= second + 4
            &&& n == printed_count(second, first, num_state)
        }),
{
}

/// Before the first iteration a Fock matrix is built, its gradient computed and the records
/// initialized, in any case. Unless only the guess is evaluated, orbitals and occupations
/// follow, smeared at the initial width and mixed where that is asked for and not put off, and
/// the density and the records are brought up to date.
#[verifier::rlimit(50)]
pub proof fn law_prologue(s: ScfSettings, a: ScfAction)
    ensures
        prologue(s).contains(a) <==> {
            ||| a == ScfAction::BuildFock
            ||| a == ScfAction::UpdateGradient
            ||| a == ScfAction::InitializeRecords
            ||| !s.noiter && a == ScfAction::Diagonalize
            ||| !s.noiter && a == ScfAction::Occupy
            ||| !s.noiter && s.smear && a == ScfAction::SmearInitial
            ||| !s.noiter && s.guess_mix && s.start_mix_cycle == 0 && a == ScfAction::MixGuess
            ||| !s.noiter && a == ScfAction::BuildDensity
            ||| !s.noiter && a == ScfAction::UpdateRecords
        },
        prologue(s).no_duplicates(),
{
    let p = prologue(s);
    assert(p.contains(p[0]) && p.contains(p[1]) && p.contains(p[2]));
    if !s.noiter {
        assert(p.contains(p[3]) && p.contains(p[4]) && p.contains(p[5]) && p.contains(p[6]));
        assert(p.contains(p[p.len() - 1]) && p.contains(p[p.len() - 2]));
    }
}

/// Where a piece of work stands among all: no piece of work of an iteration stands before one
/// of a smaller place.
pub open spec fn place(a: ScfAction) -> int {
    match a {
        ScfAction::PrepareNextInput => 0,
        ScfAction::BuildFock => 0,
        ScfAction::UpdateGradient => 1,
        ScfAction::InitializeRecords => 2,
        ScfAction::Diagonalize => 3,
        ScfAction::Occupy => 4,
        ScfAction::SmearInitial => 5,
        ScfAction::Smear => 5,
        ScfAction::MixGuess => 6,
        ScfAction::RefreshRecords => 7,
        ScfAction::BuildDensity => 8,
        ScfAction::UpdateRecords => 9,
        ScfAction::RefreshSolvent => 9,
        ScfAction::ReportSolvent => 10,
        ScfAction::PrintGap => 11,
        ScfAction::CheckConvergence => 12,
        ScfAction::PrintEigenvalues => 13,
        ScfAction::PrintEigenvectors => 14,
        ScfAction::OccupyInteger => 15,
        ScfAction::ReportIteration => 16,
    }
}

/// The order before the first iteration: the Fock matrix before its gradient before the records,
/// orbitals before occupations, these before they are smeared, then mixed, and all of that
/// before the density and the update of the records.
#[verifier::rlimit(50)]
pub proof fn law_prologue_order(s: ScfSettings, i: int, j: int)
    requires
        0 <= i < j < prologue(s).len(),
    ensures
        place(prologue(s)[i]) < place(prologue(s)[j]),
{
}

/// One iteration up to the check: the next Fock matrix, its orbitals and their occupations, the
/// density and the check, always; smearing, the solvent and the gap where they are asked for;
/// mixed orbitals and fresh records in the one iteration that is asked for, until it was done.
#[verifier::rlimit(50)]
pub proof fn law_head(l: ScfLoop, a: ScfAction)
    ensures
        l.head().contains(a) <==> {
            ||| a == ScfAction::PrepareNextInput
            ||| a == ScfAction::Diagonalize
            ||| a == ScfAction::Occupy
            ||| a == ScfAction::BuildDensity
            ||| a == ScfAction::CheckConvergence
            ||| l.settings.smear && a == ScfAction::Smear
            ||| l.settings.solvent && a == ScfAction::RefreshSolvent
            ||| l.settings.print_level >= 2 && a == ScfAction::PrintGap
            ||| l.settings.guess_mix && !l.mix_done && l.num_iter == l.settings.start_mix_cycle && (a
                == ScfAction::MixGuess || a == ScfAction::RefreshRecords)
        },
        l.head().no_duplicates(),
{
    let h = l.head();
    let mixing = if l.mixes_now() { 2int } else { 0 };
    let density = 3 + (if l.settings.smear { 1int } else { 0 }) + mixing;
    let solvent = if l.settings.solvent { 1int } else { 0 };
    let k: int = match a {
        ScfAction::PrepareNextInput => 0,
        ScfAction::Diagonalize => 1,
        ScfAction::Occupy => 2,
        ScfAction::Smear => 3,
        ScfAction::MixGuess => density - 2,
        ScfAction::RefreshRecords => density - 1,
        ScfAction::BuildDensity => density,
        ScfAction::RefreshSolvent => density + 1,
        ScfAction::PrintGap => density + solvent + 1,
        _ => h.len() - 1,
    };
    if 0 <= k < h.len() {
        assert(h.contains(h[k]));
    }
    if h.contains(a) {
        let x = choose|x: int| 0 <= x < h.len() && h[x] == a;
        lemma_head_entry(l, x);
    }
    assert forall|i: int, j: int| 0 <= i < j < h.len() implies h[i] != h[j] by {
        law_head_order(l, i, j);
    }
}

#[verifier::rlimit(50)]
proof fn lemma_head_entry(l: ScfLoop, x: int)
    requires
        0 <= x < l.head().len(),
    ensures
        ({
            let a = l.head()[x];
            ||| a == ScfAction::PrepareNextInput
            ||| a == ScfAction::Diagonalize
            ||| a == ScfAction::Occupy
            ||| a == ScfAction::BuildDensity
            ||| a == ScfAction::CheckConvergence
            ||| l.settings.smear && a == ScfAction::Smear
            ||| l.settings.solvent && a == ScfAction::RefreshSolvent
            ||| l.settings.print_level >= 2 && a == ScfAction::PrintGap
            ||| l.mixes_now() && (a == ScfAction::MixGuess || a == ScfAction::RefreshRecords)
        }),
{
}

/// The order of an iteration up to the check: the Fock matrix, orbitals, occupations, smearing,
/// mixing, the density of what came out, the solvent's answer to that density, and the check
/// last.
#[verifier::rlimit(50)]
pub proof fn law_head_order(l: ScfLoop, i: int, j: int)
    requires
        0 <= i < j < l.head().len(),
    ensures
        place(l.head()[i]) < place(l.head()[j]),
        l.head()[l.head().len() - 1] == ScfAction::CheckConvergence,
{
}

/// Behind the check the records are updated, always once, and the iteration is reported from
/// print level 1 on. Orbitals are mixed exactly when the iteration would end with the mixing
/// still to come: then the records start afresh, and density, Fock matrix, gradient, orbitals
/// and occupations are made anew before the records are updated.
#[verifier::rlimit(50)]
pub proof fn law_tail(l: ScfLoop, flags: (bool, bool), a: ScfAction)
    ensures
        ({
            let forced = (flags.0 || flags.1) && l.settings.guess_mix && !l.mix_done && l.num_iter
                != l.settings.start_mix_cycle;
            &&& l.tail(flags).contains(a) <==> {
                ||| a == ScfAction::UpdateRecords
                ||| l.settings.print_level >= 1 && a == ScfAction::ReportIteration
                ||| forced && (a == ScfAction::MixGuess || a == ScfAction::RefreshRecords || a
                    == ScfAction::BuildDensity || a == ScfAction::BuildFock || a
                    == ScfAction::UpdateGradient || a == ScfAction::Diagonalize || a
                    == ScfAction::Occupy)
            }
            &&& forced ==> {
                &&& l.tail(flags)[0] == ScfAction::MixGuess
                &&& l.tail(flags)[1] == ScfAction::RefreshRecords
                &&& l.tail(flags)[7] == ScfAction::UpdateRecords
            }
        }),
        l.tail(flags).no_duplicates(),
{
    let t = l.tail(flags);
    assert(t.contains(t[0]));
    if t.len() > 1 {
        assert(t.contains(t[1]));
    }
    if t.len() > 2 {
        assert(t.contains(t[2]) && t.contains(t[3]) && t.contains(t[4]) && t.contains(t[5])
            && t.contains(t[6]) && t.contains(t[7]));
        if t.len() > 8 {
            assert(t.contains(t[8]));
        }
    }
}

/// The order behind the check when orbitals are mixed late: the density of the mixed orbitals,
/// its Fock matrix, the gradient, the orbitals of that matrix and their occupations.
#[verifier::rlimit(50)]
pub proof fn law_tail_order(l: ScfLoop, flags: (bool, bool), i: int, j: int)
    requires
        0 <= i < l.tail(flags).len(),
        0 <= j < l.tail(flags).len(),
    ensures
        ({
            let t = l.tail(flags);
            &&& t[i] == ScfAction::BuildDensity && t[j] == ScfAction::BuildFock ==> i < j
            &&& t[i] == ScfAction::BuildFock && t[j] == ScfAction::UpdateGradient ==> i < j
            &&& t[i] == ScfAction::UpdateGradient && t[j] == ScfAction::Diagonalize ==> i < j
            &&& t[i] == ScfAction::Diagonalize && t[j] == ScfAction::Occupy ==> i < j
            &&& t[i] == ScfAction::Occupy && t[j] == ScfAction::UpdateRecords ==> i < j
            &&& t[j] == ScfAction::ReportIteration ==> j == t.len() - 1
        }),
{
}

/// An iteration takes over the outcome of its check, unless orbitals had to be mixed late, which
/// undoes it: then nothing has ended. The count grows by one, and orbitals once mixed are never
/// waited for again.
pub proof fn law_advanced(l: ScfLoop, flags: (bool, bool))
    requires
        l.num_iter < usize::MAX,
    ensures
        ({
            let n = l.advanced(flags);
            let forced = (flags.0 || flags.1) && l.settings.guess_mix && !l.mix_done && l.num_iter
                != l.settings.start_mix_cycle;
            &&& n.settings == l.settings
            &&& n.num_iter == l.num_iter + 1
            &&& n.converged <==> flags.0 && !forced
            &&& n.exhausted <==> flags.1 && !forced
            &&& l.mix_done ==> n.mix_done
            &&& forced ==> n.mix_done
            &&& l.settings.guess_mix && !l.mix_done ==> (n.mix_done <==> l.num_iter
                == l.settings.start_mix_cycle || forced)
            &&& !l.settings.guess_mix ==> n.mix_done == l.mix_done
        }),
{
}

/// An iteration starts with one record update behind it, with mixing still to come unless it
/// was asked for at the guess, and not at an end; it is over at once only without iterating.
pub proof fn law_initial_state(s: ScfSettings)
    ensures
        initial_state(s).num_iter == 1,
        initial_state(s).settings == s,
        initial_state(s).mix_done <==> s.start_mix_cycle == 0,
        initial_state(s).over() <==> s.noiter,
{
}

/// An iteration is over exactly without iterating, at convergence, or with its cycles used up.
pub proof fn law_over(l: ScfLoop)
    ensures
        !l.over() <==> !l.settings.noiter && !l.converged && !l.exhausted,
{
}

/// Behind the last iteration a Fock matrix, its gradient, orbitals and occupations are made
/// once more; from whole electrons and their density exactly when occupations were fractional.
/// Reports follow with the print level: gap and orbital energies from 2 on, the solvent from 3
/// on where there is one, orbitals from 4 on.
#[verifier::rlimit(50)]
pub proof fn law_epilogue(s: ScfSettings, a: ScfAction)
    requires
        !s.noiter,
    ensures
        epilogue(s).contains(a) <==> {
            ||| a == ScfAction::BuildFock
            ||| a == ScfAction::UpdateGradient
            ||| a == ScfAction::Diagonalize
            ||| a == ScfAction::Occupy
            ||| s.occupation_type == OCCType::FRAC && (a == ScfAction::OccupyInteger || a
                == ScfAction::BuildDensity)
            ||| s.print_level >= 2 && (a == ScfAction::PrintGap || a == ScfAction::PrintEigenvalues)
            ||| s.print_level >= 3 && s.solvent && a == ScfAction::ReportSolvent
            ||| s.print_level >= 4 && a == ScfAction::PrintEigenvectors
        },
        epilogue(s).no_duplicates(),
{
    let e = epilogue(s);
    let whole = if s.occupation_type == OCCType::FRAC { 2int } else { 0 };
    let solvent = if s.solvent && s.print_level > 2 { 1int } else { 0 };
    let k: int = match a {
        ScfAction::OccupyInteger => 0,
        ScfAction::BuildDensity => 1,
        ScfAction::BuildFock => whole,
        ScfAction::UpdateGradient => whole + 1,
        ScfAction::Diagonalize => whole + 2,
        ScfAction::Occupy => whole + 3,
        ScfAction::ReportSolvent => whole + 4,
        ScfAction::PrintGap => whole + 4 + solvent,
        ScfAction::PrintEigenvalues => whole + 5 + solvent,
        _ => e.len() - 1,
    };
    if 0 <= k < e.len() {
        assert(e.contains(e[k]));
    }
    if e.contains(a) {
        let x = choose|x: int| 0 <= x < e.len() && e[x] == a;
        lemma_epilogue_entry(s, x);
    }
    assert forall|i: int, j: int| 0 <= i < j < e.len() implies e[i] != e[j] by {
        law_epilogue_order(s, i, j);
        lemma_epilogue_entry(s, j);
        lemma_epilogue_early(s, j);
    }
}

#[verifier::rlimit(50)]
proof fn lemma_epilogue_entry(s: ScfSettings, x: int)
    requires
        !s.noiter,
        0 <= x < epilogue(s).len(),
    ensures
        ({
            let a = epilogue(s)[x];
            ||| a == ScfAction::BuildFock
            ||| a == ScfAction::UpdateGradient
            ||| a == ScfAction::Diagonalize
            ||| a == ScfAction::Occupy
            ||| s.occupation_type == OCCType::FRAC && (a == ScfAction::OccupyInteger || a
                == ScfAction::BuildDensity)
            ||| s.print_level >= 2 && (a == ScfAction::PrintGap || a == ScfAction::PrintEigenvalues)
            ||| s.print_level >= 3 && s.solvent && a == ScfAction::ReportSolvent
            ||| s.print_level >= 4 && a == ScfAction::PrintEigenvectors
        }),
{
}

proof fn lemma_epilogue_early(s: ScfSettings, x: int)
    requires
        0 <= x < epilogue(s).len(),
    ensures
        epilogue(s)[x] == ScfAction::OccupyInteger ==> x == 0,
        epilogue(s)[x] == ScfAction::BuildDensity ==> x == 1,
{
}

/// The order behind the last iteration: whole electrons and their density come before the last
/// Fock matrix, and everything else in the order of an iteration.
#[verifier::rlimit(50)]
pub proof fn law_epilogue_order(s: ScfSettings, i: int, j: int)
    requires
        0 <= i < j < epilogue(s).len(),
    ensures
        ({
            let e = epilogue(s);
            let early = s.occupation_type == OCCType::FRAC && i < 2;
            &&& early ==> e[0] == ScfAction::OccupyInteger && e[1] == ScfAction::BuildDensity
            &&& !early ==> place(e[i]) < place(e[j])
        }),
{
}

} // verus!
