//! Histories of the self-consistent-field iteration and the choice of how the next
//! Fock matrix is made from them.

use crate::binary64::{zero, Real};
use crate::keywords::is_word;
use vstd::prelude::*;

verus! {

/// Ways to make the next Fock matrix.
#[derive(Clone, Copy, Debug, PartialEq, Eq, Structural)]
pub enum Mixer {
    Direct,
    Linear,
    Diis,
    Ediis,
    EdiisDiis,
    AdiisDiis,
    /// A keyword that names no mixer.
    Other,
}

/// The mixer that a keyword names.
pub open spec fn mixer_of(keyword: Seq<char>) -> Mixer {
    if keyword == "direct"@ {
        Mixer::Direct
    } else if keyword == "linear"@ {
        Mixer::Linear
    } else if keyword == "diis"@ {
        Mixer::Diis
    } else if keyword == "ediis"@ {
        Mixer::Ediis
    } else if keyword == "ediis+diis"@ {
        Mixer::EdiisDiis
    } else if keyword == "adiis+diis"@ {
        Mixer::AdiisDiis
    } else {
        Mixer::Other
    }
}

impl Mixer {
    /// The mixer that a keyword names.
    pub fn from_keyword(keyword: &String) -> (m: Mixer)
        ensures
            m == mixer_of(keyword@),
    {
        if is_word(keyword, "direct") {
            Mixer::Direct
        } else if is_word(keyword, "linear") {
            Mixer::Linear
        } else if is_word(keyword, "diis") {
            Mixer::Diis
        } else if is_word(keyword, "ediis") {
            Mixer::Ediis
        } else if is_word(keyword, "ediis+diis") {
            Mixer::EdiisDiis
        } else if is_word(keyword, "adiis+diis") {
            Mixer::AdiisDiis
        } else {
            Mixer::Other
        }
    }

    /// Whether the mixer keeps densities, energies and Fock matrices of earlier steps.
    pub open spec fn spec_keeps_energies(self) -> bool {
        self == Mixer::Ediis || self == Mixer::EdiisDiis || self == Mixer::AdiisDiis
    }

    /// Whether the mixer keeps densities, energies and Fock matrices of earlier steps.
    pub fn keeps_energies(self) -> (b: bool)
        ensures
            b == self.spec_keeps_energies(),
    {
        match self {
            Mixer::Ediis => true,
            Mixer::EdiisDiis => true,
            Mixer::AdiisDiis => true,
            _ => false,
        }
    }
}

/// A history with one more entry: the oldest entry leaves once the history is full.
pub open spec fn remembered<T>(history: Seq<T>, x: T, limit: int) -> Seq<T> {
    if history.len() == limit {
        history.skip(1).push(x)
    } else {
        history.push(x)
    }
}

/// A history after a whole sequence of entries.
pub open spec fn remembered_all<T>(history: Seq<T>, xs: Seq<T>, limit: int) -> Seq<T>
    decreases xs.len(),
{
    if xs.len() == 0 {
        history
    } else {
        remembered(remembered_all(history, xs.drop_last(), limit), xs.last(), limit)
    }
}

/// A history that started empty holds the newest entries, oldest first, and never more
/// than its limit.
pub proof fn law_history_keeps_newest<T>(xs: Seq<T>, limit: int)
    requires
        limit > 0,
    ensures
        ({
            let h = remembered_all(Seq::<T>::empty(), xs, limit);
            let kept = if xs.len() <= limit { xs.len() as int } else { limit };
            &&& h.len() == kept
            &&& h == xs.skip(xs.len() - kept)
        }),
    decreases xs.len(),
{
    let h = remembered_all(Seq::<T>::empty(), xs, limit);
    if xs.len() == 0 {
        assert(h =~= xs.skip(0));
    } else {
        law_history_keeps_newest(xs.drop_last(), limit);
        let kept = if xs.len() <= limit { xs.len() as int } else { limit };
        assert(h =~= xs.skip(xs.len() - kept));
    }
}

/// The history that a mixer starts with: the entry of the guess, if it keeps energies.
pub open spec fn first_history<T>(mixer: Mixer, x: T) -> Seq<T> {
    if mixer.spec_keeps_energies() {
        seq![x]
    } else {
        seq![]
    }
}

/// Adds an entry to a history.
fn remember<T>(history: &mut Vec<T>, x: T, limit: usize)
    requires
        limit > 0,
    ensures
        final(history)@ == remembered(old(history)@, x, limit as int),
{
    if history.len() == limit {
        let _oldest = history.remove(0);
        assert(history@ =~= old(history)@.skip(1));
    }
    history.push(x);
}

/// What an iteration leaves behind. `D` is the type of density matrices and `M` that of
/// orbital coefficients.
pub struct ScfValues<D, M> {
    pub scf_energy: Real,
    pub smearing_entropy: Real,
    pub eigenvectors: [M; 2],
    pub eigenvalues: [Vec<Real>; 2],
    pub density_matrix: D,
}

/// What stands in a record before anything is known.
pub struct ScfBlanks<D, F, M> {
    /// The Fock matrix of the step before the first.
    pub fock: F,
    pub eigenvectors: [M; 2],
    pub density: (D, D),
}

/// The settings of a record.
pub struct RecordSettings {
    pub num_max_records: usize,
    pub mix_param: Real,
    pub mixer: Mixer,
    pub start_diis_cycle: usize,
}

/// The state kept between iterations. `D` is the type of density matrices, `E` that of
/// error vectors, `F` that of Fock matrices and `M` that of other matrices.
pub struct ScfTraceRecord<D, E, F, M> {
    pub num_iter: usize,
    pub mixer: Mixer,
    /// The largest number of entries in a history.
    pub num_max_records: usize,
    pub mix_param: Real,
    pub start_diis_cycle: usize,
    pub scf_energy: Real,
    pub smearing_entropy: Real,
    pub energy_records: Vec<Real>,
    /// The extrapolated Fock matrices of the last two steps, older first.
    pub prev_hamiltonian: Vec<F>,
    pub eigenvectors: [M; 2],
    pub eigenvalues: [Vec<Real>; 2],
    /// The input and the output density of the current step.
    pub density_matrix: (D, D),
    pub target_vector: Vec<F>,
    pub error_vector: Vec<E>,
    /// The inverse root of the overlap matrix, where it exists.
    pub sqrt_inv_ovlp: Option<M>,
    pub ediis_density: Vec<D>,
    pub ediis_energy: Vec<Real>,
    pub ediis_fock: Vec<F>,
    /// The next density was extrapolated, so it is not built from orbitals.
    pub extrapolated_density: bool,
    /// The Fock matrix is built again from the density behind an extrapolated one.
    pub needs_fock_rebuild: bool,
    /// The density of the step before was extrapolated.
    pub prev_density_extrapolated: bool,
}

/// Whether an energy is higher than the last of those recorded before it, where more than
/// `start_check` are recorded together with it.
pub open spec fn energy_rises(energies: Seq<Real>, energy: Real, start_check: int) -> bool {
    &&& energies.len() >= 1
    &&& energies.len() + 1 > start_check
    &&& energies.last().below(energy)
}

/// The number of iterations that pass after a failed extrapolation.
pub const DIIS_PAUSE: usize = 8;

impl<D, E, F, M> ScfTraceRecord<D, E, F, M> {
    /// Histories that belong together have the same length, and none exceeds its limit.
    pub open spec fn wf(&self) -> bool {
        &&& self.num_max_records > 0
        &&& self.target_vector@.len() == self.error_vector@.len()
        &&& self.error_vector@.len() <= self.num_max_records
        &&& self.ediis_density@.len() == self.ediis_energy@.len()
        &&& self.ediis_density@.len() == self.ediis_fock@.len()
        &&& self.ediis_density@.len() <= self.num_max_records
        &&& 1 <= self.prev_hamiltonian@.len() <= 2
    }

    /// Both histories of extrapolation data are as before.
    pub open spec fn same_histories(&self, other: &Self) -> bool {
        &&& self.same_diis(other)
        &&& self.same_energies(other)
    }

    /// The error and Fock histories are as before.
    pub open spec fn same_diis(&self, other: &Self) -> bool {
        &&& self.target_vector@ == other.target_vector@
        &&& self.error_vector@ == other.error_vector@
    }

    /// The density, energy and Fock histories are as before.
    pub open spec fn same_energies(&self, other: &Self) -> bool {
        &&& self.ediis_density@ == other.ediis_density@
        &&& self.ediis_energy@ == other.ediis_energy@
        &&& self.ediis_fock@ == other.ediis_fock@
    }

    /// The settings are as before.
    pub open spec fn same_settings(&self, other: &Self) -> bool {
        &&& self.mixer == other.mixer
        &&& self.num_max_records == other.num_max_records
        &&& self.mix_param == other.mix_param
        &&& self.sqrt_inv_ovlp == other.sqrt_inv_ovlp
    }

    /// The energy, the entropy and the orbitals are as before.
    pub open spec fn same_values(&self, other: &Self) -> bool {
        &&& self.scf_energy == other.scf_energy
        &&& self.smearing_entropy == other.smearing_entropy
        &&& self.eigenvectors == other.eigenvectors
        &&& self.eigenvalues == other.eigenvalues
    }

    /// The marks of extrapolated densities are as before.
    pub open spec fn same_flags(&self, other: &Self) -> bool {
        &&& self.extrapolated_density == other.extrapolated_density
        &&& self.needs_fock_rebuild == other.needs_fock_rebuild
        &&& self.prev_density_extrapolated == other.prev_density_extrapolated
    }

    /// Nothing is marked as extrapolated.
    pub open spec fn no_flags(&self) -> bool {
        !self.extrapolated_density && !self.needs_fock_rebuild && !self.prev_density_extrapolated
    }

    /// Nothing is recorded, apart from the energy, the entropy and the count.
    pub open spec fn blank(&self, b: ScfBlanks<D, F, M>) -> bool {
        &&& self.energy_records@.len() == 0
        &&& self.prev_hamiltonian@ == seq![b.fock]
        &&& self.eigenvectors == b.eigenvectors
        &&& self.eigenvalues@[0]@.len() == 0
        &&& self.eigenvalues@[1]@.len() == 0
        &&& self.density_matrix == b.density
        &&& self.target_vector@.len() == 0
        &&& self.error_vector@.len() == 0
        &&& self.ediis_density@.len() == 0
        &&& self.ediis_energy@.len() == 0
        &&& self.ediis_fock@.len() == 0
        &&& self.no_flags()
    }

    /// A record before the first iteration. A limit of zero is of no use: such a record is
    /// not well formed.
    pub fn new(settings: RecordSettings, blanks: ScfBlanks<D, F, M>) -> (r: Self)
        ensures
            settings.num_max_records > 0 ==> r.wf(),
            r.num_iter == 0,
            r.mixer == settings.mixer,
            r.num_max_records == settings.num_max_records,
            r.mix_param == settings.mix_param,
            r.start_diis_cycle == settings.start_diis_cycle,
            r.scf_energy == zero(),
            r.smearing_entropy == zero(),
            r.sqrt_inv_ovlp is None,
            r.blank(blanks),
    {
        let mut prev_hamiltonian: Vec<F> = Vec::new();
        prev_hamiltonian.push(blanks.fock);
        assert(prev_hamiltonian@ =~= seq![blanks.fock]);
        ScfTraceRecord {
            num_iter: 0,
            mixer: settings.mixer,
            num_max_records: settings.num_max_records,
            mix_param: settings.mix_param,
            start_diis_cycle: settings.start_diis_cycle,
            scf_energy: Real { bits: 0 },
            smearing_entropy: Real { bits: 0 },
            energy_records: Vec::new(),
            prev_hamiltonian,
            eigenvectors: blanks.eigenvectors,
            eigenvalues: [Vec::new(), Vec::new()],
            density_matrix: blanks.density,
            target_vector: Vec::new(),
            error_vector: Vec::new(),
            sqrt_inv_ovlp: None,
            ediis_density: Vec::new(),
            ediis_energy: Vec::new(),
            ediis_fock: Vec::new(),
            extrapolated_density: false,
            needs_fock_rebuild: false,
            prev_density_extrapolated: false,
        }
    }

    /// A record of the initial guess. Its density is both the input and the output, so it
    /// is given twice. The mixers that keep energies start their history with the guess:
    /// `first` holds its density, its energy freed from half the smearing entropy, and its
    /// Fock matrix. The entropy itself is not taken over.
    pub fn initialize(
        settings: RecordSettings,
        blank: F,
        guess: ScfValues<D, M>,
        input: D,
        sqrt_inv_ovlp: Option<M>,
        first: (D, Real, F),
    ) -> (r: Self)
        ensures
            settings.num_max_records > 0 ==> r.wf(),
            r.num_iter == 0,
            r.mixer == settings.mixer,
            r.num_max_records == settings.num_max_records,
            r.mix_param == settings.mix_param,
            r.start_diis_cycle == settings.start_diis_cycle,
            r.scf_energy == guess.scf_energy,
            r.smearing_entropy == zero(),
            r.eigenvectors == guess.eigenvectors,
            r.eigenvalues == guess.eigenvalues,
            r.density_matrix == (input, guess.density_matrix),
            r.sqrt_inv_ovlp == sqrt_inv_ovlp,
            r.energy_records@.len() == 0,
            r.prev_hamiltonian@ == seq![blank],
            r.target_vector@.len() == 0,
            r.error_vector@.len() == 0,
            r.no_flags(),
            r.ediis_density@ == first_history(settings.mixer, first.0),
            r.ediis_energy@ == first_history(settings.mixer, first.1),
            r.ediis_fock@ == first_history(settings.mixer, first.2),
    {
        let keeps: bool = settings.mixer.keeps_energies();
        let blanks = ScfBlanks {
            fock: blank,
            eigenvectors: guess.eigenvectors,
            density: (input, guess.density_matrix),
        };
        let mut r: Self = ScfTraceRecord::new(settings, blanks);
        r.scf_energy = guess.scf_energy;
        r.eigenvalues = guess.eigenvalues;
        r.sqrt_inv_ovlp = sqrt_inv_ovlp;
        if keeps {
            r.ediis_density.push(first.0);
            r.ediis_energy.push(first.1);
            r.ediis_fock.push(first.2);
        }
        assert(r.ediis_density@ =~= first_history(settings.mixer, first.0));
        assert(r.ediis_energy@ =~= first_history(settings.mixer, first.1));
        assert(r.ediis_fock@ =~= first_history(settings.mixer, first.2));
        r
    }

    /// Moves on to the next iteration: the output density becomes the input density, and
    /// the density, the energy, the entropy and the orbitals of the iteration are taken
    /// over.
    pub fn update(&mut self, current: ScfValues<D, M>)
        requires
            old(self).num_iter < usize::MAX,
        ensures
            old(self).wf() ==> final(self).wf(),
            final(self).same_settings(old(self)),
            final(self).same_histories(old(self)),
            final(self).same_flags(old(self)),
            final(self).updated(old(self), current),
            final(self).start_diis_cycle == old(self).start_diis_cycle,
            final(self).energy_records@ == old(self).energy_records@,
            final(self).prev_hamiltonian@ == old(self).prev_hamiltonian@,
    {
        self.scf_energy = current.scf_energy;
        self.smearing_entropy = current.smearing_entropy;
        self.eigenvectors = current.eigenvectors;
        self.eigenvalues = current.eigenvalues;
        core::mem::swap(&mut self.density_matrix.0, &mut self.density_matrix.1);
        self.density_matrix.1 = current.density_matrix;
        self.num_iter = self.num_iter + 1;
    }

    /// Records the energy of a step and tells whether it rose: this counts only behind
    /// the first `start_check` records.
    pub fn record_energy(&mut self, energy: Real, start_check: usize) -> (rising: bool)
        ensures
            old(self).wf() ==> final(self).wf(),
            final(self).same_settings(old(self)),
            final(self).same_values(old(self)),
            final(self).same_flags(old(self)),
            final(self).same_histories(old(self)),
            final(self).num_iter == old(self).num_iter,
            final(self).start_diis_cycle == old(self).start_diis_cycle,
            final(self).prev_hamiltonian@ == old(self).prev_hamiltonian@,
            final(self).density_matrix == old(self).density_matrix,
            final(self).energy_records@ == old(self).energy_records@.push(energy),
            rising == energy_rises(old(self).energy_records@, energy, start_check as int),
    {
        let n: usize = self.energy_records.len();
        let rising: bool = if n >= 1 && n >= start_check {
            energy.gt(self.energy_records[n - 1])
        } else {
            false
        };
        self.energy_records.push(energy);
        rising
    }

    /// Records the error vector and the Fock matrix of a step.
    pub fn record_diis(&mut self, error: E, target: F)
        requires
            old(self).wf(),
        ensures
            final(self).wf(),
            final(self).same_settings(old(self)),
            final(self).same_values(old(self)),
            final(self).same_flags(old(self)),
            final(self).same_energies(old(self)),
            final(self).num_iter == old(self).num_iter,
            final(self).start_diis_cycle == old(self).start_diis_cycle,
            final(self).energy_records@ == old(self).energy_records@,
            final(self).prev_hamiltonian@ == old(self).prev_hamiltonian@,
            final(self).density_matrix == old(self).density_matrix,
            final(self).error_vector@ == remembered(
                old(self).error_vector@,
                error,
                old(self).num_max_records as int,
            ),
            final(self).target_vector@ == remembered(
                old(self).target_vector@,
                target,
                old(self).num_max_records as int,
            ),
    {
        let limit: usize = self.num_max_records;
        remember(&mut self.target_vector, target, limit);
        remember(&mut self.error_vector, error, limit);
    }

    /// Records the density, the energy and the Fock matrix of a step.
    pub fn record_energies(&mut self, density: D, energy: Real, fock: F)
        requires
            old(self).wf(),
        ensures
            final(self).wf(),
            final(self).same_settings(old(self)),
            final(self).same_values(old(self)),
            final(self).same_flags(old(self)),
            final(self).same_diis(old(self)),
            final(self).num_iter == old(self).num_iter,
            final(self).start_diis_cycle == old(self).start_diis_cycle,
            final(self).energy_records@ == old(self).energy_records@,
            final(self).prev_hamiltonian@ == old(self).prev_hamiltonian@,
            final(self).density_matrix == old(self).density_matrix,
            final(self).ediis_density@ == remembered(
                old(self).ediis_density@,
                density,
                old(self).num_max_records as int,
            ),
            final(self).ediis_energy@ == remembered(
                old(self).ediis_energy@,
                energy,
                old(self).num_max_records as int,
            ),
            final(self).ediis_fock@ == remembered(
                old(self).ediis_fock@,
                fock,
                old(self).num_max_records as int,
            ),
    {
        let limit: usize = self.num_max_records;
        remember(&mut self.ediis_density, density, limit);
        remember(&mut self.ediis_energy, energy, limit);
        remember(&mut self.ediis_fock, fock, limit);
    }

    /// Records an extrapolated Fock matrix; the two newest are kept.
    pub fn record_extrapolated(&mut self, fock: F)
        ensures
            old(self).wf() ==> final(self).wf(),
            final(self).same_settings(old(self)),
            final(self).same_values(old(self)),
            final(self).same_flags(old(self)),
            final(self).same_histories(old(self)),
            final(self).num_iter == old(self).num_iter,
            final(self).start_diis_cycle == old(self).start_diis_cycle,
            final(self).energy_records@ == old(self).energy_records@,
            final(self).density_matrix == old(self).density_matrix,
            final(self).prev_hamiltonian@ == remembered(old(self).prev_hamiltonian@, fock, 2),
    {
        remember(&mut self.prev_hamiltonian, fock, 2);
    }

    /// Starts over after a failed extrapolation of the plain kind: the error history is
    /// dropped, and extrapolation pauses.
    pub fn pause_diis(&mut self)
        requires
            old(self).num_iter + DIIS_PAUSE <= usize::MAX,
        ensures
            old(self).wf() ==> final(self).wf(),
            final(self).same_settings(old(self)),
            final(self).same_values(old(self)),
            final(self).same_flags(old(self)),
            final(self).same_energies(old(self)),
            final(self).num_iter == old(self).num_iter,
            final(self).start_diis_cycle == old(self).num_iter + DIIS_PAUSE,
            final(self).energy_records@ == old(self).energy_records@,
            final(self).prev_hamiltonian@ == old(self).prev_hamiltonian@,
            final(self).density_matrix == old(self).density_matrix,
            final(self).target_vector@.len() == 0,
            final(self).error_vector@.len() == 0,
    {
        self.start_diis_cycle = self.num_iter + DIIS_PAUSE;
        self.target_vector = Vec::new();
        self.error_vector = Vec::new();
    }

    /// Starts over after a failed extrapolation of the combined kinds: all histories are
    /// dropped.
    pub fn drop_histories(&mut self)
        ensures
            old(self).wf() ==> final(self).wf(),
            final(self).same_settings(old(self)),
            final(self).same_values(old(self)),
            final(self).same_flags(old(self)),
            final(self).num_iter == old(self).num_iter,
            final(self).start_diis_cycle == old(self).start_diis_cycle,
            final(self).energy_records@ == old(self).energy_records@,
            final(self).prev_hamiltonian@ == old(self).prev_hamiltonian@,
            final(self).density_matrix == old(self).density_matrix,
            final(self).target_vector@.len() == 0,
            final(self).error_vector@.len() == 0,
            final(self).ediis_density@.len() == 0,
            final(self).ediis_energy@.len() == 0,
            final(self).ediis_fock@.len() == 0,
    {
        self.target_vector = Vec::new();
        self.error_vector = Vec::new();
        self.ediis_density = Vec::new();
        self.ediis_energy = Vec::new();
        self.ediis_fock = Vec::new();
    }

    /// Forgets everything but the settings, the pause, the iteration count, the energy and
    /// the entropy.
    pub fn refresh(&mut self, blanks: ScfBlanks<D, F, M>)
        ensures
            old(self).wf() ==> final(self).wf(),
            final(self).refreshed(old(self), blanks),
    {
        self.drop_histories();
        self.energy_records = Vec::new();
        let mut prev: Vec<F> = Vec::new();
        prev.push(blanks.fock);
        assert(prev@ =~= seq![blanks.fock]);
        self.prev_hamiltonian = prev;
        self.eigenvectors = blanks.eigenvectors;
        self.eigenvalues = [Vec::new(), Vec::new()];
        self.density_matrix = blanks.density;
        self.extrapolated_density = false;
        self.needs_fock_rebuild = false;
        self.prev_density_extrapolated = false;
    }

    /// The record has moved on by one iteration from `other`, with the values of `current`.
    pub open spec fn updated(&self, other: &Self, current: ScfValues<D, M>) -> bool {
        &&& self.num_iter == other.num_iter + 1
        &&& self.scf_energy == current.scf_energy
        &&& self.smearing_entropy == current.smearing_entropy
        &&& self.eigenvectors == current.eigenvectors
        &&& self.eigenvalues == current.eigenvalues
        &&& self.density_matrix == (other.density_matrix.1, current.density_matrix)
    }

    /// The record is that of `other` with everything forgotten but the settings, the pause,
    /// the iteration count, the energy and the entropy.
    pub open spec fn refreshed(&self, other: &Self, blanks: ScfBlanks<D, F, M>) -> bool {
        &&& self.same_settings(other)
        &&& self.num_iter == other.num_iter
        &&& self.start_diis_cycle == other.start_diis_cycle
        &&& self.scf_energy == other.scf_energy
        &&& self.smearing_entropy == other.smearing_entropy
        &&& self.blank(blanks)
    }

    /// The way in which this step makes the next Fock matrix.
    pub fn path(&self) -> (p: MixPath)
        ensures
            p == mix_path(self.mixer, self.num_iter as int, self.start_diis_cycle as int),
    {
        let started: bool = self.num_iter >= self.start_diis_cycle;
        match self.mixer {
            Mixer::Direct => MixPath::Direct,
            Mixer::Linear => MixPath::Linear,
            Mixer::Diis => if started {
                MixPath::Diis
            } else {
                MixPath::Linear
            },
            Mixer::Ediis => if started {
                MixPath::Energy
            } else {
                MixPath::Keep
            },
            Mixer::EdiisDiis => if started {
                MixPath::EnergyThenDiis
            } else {
                MixPath::Keep
            },
            Mixer::AdiisDiis => if started {
                MixPath::AugmentedThenDiis
            } else {
                MixPath::Keep
            },
            Mixer::Other => MixPath::Keep,
        }
    }
}

/// Two records hold the same.
pub open spec fn same_record<D, E, F, M>(
    a: &ScfTraceRecord<D, E, F, M>,
    b: &ScfTraceRecord<D, E, F, M>,
) -> bool {
    &&& a.same_settings(b)
    &&& a.same_histories(b)
    &&& a.same_flags(b)
    &&& a.num_iter == b.num_iter
    &&& a.start_diis_cycle == b.start_diis_cycle
    &&& a.scf_energy == b.scf_energy
    &&& a.smearing_entropy == b.smearing_entropy
    &&& a.energy_records@ == b.energy_records@
    &&& a.prev_hamiltonian@ == b.prev_hamiltonian@
    &&& a.eigenvectors == b.eigenvectors
    &&& a.eigenvalues@[0]@ == b.eigenvalues@[0]@
    &&& a.eigenvalues@[1]@ == b.eigenvalues@[1]@
    &&& a.density_matrix == b.density_matrix
}

/// Refreshing a record a second time changes nothing.
pub proof fn law_refreshed_twice<D, E, F, M>(
    before: &ScfTraceRecord<D, E, F, M>,
    once: &ScfTraceRecord<D, E, F, M>,
    twice: &ScfTraceRecord<D, E, F, M>,
    blanks: ScfBlanks<D, F, M>,
)
    requires
        once.refreshed(before, blanks),
        twice.refreshed(once, blanks),
    ensures
        same_record(once, twice),
{
    assert(once.energy_records@ =~= twice.energy_records@);
    assert(once.target_vector@ =~= twice.target_vector@);
    assert(once.error_vector@ =~= twice.error_vector@);
    assert(once.ediis_density@ =~= twice.ediis_density@);
    assert(once.ediis_energy@ =~= twice.ediis_energy@);
    assert(once.ediis_fock@ =~= twice.ediis_fock@);
    assert(once.eigenvalues@[0]@ =~= twice.eigenvalues@[0]@);
    assert(once.eigenvalues@[1]@ =~= twice.eigenvalues@[1]@);
}

/// The way in which a step makes the next Fock matrix.
#[derive(Clone, Copy, Debug, PartialEq, Eq, Structural)]
pub enum MixPath {
    /// The Fock matrix stays.
    Keep,
    /// From the output density.
    Direct,
    /// From a mix of the input and the output density.
    Linear,
    /// By extrapolation from error vectors.
    Diis,
    /// By interpolation of energies.
    Energy,
    /// By interpolation of energies, or else by extrapolation.
    EnergyThenDiis,
    /// By augmented interpolation of energies, or else by extrapolation.
    AugmentedThenDiis,
}

/// The way in which a step makes the next Fock matrix: extrapolation and interpolation
/// begin in iteration `start`.
pub open spec fn mix_path(mixer: Mixer, num_iter: int, start: int) -> MixPath {
    match mixer {
        Mixer::Direct => MixPath::Direct,
        Mixer::Linear => MixPath::Linear,
        Mixer::Diis => if num_iter < start {
            MixPath::Linear
        } else {
            MixPath::Diis
        },
        Mixer::Ediis => if num_iter < start {
            MixPath::Keep
        } else {
            MixPath::Energy
        },
        Mixer::EdiisDiis => if num_iter < start {
            MixPath::Keep
        } else {
            MixPath::EnergyThenDiis
        },
        Mixer::AdiisDiis => if num_iter < start {
            MixPath::Keep
        } else {
            MixPath::AugmentedThenDiis
        },
        Mixer::Other => MixPath::Keep,
    }
}

/// One piece of work in making the next Fock matrix.
#[derive(Clone, Copy, Debug, PartialEq, Eq, Structural)]
pub enum MixAction {
    /// Replace the density by the mix of input and output density.
    MixDensities,
    /// Build the Fock matrix of the current density.
    BuildFock,
    /// Compute the orbital gradient.
    UpdateGradient,
    /// Add the level shift to the Fock matrix.
    ShiftLevels,
    /// Record the energy of the step.
    RecordEnergy,
    /// Record the error vector and the Fock matrix.
    RecordDiis,
    /// Record density, energy and Fock matrix.
    RecordEnergies,
    /// Interpolate the recorded Fock matrices by energy.
    InterpolateEnergies,
    /// Extrapolate the recorded Fock matrices; when `damped`, mix the result with the
    /// Fock matrix before last.
    Extrapolate { damped: bool },
    /// Record the extrapolated Fock matrix.
    RecordExtrapolated,
    /// Drop the error history and pause extrapolation.
    PauseDiis,
    /// Drop all histories.
    DropHistories,
}

/// The level shift, where one is asked for.
pub open spec fn shift_actions(shift: bool) -> Seq<MixAction> {
    if shift {
        seq![MixAction::ShiftLevels]
    } else {
        seq![]
    }
}

/// The work before the outcome of an extrapolation matters. `recorded` is the number of
/// energies recorded once this step's is.
pub open spec fn opening(path: MixPath, shift: bool, recorded: int) -> Seq<MixAction> {
    let build = seq![MixAction::BuildFock, MixAction::UpdateGradient];
    match path {
        MixPath::Keep => shift_actions(shift),
        MixPath::Direct => build + shift_actions(shift),
        MixPath::Linear => seq![MixAction::MixDensities] + build + shift_actions(shift),
        MixPath::Diis => build + shift_actions(shift) + seq![
            MixAction::RecordEnergy,
            MixAction::RecordDiis,
        ],
        MixPath::Energy => build + seq![MixAction::RecordEnergies] + (if recorded >= 2 {
            seq![MixAction::InterpolateEnergies]
        } else {
            seq![]
        }) + shift_actions(shift),
        MixPath::EnergyThenDiis => build + shift_actions(shift) + seq![
            MixAction::RecordDiis,
            MixAction::RecordEnergies,
        ],
        MixPath::AugmentedThenDiis => build + shift_actions(shift) + seq![
            MixAction::RecordDiis,
            MixAction::RecordEnergies,
        ],
    }
}

/// What an attempt to combine the recorded Fock matrices came to.
#[derive(Clone, Copy, Debug, PartialEq, Eq, Structural)]
pub enum MixOutcome {
    /// Nothing was attempted: too little is recorded.
    NotTried,
    /// The energy interpolation was accepted.
    Interpolated,
    /// Extrapolation coefficients were found; `rising` tells whether the energy rose.
    Solved { rising: bool },
    /// No extrapolation coefficients exist.
    Failed,
}

/// The work that follows an attempt.
pub open spec fn closing(path: MixPath, shift: bool, outcome: MixOutcome) -> Seq<MixAction> {
    match path {
        MixPath::Diis => match outcome {
            MixOutcome::Solved { rising } => seq![
                MixAction::Extrapolate { damped: rising },
                MixAction::RecordExtrapolated,
            ],
            MixOutcome::Failed => seq![
                MixAction::MixDensities,
                MixAction::BuildFock,
                MixAction::PauseDiis,
            ] + shift_actions(shift),
            _ => seq![],
        },
        MixPath::EnergyThenDiis | MixPath::AugmentedThenDiis => match outcome {
            MixOutcome::Interpolated => seq![MixAction::InterpolateEnergies],
            MixOutcome::Solved { .. } => seq![MixAction::Extrapolate { damped: false }],
            MixOutcome::Failed => seq![
                MixAction::MixDensities,
                MixAction::BuildFock,
                MixAction::DropHistories,
            ] + shift_actions(shift),
            MixOutcome::NotTried => seq![],
        },
        _ => seq![],
    }
}

/// Appends the level shift, where one is asked for.
fn push_shift(actions: &mut Vec<MixAction>, shift: bool)
    ensures
        final(actions)@ == old(actions)@ + shift_actions(shift),
{
    if shift {
        actions.push(MixAction::ShiftLevels);
    }
    assert(actions@ =~= old(actions)@ + shift_actions(shift));
}

/// The work of a step before the outcome of an extrapolation matters.
pub fn opening_actions(path: MixPath, shift: bool, recorded: usize) -> (r: Vec<MixAction>)
    ensures
        r@ == opening(path, shift, recorded as int),
{
    let mut r: Vec<MixAction> = Vec::new();
    match path {
        MixPath::Keep => {
            push_shift(&mut r, shift);
        },
        MixPath::Direct => {
            r.push(MixAction::BuildFock);
            r.push(MixAction::UpdateGradient);
            push_shift(&mut r, shift);
        },
        MixPath::Linear => {
            r.push(MixAction::MixDensities);
            r.push(MixAction::BuildFock);
            r.push(MixAction::UpdateGradient);
            push_shift(&mut r, shift);
        },
        MixPath::Diis => {
            r.push(MixAction::BuildFock);
            r.push(MixAction::UpdateGradient);
            push_shift(&mut r, shift);
            r.push(MixAction::RecordEnergy);
            r.push(MixAction::RecordDiis);
        },
        MixPath::Energy => {
            r.push(MixAction::BuildFock);
            r.push(MixAction::UpdateGradient);
            r.push(MixAction::RecordEnergies);
            if recorded >= 2 {
                r.push(MixAction::InterpolateEnergies);
            }
            push_shift(&mut r, shift);
        },
        MixPath::EnergyThenDiis | MixPath::AugmentedThenDiis => {
            r.push(MixAction::BuildFock);
            r.push(MixAction::UpdateGradient);
            push_shift(&mut r, shift);
            r.push(MixAction::RecordDiis);
            r.push(MixAction::RecordEnergies);
        },
    }
    assert(r@ =~= opening(path, shift, recorded as int));
    r
}

/// A step of the mixing.
pub struct MixStep {
    pub path: MixPath,
    /// The work before the outcome of an extrapolation matters.
    pub opening: Vec<MixAction>,
    /// Recorded Fock matrices are combined afterwards.
    pub combines: bool,
}

/// Whether a step combines recorded Fock matrices after its opening.
pub open spec fn combines(path: MixPath) -> bool {
    path == MixPath::Diis || path == MixPath::EnergyThenDiis || path == MixPath::AugmentedThenDiis
}

/// The number of entries of a history after one more.
pub open spec fn length_after(len: int, limit: int) -> int {
    if len == limit {
        len
    } else {
        len + 1
    }
}

impl<D, E, F, M> ScfTraceRecord<D, E, F, M> {
    /// Plans the step that makes the next Fock matrix; `shift` tells whether a level shift
    /// is asked for.
    pub fn prepare_next_input(&self, shift: bool) -> (s: MixStep)
        requires
            self.wf(),
        ensures
            s.path == mix_path(self.mixer, self.num_iter as int, self.start_diis_cycle as int),
            s.opening@ == opening(
                s.path,
                shift,
                length_after(self.ediis_density@.len() as int, self.num_max_records as int),
            ),
            s.combines == combines(s.path),
    {
        let path: MixPath = self.path();
        let kept: usize = self.ediis_density.len();
        let recorded: usize = if kept == self.num_max_records {
            kept
        } else {
            kept + 1
        };
        MixStep {
            path,
            opening: opening_actions(path, shift, recorded),
            combines: matches!(path, MixPath::Diis) || matches!(path, MixPath::EnergyThenDiis)
                || matches!(path, MixPath::AugmentedThenDiis),
        }
    }
}

/// The length that a step counts on is the length of the history once it is recorded.
pub proof fn law_length_after<T>(history: Seq<T>, x: T, limit: int)
    requires
        history.len() <= limit,
        limit > 0,
    ensures
        remembered(history, x, limit).len() == length_after(history.len() as int, limit),
        remembered(history, x, limit).len() <= limit,
{
}

/// A step that combines nothing has no closing, whatever the outcome.
pub proof fn law_no_closing(path: MixPath, shift: bool, outcome: MixOutcome)
    requires
        !combines(path),
    ensures
        closing(path, shift, outcome).len() == 0,
{
}

/// The work of a step that follows an attempt to combine recorded Fock matrices.
pub fn closing_actions(path: MixPath, shift: bool, outcome: MixOutcome) -> (r: Vec<MixAction>)
    ensures
        r@ == closing(path, shift, outcome),
{
    let mut r: Vec<MixAction> = Vec::new();
    match (path, outcome) {
        (MixPath::Diis, MixOutcome::Solved { rising }) => {
            r.push(MixAction::Extrapolate { damped: rising });
            r.push(MixAction::RecordExtrapolated);
        },
        (MixPath::Diis, MixOutcome::Failed) => {
            r.push(MixAction::MixDensities);
            r.push(MixAction::BuildFock);
            r.push(MixAction::PauseDiis);
            push_shift(&mut r, shift);
        },
        (
            MixPath::EnergyThenDiis | MixPath::AugmentedThenDiis,
            MixOutcome::Interpolated,
        ) => {
            r.push(MixAction::InterpolateEnergies);
        },
        (
            MixPath::EnergyThenDiis | MixPath::AugmentedThenDiis,
            MixOutcome::Solved { rising: _ },
        ) => {
            r.push(MixAction::Extrapolate { damped: false });
        },
        (MixPath::EnergyThenDiis | MixPath::AugmentedThenDiis, MixOutcome::Failed) => {
            r.push(MixAction::MixDensities);
            r.push(MixAction::BuildFock);
            r.push(MixAction::DropHistories);
            push_shift(&mut r, shift);
        },
        _ => {},
    }
    assert(r@ =~= closing(path, shift, outcome));
    r
}

/// The pattern of 1e-3, the error norm above which energies are interpolated.
pub const ENERGY_NORM: u64 = 0x3f50_624d_d2f1_a9fc;

/// Whether an interpolation of energies is tried before an extrapolation.
pub open spec fn tries_energies(recorded: int, errors: int, norm: Real) -> bool {
    recorded >= 2 && (errors < 2 || (Real { bits: ENERGY_NORM }).below(norm))
}

/// Whether an interpolation of energies is tried before an extrapolation: always while
/// there are too few error vectors, later only while the last one is long.
pub fn try_energies(recorded: usize, errors: usize, norm: Real) -> (b: bool)
    ensures
        b == tries_energies(recorded as int, errors as int, norm),
{
    recorded >= 2 && (errors < 2 || norm.gt(Real { bits: ENERGY_NORM }))
}

/// How recorded Fock matrices are interpolated by energy. The weights minimize the weighted
/// energies plus a quadratic form of penalties.
#[derive(Clone, Copy, Debug, PartialEq, Eq, Structural)]
pub struct InterpolationRule {
    /// Penalties refer to the newest record rather than to pairs of records.
    pub augmented: bool,
    /// The quadratic form counts this many halves of the penalty strength.
    pub halves: i32,
    /// The strength of the penalty unless the input gives one.
    pub strength: Real,
    /// How far the predicted energy may exceed the current one; without it the interpolation
    /// is accepted in any case.
    pub tolerance: Option<Real>,
}

/// The pattern of 0.5, the usual strength of a penalty.
pub const PENALTY_STRENGTH: u64 = 0x3fe0_0000_0000_0000;

/// The pattern of 1e-10, the tolerance of energy interpolation.
pub const ENERGY_TOLERANCE: u64 = 0x3ddb_7cdf_d9d7_bdbb;

/// The pattern of 1e-8, the tolerance of augmented interpolation.
pub const AUGMENTED_TOLERANCE: u64 = 0x3e45_798e_e230_8c3a;

/// How a path interpolates by energy, if it does.
pub open spec fn rule_of_path(path: MixPath) -> Option<InterpolationRule> {
    let strength = Real { bits: PENALTY_STRENGTH };
    match path {
        MixPath::Energy => Some(
            InterpolationRule { augmented: false, halves: (-2) as i32, strength, tolerance: None },
        ),
        MixPath::EnergyThenDiis => Some(
            InterpolationRule {
                augmented: false,
                halves: (-2) as i32,
                strength,
                tolerance: Some(Real { bits: ENERGY_TOLERANCE }),
            },
        ),
        MixPath::AugmentedThenDiis => Some(
            InterpolationRule {
                augmented: true,
                halves: 1,
                strength,
                tolerance: Some(Real { bits: AUGMENTED_TOLERANCE }),
            },
        ),
        _ => None,
    }
}

/// How a path interpolates by energy, if it does.
pub fn interpolation_rule(path: MixPath) -> (r: Option<InterpolationRule>)
    ensures
        r == rule_of_path(path),
{
    let strength = Real { bits: PENALTY_STRENGTH };
    match path {
        MixPath::Energy => Some(
            InterpolationRule { augmented: false, halves: -2, strength, tolerance: None },
        ),
        MixPath::EnergyThenDiis => Some(
            InterpolationRule {
                augmented: false,
                halves: -2,
                strength,
                tolerance: Some(Real { bits: ENERGY_TOLERANCE }),
            },
        ),
        MixPath::AugmentedThenDiis => Some(
            InterpolationRule {
                augmented: true,
                halves: 1,
                strength,
                tolerance: Some(Real { bits: AUGMENTED_TOLERANCE }),
            },
        ),
        _ => None,
    }
}

/// Whether an interpolated energy is accepted: it may not exceed the bound, which is the
/// current energy plus a tolerance.
pub fn accept_energy(predicted: Real, bound: Real) -> (b: bool)
    ensures
        b == predicted.at_most(bound),
{
    predicted.le(bound)
}

/// What a combined step comes to. `accepted` tells whether an interpolation was tried and
/// accepted, `solved` whether extrapolation coefficients exist.
pub open spec fn combined_outcome(accepted: bool, errors: int, solved: bool) -> MixOutcome {
    if accepted {
        MixOutcome::Interpolated
    } else if errors < 2 {
        MixOutcome::NotTried
    } else if solved {
        MixOutcome::Solved { rising: false }
    } else {
        MixOutcome::Failed
    }
}

/// What a combined step comes to.
pub fn combine_outcome(accepted: bool, errors: usize, solved: bool) -> (o: MixOutcome)
    ensures
        o == combined_outcome(accepted, errors as int, solved),
{
    if accepted {
        MixOutcome::Interpolated
    } else if errors < 2 {
        MixOutcome::NotTried
    } else if solved {
        MixOutcome::Solved { rising: false }
    } else {
        MixOutcome::Failed
    }
}

/// The number of level shifts behind the last Fock build.
pub open spec fn shifts_since_build(actions: Seq<MixAction>) -> nat
    decreases actions.len(),
{
    if actions.len() == 0 || actions.last() == MixAction::BuildFock {
        0
    } else {
        shifts_since_build(actions.drop_last()) + (if actions.last() == MixAction::ShiftLevels {
            1nat
        } else {
            0
        })
    }
}

proof fn lemma_shifts_push(actions: Seq<MixAction>, a: MixAction)
    ensures
        shifts_since_build(actions.push(a)) == (if a == MixAction::BuildFock {
            0
        } else {
            shifts_since_build(actions) + (if a == MixAction::ShiftLevels { 1nat } else { 0 })
        }),
{
    assert(actions.push(a).drop_last() =~= actions);
}

proof fn lemma_shifts_concat(a: Seq<MixAction>, b: Seq<MixAction>)
    ensures
        shifts_since_build(a + b) == shifts_since_build(b) + (if b.contains(MixAction::BuildFock) {
            0
        } else {
            shifts_since_build(a)
        }),
    decreases b.len(),
{
    if b.len() == 0 {
        assert(a + b =~= a);
    } else {
        assert((a + b).drop_last() =~= a + b.drop_last());
        assert((a + b).last() == b.last());
        lemma_shifts_concat(a, b.drop_last());
        if b.last() == MixAction::BuildFock {
            assert(b[b.len() - 1] == MixAction::BuildFock);
        } else {
            if b.drop_last().contains(MixAction::BuildFock) {
                let k = choose|k: int|
                    0 <= k < b.drop_last().len() && b.drop_last()[k] == MixAction::BuildFock;
                assert(b[k] == MixAction::BuildFock);
            }
            if b.contains(MixAction::BuildFock) {
                let k = choose|k: int| 0 <= k < b.len() && b[k] == MixAction::BuildFock;
                assert(b.drop_last()[k] == MixAction::BuildFock);
            }
        }
    }
}

proof fn lemma_opening_shifts(path: MixPath, shift: bool, recorded: int)
    ensures
        shifts_since_build(opening(path, shift, recorded)) == (if shift { 1nat } else { 0 }),
{
    reveal_with_fuel(shifts_since_build, 7);
    let o = opening(path, shift, recorded);
    let e: Seq<MixAction> = seq![];
    let b = e.push(MixAction::BuildFock).push(MixAction::UpdateGradient);
    let m = e.push(MixAction::MixDensities).push(MixAction::BuildFock).push(
        MixAction::UpdateGradient,
    );
    lemma_shifts_push(e, MixAction::BuildFock);
    lemma_shifts_push(e.push(MixAction::BuildFock), MixAction::UpdateGradient);
    lemma_shifts_push(e, MixAction::ShiftLevels);
    lemma_shifts_push(e, MixAction::MixDensities);
    lemma_shifts_push(e.push(MixAction::MixDensities), MixAction::BuildFock);
    lemma_shifts_push(
        e.push(MixAction::MixDensities).push(MixAction::BuildFock),
        MixAction::UpdateGradient,
    );
    lemma_shifts_push(b, MixAction::ShiftLevels);
    lemma_shifts_push(m, MixAction::ShiftLevels);
    let s = if shift { b.push(MixAction::ShiftLevels) } else { b };
    lemma_shifts_push(s, MixAction::RecordEnergy);
    lemma_shifts_push(s.push(MixAction::RecordEnergy), MixAction::RecordDiis);
    lemma_shifts_push(s, MixAction::RecordDiis);
    lemma_shifts_push(s.push(MixAction::RecordDiis), MixAction::RecordEnergies);
    lemma_shifts_push(b, MixAction::RecordEnergies);
    let r = b.push(MixAction::RecordEnergies);
    lemma_shifts_push(r, MixAction::InterpolateEnergies);
    lemma_shifts_push(r, MixAction::ShiftLevels);
    lemma_shifts_push(r.push(MixAction::InterpolateEnergies), MixAction::ShiftLevels);
    match path {
        MixPath::Keep => {
            assert(o =~= if shift { e.push(MixAction::ShiftLevels) } else { e });
        },
        MixPath::Direct => {
            assert(o =~= s);
        },
        MixPath::Linear => {
            assert(o =~= if shift { m.push(MixAction::ShiftLevels) } else { m });
        },
        MixPath::Diis => {
            assert(o =~= s.push(MixAction::RecordEnergy).push(MixAction::RecordDiis));
        },
        MixPath::Energy => {
            let t = if recorded >= 2 { r.push(MixAction::InterpolateEnergies) } else { r };
            assert(o =~= if shift { t.push(MixAction::ShiftLevels) } else { t });
        },
        MixPath::EnergyThenDiis | MixPath::AugmentedThenDiis => {
            assert(o =~= s.push(MixAction::RecordDiis).push(MixAction::RecordEnergies));
        },
    }
}

/// Whichever way a step takes and whatever its extrapolation comes to, the level shift is
/// added exactly once to the last Fock matrix that was built, or not at all when none is
/// asked for.
pub proof fn law_shifted_once(path: MixPath, shift: bool, recorded: int, outcome: MixOutcome)
    ensures
        shifts_since_build(opening(path, shift, recorded) + closing(path, shift, outcome)) == (
        if shift {
            1nat
        } else {
            0
        }),
{
    let c = closing(path, shift, outcome);
    lemma_opening_shifts(path, shift, recorded);
    lemma_shifts_concat(opening(path, shift, recorded), c);
    reveal_with_fuel(shifts_since_build, 6);
    let e: Seq<MixAction> = seq![];
    if outcome == MixOutcome::Failed && c.len() > 0 {
        assert(c[1] == MixAction::BuildFock);
        let last = c[2];
        let t = e.push(MixAction::MixDensities).push(MixAction::BuildFock).push(last);
        lemma_shifts_push(e, MixAction::MixDensities);
        lemma_shifts_push(e.push(MixAction::MixDensities), MixAction::BuildFock);
        lemma_shifts_push(e.push(MixAction::MixDensities).push(MixAction::BuildFock), last);
        lemma_shifts_push(t, MixAction::ShiftLevels);
        assert(c =~= if shift { t.push(MixAction::ShiftLevels) } else { t });
    } else if c.len() == 2 {
        assert(c =~= e.push(c[0]).push(c[1]));
        lemma_shifts_push(e, c[0]);
        lemma_shifts_push(e.push(c[0]), c[1]);
        assert(!c.contains(MixAction::BuildFock));
    } else if c.len() == 1 {
        assert(c =~= e.push(c[0]));
        lemma_shifts_push(e, c[0]);
        assert(!c.contains(MixAction::BuildFock));
    }
}

/// The pattern of 1e-12, the relative size up to which overlaps of error vectors count as
/// dependent.
pub const DIIS_CUTOFF: u64 = 0x3d71_9799_812d_ea11;

/// The error vectors that an extrapolation over `num_vec` steps uses: the first of them,
/// and how many.
pub open spec fn newest(recorded: int, num_vec: int) -> (int, int) {
    if recorded >= num_vec {
        (recorded - num_vec, num_vec)
    } else {
        (0, recorded)
    }
}

/// The error vectors that an extrapolation over `num_vec` steps uses: the first of them,
/// and how many.
pub fn diis_window(recorded: usize, num_vec: usize) -> (r: (usize, usize))
    ensures
        (r.0 as int, r.1 as int) == newest(recorded as int, num_vec as int),
        r.1 == (if recorded >= num_vec { num_vec } else { recorded }),
        r.0 + r.1 == recorded,
{
    if recorded >= num_vec {
        (recorded - num_vec, num_vec)
    } else {
        (0, recorded)
    }
}

/// The pattern of 1e-6, below which an extrapolation has no coefficients.
pub const SOLVABLE_SUM: u64 = 0x3eb0_c6f7_a0b5_ed8d;

/// Whether the inverse error matrix with this sum of entries gives coefficients.
pub open spec fn solvable(sum: Real) -> bool {
    !(Real { bits: sum.magnitude() as u64 }).below(Real { bits: SOLVABLE_SUM })
}

/// Whether the inverse error matrix with this sum of entries gives coefficients.
pub fn diis_solvable(sum: Real) -> (b: bool)
    ensures
        b == solvable(sum),
{
    !sum.abs().lt(Real { bits: SOLVABLE_SUM })
}

/// The pattern of 1e-10, above which the augmented penalty is scaled by its largest entry.
pub const PENALTY_FLOOR: u64 = 0x3ddb_7cdf_d9d7_bdbb;

/// Whether the augmented penalty is scaled by its largest entry.
pub open spec fn scales_penalty(largest: Real) -> bool {
    (Real { bits: PENALTY_FLOOR }).below(largest)
}

/// Whether the augmented penalty is scaled by its largest entry.
pub fn penalty_scaled(largest: Real) -> (b: bool)
    ensures
        b == scales_penalty(largest),
{
    largest.gt(Real { bits: PENALTY_FLOOR })
}

/// Whether the energy of a step is freed from half its smearing entropy.
pub open spec fn frees_entropy(sigma: Option<Real>) -> bool {
    sigma matches Some(s) && zero().below(s)
}

/// Whether the energy of a step is freed from half its smearing entropy: only at a positive
/// smearing width.
pub fn entropy_removed(sigma: Option<Real>) -> (b: bool)
    ensures
        b == frees_entropy(sigma),
{
    match sigma {
        Some(s) => s.gt(Real { bits: 0 }),
        None => false,
    }
}

/// Every mixer takes one way of its own from iteration `start` on. Before, nothing recorded
/// is combined: plain extrapolation waits by mixing densities, the others wait by keeping
/// the Fock matrix.
pub proof fn law_path_of_mixer(mixer: Mixer, num_iter: int, start: int)
    ensures
        ({
            let path = mix_path(mixer, num_iter, start);
            let started = num_iter >= start;
            &&& path == MixPath::Direct <==> mixer == Mixer::Direct
            &&& path == MixPath::Linear <==> mixer == Mixer::Linear || (mixer == Mixer::Diis
                && !started)
            &&& path == MixPath::Diis <==> mixer == Mixer::Diis && started
            &&& path == MixPath::Energy <==> mixer == Mixer::Ediis && started
            &&& path == MixPath::EnergyThenDiis <==> mixer == Mixer::EdiisDiis && started
            &&& path == MixPath::AugmentedThenDiis <==> mixer == Mixer::AdiisDiis && started
            &&& combines(path) ==> started
        }),
{
}

/// Energies are interpolated on exactly those ways that the mixers with an energy history
/// take, and on no other.
pub proof fn law_rules_need_energies(mixer: Mixer, num_iter: int, start: int, shift: bool)
    ensures
        ({
            let path = mix_path(mixer, num_iter, start);
            &&& rule_of_path(path) is Some <==> mixer.spec_keeps_energies() && num_iter >= start
            &&& rule_of_path(path) is Some <==> exists|i: int|
                0 <= i < opening(path, shift, 0).len() && #[trigger] opening(path, shift, 0)[i]
                    == MixAction::RecordEnergies
        }),
{
    let path = mix_path(mixer, num_iter, start);
    let o = opening(path, shift, 0);
    if path == MixPath::Energy {
        assert(o[2] == MixAction::RecordEnergies);
    } else if rule_of_path(path) is Some {
        assert(o[o.len() - 1] == MixAction::RecordEnergies);
    }
}

/// An interpolation that an extrapolation can replace is held to the current energy, within
/// 1e-10, or within 1e-8 when it is augmented; one that nothing can replace is always
/// accepted. Only the augmented form adds its penalties, at half their strength; the other
/// form takes them off at their whole strength.
pub proof fn law_interpolation_rules(path: MixPath)
    requires
        rule_of_path(path) is Some,
    ensures
        ({
            let r = rule_of_path(path)->0;
            &&& r.tolerance is Some <==> combines(path)
            &&& r.augmented <==> path == MixPath::AugmentedThenDiis
            &&& r.augmented ==> r.halves == 1 && r.tolerance == Some(
                Real { bits: 0x3e45_798e_e230_8c3a },
            )
            &&& !r.augmented ==> r.halves == -2
            &&& !r.augmented && r.tolerance is Some ==> r.tolerance == Some(
                Real { bits: 0x3ddb_7cdf_d9d7_bdbb },
            )
            &&& r.strength == Real { bits: 0x3fe0_0000_0000_0000 }
        }),
{
}

/// Recorded Fock matrices are extrapolated exactly when coefficients were found. The result
/// is damped exactly when plain extrapolation finds that the energy rose: a pure
/// extrapolation follows an energy that did not rise, and the combined ways never damp.
pub proof fn law_damped_when_rising(path: MixPath, shift: bool, outcome: MixOutcome, damped: bool)
    ensures
        closing(path, shift, outcome).contains(MixAction::Extrapolate { damped }) <==> {
            &&& combines(path)
            &&& outcome matches MixOutcome::Solved { rising } && (damped <==> path == MixPath::Diis
                && rising)
        },
        forall|rising: bool| #[trigger]
            closing(MixPath::Diis, shift, MixOutcome::Solved { rising }).contains(
                MixAction::Extrapolate { damped },
            ) <==> damped == rising,
{
    let c = closing(path, shift, outcome);
    if combines(path) && outcome is Solved {
        assert(c.contains(c[0]));
    }
    assert forall|rising: bool| #[trigger]
        closing(MixPath::Diis, shift, MixOutcome::Solved { rising }).contains(
            MixAction::Extrapolate { damped },
        ) <==> damped == rising by {
        let d = closing(MixPath::Diis, shift, MixOutcome::Solved { rising });
        assert(d.contains(d[0]));
    }
}

/// An extrapolated Fock matrix is kept for later damping on the plain way alone, where later
/// damping exists, and only behind the extrapolation that makes it.
pub proof fn law_extrapolated_recorded(path: MixPath, shift: bool, outcome: MixOutcome, j: int)
    ensures
        ({
            let c = closing(path, shift, outcome);
            &&& c.contains(MixAction::RecordExtrapolated) <==> path == MixPath::Diis
                && outcome is Solved
            &&& 0 <= j < c.len() && c[j] == MixAction::RecordExtrapolated ==> j > 0 && c[j
                - 1] is Extrapolate
        }),
{
    let c = closing(path, shift, outcome);
    if path == MixPath::Diis && outcome is Solved {
        assert(c.contains(c[1]));
    }
}

/// A combining step that finds no coefficients, and no other, falls back to the Fock matrix
/// of the mixed density: the densities are mixed right before the matrix is built, and
/// nothing recorded is combined. Plain extrapolation then pauses; the combined ways drop
/// their histories and do not pause.
pub proof fn law_failure_mixes(path: MixPath, shift: bool, outcome: MixOutcome, j: int)
    ensures
        ({
            let c = closing(path, shift, outcome);
            let failed = combines(path) && outcome == MixOutcome::Failed;
            &&& c.contains(MixAction::MixDensities) <==> failed
            &&& c.contains(MixAction::BuildFock) <==> failed
            &&& c.contains(MixAction::PauseDiis) <==> failed && path == MixPath::Diis
            &&& c.contains(MixAction::DropHistories) <==> failed && path != MixPath::Diis
            &&& c.contains(MixAction::ShiftLevels) <==> failed && shift
            &&& 0 <= j < c.len() && c[j] == MixAction::BuildFock ==> j > 0 && c[j - 1]
                == MixAction::MixDensities
            &&& failed && 0 <= j < c.len() ==> !(c[j] is Extrapolate) && c[j]
                != MixAction::InterpolateEnergies
        }),
{
    let c = closing(path, shift, outcome);
    if combines(path) && outcome == MixOutcome::Failed {
        assert(c.contains(c[0]));
        assert(c.contains(c[1]));
        assert(c.contains(c[2]));
        if shift {
            assert(c.contains(c[3]));
        }
    }
}

/// A closing interpolates exactly when an interpolation was accepted on a way that tries one.
/// An accepted interpolation, and a step without enough records, leave the histories and the
/// densities alone; a closing records nothing new about the step, and no gradient.
pub proof fn law_interpolated_when_accepted(path: MixPath, shift: bool, outcome: MixOutcome)
    ensures
        ({
            let c = closing(path, shift, outcome);
            &&& c.contains(MixAction::InterpolateEnergies) <==> outcome == MixOutcome::Interpolated
                && (path == MixPath::EnergyThenDiis || path == MixPath::AugmentedThenDiis)
            &&& outcome == MixOutcome::Interpolated ==> c.len() <= 1
            &&& outcome == MixOutcome::NotTried ==> c.len() == 0
            &&& outcome is Solved ==> c.len() <= 2
            &&& !c.contains(MixAction::UpdateGradient)
            &&& !c.contains(MixAction::RecordEnergy)
            &&& !c.contains(MixAction::RecordDiis)
            &&& !c.contains(MixAction::RecordEnergies)
        }),
{
    let c = closing(path, shift, outcome);
    if outcome == MixOutcome::Interpolated && combines(path) && path != MixPath::Diis {
        assert(c.contains(c[0]));
    }
}

/// Every step but one that keeps the Fock matrix builds it, right before its gradient, and
/// only linear mixing changes the density first. The step then records what its way needs:
/// error vectors where it may extrapolate, energies where it may interpolate, and the rise of
/// the energy where it may damp. Without an outcome to wait for, it interpolates as soon as
/// two energies are recorded. Nothing is extrapolated or dropped yet.
pub proof fn law_opening_work(path: MixPath, shift: bool, recorded: int)
    ensures
        ({
            let o = opening(path, shift, recorded);
            &&& o.contains(MixAction::BuildFock) <==> path != MixPath::Keep
            &&& o.contains(MixAction::UpdateGradient) <==> path != MixPath::Keep
            &&& o.contains(MixAction::MixDensities) <==> path == MixPath::Linear
            &&& o.contains(MixAction::ShiftLevels) <==> shift
            &&& o.contains(MixAction::RecordEnergy) <==> path == MixPath::Diis
            &&& o.contains(MixAction::RecordDiis) <==> combines(path)
            &&& o.contains(MixAction::RecordEnergies) <==> rule_of_path(path) is Some
            &&& o.contains(MixAction::InterpolateEnergies) <==> path == MixPath::Energy && recorded
                >= 2
            &&& forall|i: int|
                0 <= i < o.len() ==> !((#[trigger] o[i]) is Extrapolate) && o[i]
                    != MixAction::RecordExtrapolated && o[i] != MixAction::PauseDiis && o[i]
                    != MixAction::DropHistories
        }),
{
    let o = opening(path, shift, recorded);
    if o.len() > 0 {
        assert(o.contains(o[0]));
    }
    if o.len() > 1 {
        assert(o.contains(o[1]));
    }
    if o.len() > 2 {
        assert(o.contains(o[2]));
    }
    if o.len() > 3 {
        assert(o.contains(o[3]));
    }
    if o.len() > 4 {
        assert(o.contains(o[4]));
    }
}

/// The order of a step's work: densities are mixed before the Fock matrix is built, its
/// gradient follows at once and so is that of the unshifted matrix, error vectors and energies
/// are recorded after that, an interpolation follows what it interpolates, and no piece of
/// work is done twice. What an extrapolation records is the shifted matrix; what a lone
/// interpolation records is the unshifted one.
pub proof fn law_opening_order(path: MixPath, shift: bool, recorded: int, i: int, j: int)
    requires
        0 <= i < opening(path, shift, recorded).len(),
        0 <= j < opening(path, shift, recorded).len(),
    ensures
        ({
            let o = opening(path, shift, recorded);
            let records = o[j] == MixAction::RecordEnergy || o[j] == MixAction::RecordDiis || o[j]
                == MixAction::RecordEnergies;
            &&& o[i] == o[j] ==> i == j
            &&& o[i] == MixAction::MixDensities && o[j] == MixAction::BuildFock ==> i < j
            &&& o[i] == MixAction::BuildFock && o[j] == MixAction::UpdateGradient ==> j == i + 1
            &&& o[i] == MixAction::UpdateGradient && o[j] == MixAction::ShiftLevels ==> i < j
            &&& o[i] == MixAction::UpdateGradient && records ==> i < j
            &&& o[i] == MixAction::ShiftLevels && records ==> (i < j <==> path != MixPath::Energy)
            &&& o[i] == MixAction::RecordEnergies && o[j] == MixAction::InterpolateEnergies ==> i
                < j
            &&& o[i] == MixAction::InterpolateEnergies && o[j] == MixAction::ShiftLevels ==> i < j
        }),
{
}

/// An interpolation of energies needs two records. With fewer than two error vectors it is
/// then always tried; with more, only while the newest one is longer than 1e-3, so a longer
/// one never ends the trying.
pub proof fn law_energies_tried(recorded: int, errors: int, norm: Real, longer: Real)
    ensures
        recorded < 2 ==> !tries_energies(recorded, errors, norm),
        recorded >= 2 && errors < 2 ==> tries_energies(recorded, errors, norm),
        tries_energies(recorded, errors, norm) && norm.below(longer) ==> tries_energies(
            recorded,
            errors,
            longer,
        ),
        recorded >= 2 ==> tries_energies(recorded, errors, Real { bits: 0x3f50_624d_d2f1_a9fd }),
        errors >= 2 ==> !tries_energies(recorded, errors, Real { bits: 0x3f50_624d_d2f1_a9fc }),
        errors >= 2 && norm.nan() ==> !tries_energies(recorded, errors, norm),
{
}

/// An accepted interpolation ends a combined step. Otherwise an extrapolation is tried as soon
/// as there are two error vectors, and only then can the step succeed or fail by it; whether
/// the energy rose plays no part.
pub proof fn law_combined_outcome(accepted: bool, errors: int, solved: bool)
    ensures
        ({
            let o = combined_outcome(accepted, errors, solved);
            &&& o == MixOutcome::Interpolated <==> accepted
            &&& o == MixOutcome::NotTried <==> !accepted && errors < 2
            &&& o == MixOutcome::Failed <==> !accepted && errors >= 2 && !solved
            &&& o == MixOutcome::Solved { rising: false } <==> !accepted && errors >= 2 && solved
        }),
{
}

/// A combined step replaces the Fock matrix that it built exactly when an interpolation was
/// accepted or there were two error vectors.
pub proof fn law_combined_step_acts(
    path: MixPath,
    shift: bool,
    accepted: bool,
    errors: int,
    solved: bool,
)
    requires
        path == MixPath::EnergyThenDiis || path == MixPath::AugmentedThenDiis,
    ensures
        closing(path, shift, combined_outcome(accepted, errors, solved)).len() > 0 <==> accepted
            || errors >= 2,
{
}

/// Each mixer has one keyword, in lower case, and every other word names none.
pub proof fn law_mixer_keywords(keyword: Seq<char>)
    ensures
        mixer_of(keyword) == Mixer::Direct <==> keyword == "direct"@,
        mixer_of(keyword) == Mixer::Linear <==> keyword == "linear"@,
        mixer_of(keyword) == Mixer::Diis <==> keyword == "diis"@,
        mixer_of(keyword) == Mixer::Ediis <==> keyword == "ediis"@,
        mixer_of(keyword) == Mixer::EdiisDiis <==> keyword == "ediis+diis"@,
        mixer_of(keyword) == Mixer::AdiisDiis <==> keyword == "adiis+diis"@,
{
    reveal_strlit("direct");
    reveal_strlit("linear");
    reveal_strlit("diis");
    reveal_strlit("ediis");
    reveal_strlit("ediis+diis");
    reveal_strlit("adiis+diis");
    assert("direct"@.len() == 6 && "diis"@.len() == 4 && "ediis"@.len() == 5 && "ediis+diis"@.len()
        == 10);
    assert("direct"@[0] == 'd' && "linear"@[0] == 'l');
    assert("ediis+diis"@[0] == 'e' && "adiis+diis"@[0] == 'a');
}

/// A mixer keeps energies exactly when one of its ways interpolates them.
pub proof fn law_mixer_keeps_energies(mixer: Mixer)
    ensures
        mixer.spec_keeps_energies() <==> rule_of_path(mix_path(mixer, 0, 0)) is Some,
        mixer.spec_keeps_energies() <==> mixer == Mixer::Ediis || mixer == Mixer::EdiisDiis || mixer
            == Mixer::AdiisDiis,
{
}

/// An energy counts as rising only against an energy recorded before it, which it must
/// exceed, and only behind the records that are not checked. So the first energy never rises,
/// an energy that does not rise still does not when it is lower, and no two energies rise
/// above each other.
pub proof fn law_energy_rises(energies: Seq<Real>, energy: Real, lower: Real, start_check: int)
    ensures
        energies.len() == 0 ==> !energy_rises(energies, energy, start_check),
        energies.len() > 0 ==> !energy_rises(energies, energies.last(), start_check),
        energies.len() < start_check ==> !energy_rises(energies, energy, start_check),
        energies.len() >= 1 && energies.len() >= start_check && energies.last().below(energy)
            ==> energy_rises(energies, energy, start_check),
        energy_rises(energies, energy, start_check) ==> !energy_rises(
            energies.push(energy),
            energies.last(),
            start_check,
        ),
        energy_rises(energies, lower, start_check) && lower.below(energy) ==> energy_rises(
            energies,
            energy,
            start_check,
        ),
{
}

/// A failed plain extrapolation is tried again after eight iterations: until then densities
/// are mixed.
pub proof fn law_pause(num_iter: int, later: int)
    ensures
        mix_path(Mixer::Diis, later, num_iter + DIIS_PAUSE) == MixPath::Diis <==> later >= num_iter
            + 8,
        mix_path(Mixer::Diis, later, num_iter + DIIS_PAUSE) == MixPath::Linear <==> later < num_iter
            + 8,
{
}

/// Whether coefficients exist depends on the size of the sum alone: from 1e-6 on they do,
/// below it they do not, and a sum that is no number does not forbid them.
pub proof fn law_solvable(sum: Real, larger: Real)
    ensures
        solvable(sum) && sum.magnitude() <= larger.magnitude() ==> solvable(larger),
        sum.nan() ==> solvable(sum),
        solvable(Real { bits: 0x3eb0_c6f7_a0b5_ed8d }),
        solvable(Real { bits: 0xbeb0_c6f7_a0b5_ed8d }),
        !solvable(Real { bits: 0x3eb0_c6f7_a0b5_ed8c }),
        !solvable(Real { bits: 0xbeb0_c6f7_a0b5_ed8c }),
{
}

/// The penalty is scaled by its largest entry exactly above 1e-10: a larger entry never turns
/// scaling off, and an entry that is no number never turns it on.
pub proof fn law_penalty_scaled(largest: Real, larger: Real)
    ensures
        scales_penalty(largest) && largest.below(larger) ==> scales_penalty(larger),
        largest.nan() ==> !scales_penalty(largest),
        scales_penalty(Real { bits: 0x3ddb_7cdf_d9d7_bdbc }),
        !scales_penalty(Real { bits: 0x3ddb_7cdf_d9d7_bdbb }),
{
}

/// Only a positive width frees an energy from entropy: the smallest positive one does, zero,
/// negative widths and the lack of a width do not.
pub proof fn law_entropy_freed(sigma: Real)
    ensures
        !frees_entropy(None),
        sigma.bits >= 0x8000_0000_0000_0000 ==> !frees_entropy(Some(sigma)),
        !frees_entropy(Some(Real { bits: 0 })),
        0 < sigma.bits <= 0x7ff0_0000_0000_0000 ==> frees_entropy(Some(sigma)),
        sigma.nan() ==> !frees_entropy(Some(sigma)),
{
}

/// The vectors that an extrapolation uses are the newest, as many as it wants where so many
/// are recorded: it leaves out old ones only when it has all that it wants.
pub proof fn law_newest(recorded: int, num_vec: int)
    requires
        0 <= recorded,
        0 <= num_vec,
    ensures
        ({
            let (first, count) = newest(recorded, num_vec);
            &&& 0 <= first
            &&& first + count == recorded
            &&& count <= num_vec
            &&& first > 0 ==> count == num_vec
        }),
{
}

/// Two iterations in a row: the output density of the first is the input density of the second,
/// and of the values only the second's are left.
pub proof fn law_updates_follow<D, E, F, M>(
    before: &ScfTraceRecord<D, E, F, M>,
    once: &ScfTraceRecord<D, E, F, M>,
    twice: &ScfTraceRecord<D, E, F, M>,
    first: ScfValues<D, M>,
    second: ScfValues<D, M>,
)
    requires
        once.updated(before, first),
        twice.updated(once, second),
    ensures
        once.density_matrix.0 == before.density_matrix.1,
        twice.density_matrix.0 == first.density_matrix,
        twice.density_matrix.1 == second.density_matrix,
        twice.num_iter == before.num_iter + 2,
        twice.scf_energy == second.scf_energy,
        twice.smearing_entropy == second.smearing_entropy,
        twice.eigenvectors == second.eigenvectors,
        twice.eigenvalues == second.eigenvalues,
{
}

/// A history that holds as much as it may loses its oldest entry to a new one, and one that does not
/// loses none; the new entry comes last, and the others keep their order.
pub proof fn law_remembered<T>(history: Seq<T>, x: T, limit: int, i: int)
    requires
        0 < limit,
        history.len() <= limit,
    ensures
        remembered(history, x, limit).last() == x,
        history.len() < limit && 0 <= i < history.len() ==> remembered(history, x, limit)[i]
            == history[i],
        history.len() == limit && 0 < i < history.len() ==> remembered(history, x, limit)[i - 1]
            == history[i],
{
}

/// A mixer that keeps energies has that of the guess from the start, so that already its first step
/// has two to interpolate, unless one entry is all that it may keep; the others start with none.
pub proof fn law_first_history<T>(mixer: Mixer, x: T, limit: int, shift: bool)
    requires
        0 < limit,
    ensures
        first_history(mixer, x).len() == (if mixer == Mixer::Ediis || mixer == Mixer::EdiisDiis
            || mixer == Mixer::AdiisDiis {
            1nat
        } else {
            0
        }),
        first_history(mixer, x).len() > 0 ==> first_history(mixer, x)[0] == x,
        ({
            let recorded = length_after(first_history(Mixer::Ediis, x).len() as int, limit);
            opening(MixPath::Energy, shift, recorded).contains(MixAction::InterpolateEnergies)
                <==> limit >= 2
        }),
{
    let recorded = length_after(first_history(Mixer::Ediis, x).len() as int, limit);
    law_opening_work(MixPath::Energy, shift, recorded);
}

} // verus!
