use rest_scf::binary64::Real;
use rest_scf::counts::half_count;
use rest_scf::scf_io::driver::{
    begin_scf, finish_scf, ConvergenceCriteria, EnergyKind, ScfAction, ScfChanges, ScfLoop,
    ScfSettings, ScfThresholds,
};
use rest_scf::scf_io::orbitals::OCCType;
use rest_scf::scf_io::scfrecord::{
    accept_energy, closing_actions, combine_outcome, diis_solvable, diis_window, entropy_removed,
    interpolation_rule, opening_actions, penalty_scaled, try_energies, MixAction, MixOutcome, MixPath, Mixer,
    RecordSettings, ScfBlanks, ScfTraceRecord, ScfValues,
};
use rest_scf::scf_io::setup::{AlgorithmJK, Control, EriType, InitialGuess, Molecule, SCF};
use rest_scf::scf_io::smear::{SmearWidth, Smearing, SmearingType, WidthFloor};

fn num(x: f64) -> Real {
    Real::from_bits(x.to_bits())
}

type Record = ScfTraceRecord<u32, u32, u32, u32>;

fn record_settings(limit: usize, mixer: &str, start: usize) -> RecordSettings {
    RecordSettings {
        num_max_records: limit,
        mix_param: num(0.25),
        mixer: Mixer::from_keyword(&mixer.to_string()),
        start_diis_cycle: start,
    }
}

fn blanks() -> ScfBlanks<u32, u32, u32> {
    ScfBlanks { fock: 0, eigenvectors: [0, 0], density: (0, 0) }
}

fn record(limit: usize, mixer: &str, start: usize) -> Record {
    ScfTraceRecord::new(record_settings(limit, mixer, start), blanks())
}

fn values(k: u32) -> ScfValues<u32, u32> {
    ScfValues {
        scf_energy: num(-(k as f64)),
        smearing_entropy: num(0.5 * k as f64),
        eigenvectors: [10 * k, 20 * k],
        eigenvalues: [vec![num(k as f64)], vec![]],
        density_matrix: k,
    }
}

fn settings() -> ScfSettings {
    ScfSettings {
        noiter: false,
        smear: false,
        guess_mix: false,
        start_mix_cycle: 0,
        solvent: false,
        print_level: 0,
        occupation_type: OCCType::INTEGER,
    }
}

fn thresholds() -> ScfThresholds {
    ScfThresholds {
        energy: num(1.0e-6),
        eigenvalues: num(1.0e-3),
        density: num(1.0e-4),
        gradient: num(1.0e-5),
    }
}

fn calculation(criteria: ConvergenceCriteria, spin_channel: usize) -> SCF {
    let mol = Molecule {
        num_alpha: num(4.0),
        num_beta: num(4.0),
        spin_channel,
        num_basis: 20,
        num_auxbas: 60,
        num_state: 20,
        start_mo: 0,
        use_eri: true,
        ghost_potentials: 0,
        external_field: false,
        point_charges: 0,
        is_rsh: false,
        is_dfa_scf: false,
        components: 0,
        has_dispersion: false,
    };
    let ctrl = Control {
        spin_polarization: spin_channel == 2,
        algorithm_jk: AlgorithmJK::Default,
        eri_type: EriType::RiV,
        use_auxbas: true,
        use_ri_symm: true,
        use_dm_only: false,
        use_isdf: false,
        isdf_k_only: false,
        isdf_new: false,
        ri_k_only: false,
        sfx2c: false,
        empirical_dispersion: false,
        initial_guess: InitialGuess::Other,
        ao_cutoff: num(0.0),
        drop_dense_ao: false,
        smearing: None,
        start_diis_cycle: 3,
        solvent_enabled: false,
        deep_learning: false,
        quasiparticle_methods: false,
        bse_auxbas: false,
        scf_conv_criteria: criteria,
        thresholds: thresholds(),
        max_scf_cycle: 50,
    };
    SCF::init_scf(mol, ctrl)
}

#[test]
fn mixers_by_keyword() {
    let names = ["direct", "linear", "diis", "ediis", "ediis+diis", "adiis+diis", "DIIS"];
    let mixers = [
        Mixer::Direct,
        Mixer::Linear,
        Mixer::Diis,
        Mixer::Ediis,
        Mixer::EdiisDiis,
        Mixer::AdiisDiis,
        Mixer::Other,
    ];
    for (name, mixer) in names.iter().zip(mixers) {
        assert_eq!(Mixer::from_keyword(&name.to_string()), mixer);
    }
}

#[test]
fn path_depends_on_the_iteration() {
    let mut r = record(3, "diis", 2);
    assert_eq!(r.path(), MixPath::Linear);
    r.update(values(1));
    assert_eq!(r.path(), MixPath::Linear);
    r.update(values(2));
    assert_eq!(r.num_iter, 2);
    assert_eq!(r.density_matrix, (1, 2));
    assert_eq!((r.scf_energy, r.smearing_entropy), (num(-2.0), num(1.0)));
    assert_eq!(r.eigenvectors, [20, 40]);
    assert_eq!(r.eigenvalues, [vec![num(2.0)], vec![]]);
    assert_eq!((r.mix_param, r.sqrt_inv_ovlp), (num(0.25), None));
    assert_eq!(r.path(), MixPath::Diis);
    assert_eq!(record(3, "ediis", 1).path(), MixPath::Keep);
    assert_eq!(record(3, "ediis", 0).path(), MixPath::Energy);
    assert_eq!(record(3, "ediis+diis", 0).path(), MixPath::EnergyThenDiis);
    assert_eq!(record(3, "adiis+diis", 0).path(), MixPath::AugmentedThenDiis);
    assert_eq!(record(3, "direct", 9).path(), MixPath::Direct);
    assert_eq!(record(3, "linear", 9).path(), MixPath::Linear);
    assert_eq!(record(3, "newton", 0).path(), MixPath::Keep);
}

#[test]
fn histories_keep_the_newest() {
    let mut r = record(3, "ediis+diis", 0);
    for k in 1..=5 {
        r.record_diis(10 * k, k);
        r.record_energies(k, num(k as f64), 100 * k);
    }
    assert_eq!(r.error_vector, vec![30, 40, 50]);
    assert_eq!(r.target_vector, vec![3, 4, 5]);
    assert_eq!(r.ediis_density, vec![3, 4, 5]);
    assert_eq!(r.ediis_fock, vec![300, 400, 500]);
    assert_eq!(r.ediis_energy, vec![num(3.0), num(4.0), num(5.0)]);
    assert_eq!(r.prev_hamiltonian, vec![0]);
    r.record_extrapolated(7);
    r.record_extrapolated(8);
    assert_eq!(r.prev_hamiltonian, vec![7, 8]);
}

#[test]
fn initial_guess_starts_energy_histories_only() {
    let start = |mixer| -> Record {
        let first = (4, num(-1.5), 6);
        let guess = values(7);
        ScfTraceRecord::initialize(record_settings(3, mixer, 2), 9, guess, 7, Some(5), first)
    };
    for mixer in ["ediis", "ediis+diis", "adiis+diis"] {
        let r = start(mixer);
        assert_eq!((r.ediis_density, r.ediis_fock), (vec![4], vec![6]));
        assert_eq!(r.ediis_energy, vec![num(-1.5)]);
    }
    let r = start("diis");
    assert!(r.ediis_density.is_empty() && r.ediis_energy.is_empty() && r.ediis_fock.is_empty());
    assert_eq!((r.num_iter, r.start_diis_cycle), (0, 2));
    assert_eq!((r.scf_energy, r.smearing_entropy), (num(-7.0), num(0.0)));
    assert_eq!((r.eigenvectors, r.density_matrix), ([70, 140], (7, 7)));
    assert_eq!(r.eigenvalues, [vec![num(7.0)], vec![]]);
    assert_eq!((r.sqrt_inv_ovlp, r.prev_hamiltonian), (Some(5), vec![9]));
    let mut r = record(0, "diis", 0);
    r.update(values(3));
    r.refresh(blanks());
    assert_eq!((r.num_max_records, r.num_iter, r.scf_energy), (0, 1, num(-3.0)));
}

#[test]
fn rising_energy_is_noticed_late_enough() {
    let mut r = record(3, "diis", 0);
    assert!(!r.record_energy(num(-1.0), 0));
    assert!(r.record_energy(num(-0.5), 0));
    assert!(!r.record_energy(num(-0.7), 0));
    assert!(!r.record_energy(num(-0.7), 0));
    let mut r = record(3, "diis", 0);
    assert!(!r.record_energy(num(-1.0), 3));
    assert!(!r.record_energy(num(-0.9), 3));
    assert!(!r.record_energy(num(-0.8), 3));
    assert!(r.record_energy(num(-0.7), 3));
}

#[test]
fn failures_start_over() {
    let mut r = record(3, "diis", 0);
    r.update(values(5));
    r.record_diis(1, 1);
    r.record_energies(1, num(0.0), 1);
    r.pause_diis();
    assert_eq!(r.start_diis_cycle, 9);
    assert!(r.error_vector.is_empty() && r.target_vector.is_empty());
    assert_eq!(r.ediis_density.len(), 1);
    r.record_diis(1, 1);
    r.drop_histories();
    assert!(r.error_vector.is_empty() && r.ediis_density.is_empty() && r.ediis_energy.is_empty());
    r.record_extrapolated(3);
    r.record_energy(num(1.0), 0);
    r.needs_fock_rebuild = true;
    for _ in 0..2 {
        r.refresh(ScfBlanks { fock: 0, eigenvectors: [1, 2], density: (7, 7) });
        assert_eq!((r.num_iter, r.start_diis_cycle), (1, 9));
        assert!(r.energy_records.is_empty());
        assert_eq!(r.prev_hamiltonian, vec![0]);
        assert_eq!((r.eigenvectors, r.density_matrix), ([1, 2], (7, 7)));
        assert_eq!(r.eigenvalues, [vec![], vec![]]);
        assert_eq!((r.scf_energy, r.smearing_entropy), (num(-5.0), num(2.5)));
        assert!(!r.extrapolated_density && !r.needs_fock_rebuild);
        assert!(!r.prev_density_extrapolated);
    }
}

#[test]
fn steps_of_each_path() {
    assert_eq!(opening_actions(MixPath::Keep, true, 0), vec![MixAction::ShiftLevels]);
    assert_eq!(opening_actions(MixPath::Direct, false, 0), vec![MixAction::BuildFock, MixAction::UpdateGradient]);
    assert_eq!(
        opening_actions(MixPath::Linear, true, 0),
        vec![MixAction::MixDensities, MixAction::BuildFock, MixAction::UpdateGradient, MixAction::ShiftLevels]
    );
    assert_eq!(
        opening_actions(MixPath::Diis, true, 0),
        vec![MixAction::BuildFock, MixAction::UpdateGradient, MixAction::ShiftLevels, MixAction::RecordEnergy, MixAction::RecordDiis]
    );
    assert_eq!(
        opening_actions(MixPath::Energy, true, 2),
        vec![MixAction::BuildFock, MixAction::UpdateGradient, MixAction::RecordEnergies, MixAction::InterpolateEnergies, MixAction::ShiftLevels]
    );
    assert_eq!(
        opening_actions(MixPath::Energy, false, 1),
        vec![MixAction::BuildFock, MixAction::UpdateGradient, MixAction::RecordEnergies]
    );
    assert_eq!(
        opening_actions(MixPath::EnergyThenDiis, false, 2),
        vec![MixAction::BuildFock, MixAction::UpdateGradient, MixAction::RecordDiis, MixAction::RecordEnergies]
    );
    assert_eq!(
        closing_actions(MixPath::Diis, true, MixOutcome::Solved { rising: true }),
        vec![MixAction::Extrapolate { damped: true }, MixAction::RecordExtrapolated]
    );
    assert_eq!(
        closing_actions(MixPath::Diis, true, MixOutcome::Failed),
        vec![MixAction::MixDensities, MixAction::BuildFock, MixAction::PauseDiis, MixAction::ShiftLevels]
    );
    assert_eq!(
        closing_actions(MixPath::AugmentedThenDiis, false, MixOutcome::Failed),
        vec![MixAction::MixDensities, MixAction::BuildFock, MixAction::DropHistories]
    );
    assert_eq!(
        closing_actions(MixPath::EnergyThenDiis, true, MixOutcome::Interpolated),
        vec![MixAction::InterpolateEnergies]
    );
    assert_eq!(
        closing_actions(MixPath::EnergyThenDiis, true, MixOutcome::Solved { rising: true }),
        vec![MixAction::Extrapolate { damped: false }]
    );
    assert!(closing_actions(MixPath::EnergyThenDiis, true, MixOutcome::NotTried).is_empty());
    assert!(closing_actions(MixPath::Direct, true, MixOutcome::Failed).is_empty());
}

#[test]
fn level_shift_is_added_once() {
    let paths = [
        MixPath::Keep,
        MixPath::Direct,
        MixPath::Linear,
        MixPath::Diis,
        MixPath::Energy,
        MixPath::EnergyThenDiis,
        MixPath::AugmentedThenDiis,
    ];
    let outcomes = [
        MixOutcome::NotTried,
        MixOutcome::Interpolated,
        MixOutcome::Solved { rising: false },
        MixOutcome::Failed,
    ];
    for path in paths {
        for outcome in outcomes {
            for shift in [false, true] {
                let mut actions = opening_actions(path, shift, 3);
                actions.extend(closing_actions(path, shift, outcome));
                let mut shifts = 0;
                for a in actions {
                    match a {
                        MixAction::BuildFock => shifts = 0,
                        MixAction::ShiftLevels => shifts += 1,
                        _ => {}
                    }
                }
                assert_eq!(shifts, if shift { 1 } else { 0 });
            }
        }
    }
}

#[test]
fn choices_between_interpolation_and_extrapolation() {
    assert!(!try_energies(1, 0, num(1.0)));
    assert!(try_energies(2, 1, num(1.0e-9)));
    assert!(try_energies(2, 2, num(2.0e-3)));
    assert!(!try_energies(2, 2, num(1.0e-3)));
    assert!(accept_energy(num(-1.0), num(-1.0)));
    assert!(!accept_energy(num(-0.9), num(-1.0)));
    let rule = |path| interpolation_rule(path).unwrap();
    let e = rule(MixPath::EnergyThenDiis);
    assert_eq!((e.augmented, e.halves, e.strength), (false, -2, num(0.5)));
    assert_eq!(e.tolerance, Some(num(1.0e-10)));
    let a = rule(MixPath::AugmentedThenDiis);
    assert_eq!((a.augmented, a.halves, a.tolerance), (true, 1, Some(num(1.0e-8))));
    assert_eq!(rule(MixPath::Energy).tolerance, None);
    assert!(interpolation_rule(MixPath::Diis).is_none());
    assert_eq!(combine_outcome(true, 0, false), MixOutcome::Interpolated);
    assert_eq!(combine_outcome(false, 1, true), MixOutcome::NotTried);
    assert_eq!(combine_outcome(false, 2, true), MixOutcome::Solved { rising: false });
    assert_eq!(combine_outcome(false, 2, false), MixOutcome::Failed);
    assert_eq!(diis_window(8, 3), (5, 3));
    assert_eq!(diis_window(2, 3), (0, 2));
    assert!(diis_solvable(num(1.0e-6)) && diis_solvable(num(-1.0)));
    assert!(!diis_solvable(num(-9.0e-7)));
    assert!(penalty_scaled(num(1.0e-9)) && !penalty_scaled(num(1.0e-10)));
}

fn smearing() -> Smearing {
    Smearing {
        shape: SmearingType::FERMI,
        sigma: num(0.1),
        anneal: false,
        sigma_min: None,
    }
}

#[test]
fn width_of_each_iteration() {
    let mut scf = calculation(ConvergenceCriteria::Density, 1);
    assert_eq!(scf.smearing_width(4), None);
    scf.ctrl.smearing = Some(smearing());
    assert_eq!(scf.smearing_width(4), Some(SmearWidth::Fixed(num(0.1))));
    scf.ctrl.smearing = Some(Smearing { anneal: true, ..smearing() });
    scf.ctrl.max_scf_cycle = 51;
    let plan = SmearWidth::Annealed {
        from: num(0.1),
        floor: WidthFloor::Largest { ratio: num(0.01), least: num(0.001) },
        num_iter: 4,
        start: 3,
        length: 25,
    };
    assert_eq!(scf.smearing_width(4), Some(plan));
    let least = Some(num(0.002));
    scf.ctrl.smearing = Some(Smearing { anneal: true, sigma_min: least, ..smearing() });
    match scf.smearing_width(9) {
        Some(SmearWidth::Annealed { floor, num_iter, .. }) => {
            assert_eq!((floor, num_iter), (WidthFloor::Given(num(0.002)), 9));
        }
        _ => panic!("the width shrinks"),
    }
}

#[test]
fn halves_like_in_floating_point() {
    let big: usize = 1 << 53;
    let mut all = vec![0, 1, 2, 51, big - 1, big, big + 1, big + 2, big + 3, 4 * big + 6];
    all.extend([usize::MAX, usize::MAX - 1024, usize::MAX - 1023, usize::MAX / 3]);
    for x in all {
        assert_eq!(half_count(x), (x as f64 * 0.5) as usize);
    }
}

#[test]
fn skipped_iterations() {
    let s = ScfSettings { noiter: true, print_level: 9, solvent: true, ..settings() };
    assert!(ScfLoop::new(s).is_over());
    assert!(finish_scf(s).is_empty());
}

#[test]
fn reports_of_the_iteration() {
    let s = |print_level, solvent| ScfSettings { print_level, solvent, ..settings() };
    let rest = |print_level| ScfLoop::new(s(print_level, false)).end_iteration(false, false);
    assert_eq!(rest(0), vec![ScfAction::UpdateRecords]);
    assert_eq!(rest(1), vec![ScfAction::UpdateRecords, ScfAction::ReportIteration]);
    let last = |print_level, solvent| finish_scf(s(print_level, solvent))[4..].to_vec();
    assert!(last(1, true).is_empty());
    assert_eq!(last(2, true), vec![ScfAction::PrintGap, ScfAction::PrintEigenvalues]);
    assert_eq!(
        last(4, true),
        vec![
            ScfAction::ReportSolvent,
            ScfAction::PrintGap,
            ScfAction::PrintEigenvalues,
            ScfAction::PrintEigenvectors,
        ]
    );
    assert_eq!(last(3, false).len(), 2);
}

#[test]
fn convergence_by_each_criterion() {
    let good = ScfChanges {
        energy: num(-1.0e-6),
        free_energy: num(1.0),
        eigenvalues: num(1.0e-3),
        density_alpha: num(1.0e-4),
        density_beta: num(1.0),
        gradient_alpha: num(1.0e-5),
        gradient_beta: num(1.0),
    };
    let all = [
        ConvergenceCriteria::from_keyword(&"g".to_string()).unwrap(),
        ConvergenceCriteria::from_keyword(&"dm".to_string()).unwrap(),
        ConvergenceCriteria::from_keyword(&"dm,eev".to_string()).unwrap(),
    ];
    assert!(ConvergenceCriteria::from_keyword(&"eev".to_string()).is_none());
    for c in all {
        let one = calculation(c, 1);
        let two = calculation(c, 2);
        assert_eq!(one.check_scf_convergence(good, 1), (false, false));
        assert_eq!(one.check_scf_convergence(good, 2), (true, false));
        assert_eq!(two.check_scf_convergence(good, 2), (false, false));
        assert_eq!(two.check_scf_convergence(good, 50), (false, true));
        let bad = ScfChanges { energy: num(2.0e-6), ..good };
        assert_eq!(one.check_scf_convergence(bad, 2), (false, false));
    }
    let loose = ScfChanges { eigenvalues: num(1.0), ..good };
    assert!(calculation(all[1], 1).check_scf_convergence(loose, 2).0);
    assert!(!calculation(all[2], 1).check_scf_convergence(loose, 2).0);
    let mut smeared = calculation(all[1], 1);
    assert_eq!(smeared.energy_kind(), EnergyKind::Total);
    smeared.ctrl.smearing = Some(smearing());
    assert_eq!(smeared.energy_kind(), EnergyKind::Free);
    assert!(!smeared.check_scf_convergence(good, 2).0);
    let free = ScfChanges { energy: num(1.0), free_energy: num(1.0e-7), ..good };
    assert!(smeared.check_scf_convergence(free, 2).0);
    let nan = ScfChanges { energy: num(f64::NAN), ..good };
    assert!(!calculation(all[0], 1).check_scf_convergence(nan, 2).0);
}

#[test]
fn order_of_work() {
    let s = ScfSettings { smear: true, guess_mix: true, ..settings() };
    assert_eq!(
        begin_scf(s),
        vec![
            ScfAction::BuildFock,
            ScfAction::UpdateGradient,
            ScfAction::InitializeRecords,
            ScfAction::Diagonalize,
            ScfAction::Occupy,
            ScfAction::SmearInitial,
            ScfAction::MixGuess,
            ScfAction::BuildDensity,
            ScfAction::UpdateRecords
        ]
    );
    assert_eq!(
        begin_scf(ScfSettings { noiter: true, ..s }),
        vec![ScfAction::BuildFock, ScfAction::UpdateGradient, ScfAction::InitializeRecords]
    );
    let l = ScfLoop::new(ScfSettings { solvent: true, print_level: 2, ..settings() });
    assert_eq!(
        l.begin_iteration(),
        vec![
            ScfAction::PrepareNextInput,
            ScfAction::Diagonalize,
            ScfAction::Occupy,
            ScfAction::BuildDensity,
            ScfAction::RefreshSolvent,
            ScfAction::PrintGap,
            ScfAction::CheckConvergence
        ]
    );
    assert_eq!(
        finish_scf(ScfSettings { occupation_type: OCCType::FRAC, ..settings() }),
        vec![ScfAction::OccupyInteger, ScfAction::BuildDensity, ScfAction::BuildFock, ScfAction::UpdateGradient, ScfAction::Diagonalize, ScfAction::Occupy]
    );
    assert_eq!(finish_scf(settings()), vec![ScfAction::BuildFock, ScfAction::UpdateGradient, ScfAction::Diagonalize, ScfAction::Occupy]);
}

fn run(s: ScfSettings, flags: &[(bool, bool)]) -> (usize, ScfLoop) {
    let mut actions = begin_scf(s);
    let mut l = ScfLoop::new(s);
    for &(converged, exhausted) in flags {
        assert!(!l.is_over());
        actions.extend(l.begin_iteration());
        actions.extend(l.end_iteration(converged, exhausted));
    }
    (actions.iter().filter(|a| **a == ScfAction::MixGuess).count(), l)
}

#[test]
fn guess_is_mixed_once() {
    let go = (false, false);
    let done = (true, false);
    let mixing = ScfSettings { guess_mix: true, ..settings() };
    let (n, l) = run(mixing, &[go, done]);
    assert_eq!((n, l.is_over(), l.num_iter), (1, true, 3));
    let late = ScfSettings { start_mix_cycle: 2, ..mixing };
    let (n, l) = run(late, &[go, go, go, done]);
    assert_eq!((n, l.converged), (1, true));
    let later = ScfSettings { start_mix_cycle: 40, ..mixing };
    let (n, l) = run(later, &[go, done]);
    assert_eq!((n, l.is_over()), (1, false));
    let (n, l) = run(later, &[go, done, go, (false, true)]);
    assert_eq!((n, l.exhausted, l.converged), (1, true, false));
    let (n, l) = run(ScfSettings { start_mix_cycle: 2, ..settings() }, &[go, go, done]);
    assert_eq!((n, l.is_over()), (0, true));
}

#[test]
fn cycles_used_up_end_the_iteration() {
    let s = ScfSettings { guess_mix: true, start_mix_cycle: 1000, ..settings() };
    let (_, l) = run(s, &[(false, true)]);
    assert!(!l.is_over());
    let (_, l) = run(s, &[(false, true), (false, true)]);
    assert!(l.exhausted);
}

#[test]
fn printed_states() {
    let mut scf = calculation(ConvergenceCriteria::Density, 2);
    scf.homo = [4, 7];
    assert_eq!(scf.states_to_print(), 11);
    scf.homo = [18, 7];
    assert_eq!(scf.states_to_print(), 20);
}

#[test]
fn entropy_counts_at_positive_widths() {
    assert!(entropy_removed(Some(num(0.01))));
    assert!(!entropy_removed(Some(num(0.0))));
    assert!(!entropy_removed(None));
}

#[test]
fn a_step_of_the_mixing_is_planned() {
    let r = record(2, "diis", 0);
    let s = r.prepare_next_input(false);
    assert_eq!((s.path, s.combines), (MixPath::Diis, true));
    assert_eq!(s.opening, opening_actions(MixPath::Diis, false, 0));
    let mut r = record(2, "ediis", 0);
    let s = r.prepare_next_input(true);
    assert_eq!((s.path, s.combines), (MixPath::Energy, false));
    assert!(!s.opening.contains(&MixAction::InterpolateEnergies));
    r.record_energies(1, Real::from_bits(0), 1);
    let s = r.prepare_next_input(true);
    assert!(s.opening.contains(&MixAction::InterpolateEnergies));
    assert!(closing_actions(s.path, true, MixOutcome::Failed).is_empty());
}
