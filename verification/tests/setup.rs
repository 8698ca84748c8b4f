use rest_scf::binary64::Real;
use rest_scf::packed::ij0;
use rest_scf::scf_io::direct::density_weights;
use rest_scf::scf_io::driver::{ConvergenceCriteria, ScfThresholds};
use rest_scf::scf_io::energy::{
    projector_parts, EnergyComponent, EnergyDensity, EnergyOperator, EnergyTerm,
    FunctionalSource, Space, SpinFock,
};
use rest_scf::scf_io::hamiltonian::{
    count_occupied, generate_vj_ri_direct, generate_vk_ri_direct, half_exchange, is_full_exchange_needed,
    smallest_batch,
    CoulombKernel, ExchangeFactor, ExchangeFraction, ExchangeKernel, ExchangePart, ExchangeScaling, ExchangeTerm, FockRoute, KsInput,
    ShiftTarget, XcKernel,
};
use rest_scf::scf_io::print::GapLine;
use rest_scf::scf_io::setup::{
    initialize_scf, isdf_steps, ri_memory_bytes, AlgorithmJ, AlgorithmJK, AlgorithmK, BseIntegrals, Control,
    Dispersion, EriType, GridPlan, InitialGuess, IsdfPlan, IsdfStep, Molecule, SCFType, SCF,
};

fn num(x: f64) -> Real {
    Real::from_bits(x.to_bits())
}

fn molecule() -> Molecule {
    Molecule {
        num_alpha: num(5.0),
        num_beta: num(5.0),
        spin_channel: 1,
        num_basis: 100,
        num_auxbas: 300,
        num_state: 100,
        start_mo: 0,
        use_eri: true,
        ghost_potentials: 0,
        external_field: false,
        point_charges: 0,
        is_rsh: false,
        is_dfa_scf: false,
        components: 0,
        has_dispersion: false,
    }
}

fn control() -> Control {
    Control {
        spin_polarization: false,
        algorithm_jk: AlgorithmJK::Default,
        eri_type: EriType::from_keyword(&"ri_v".to_string()),
        use_auxbas: true,
        use_ri_symm: true,
        use_dm_only: false,
        use_isdf: false,
        isdf_k_only: false,
        isdf_new: false,
        ri_k_only: false,
        sfx2c: false,
        empirical_dispersion: false,
        initial_guess: InitialGuess::from_keyword(&"sad".to_string()),
        ao_cutoff: num(0.0),
        drop_dense_ao: false,
        smearing: None,
        start_diis_cycle: 3,
        solvent_enabled: false,
        deep_learning: false,
        quasiparticle_methods: false,
        bse_auxbas: false,
        scf_conv_criteria: ConvergenceCriteria::Density,
        thresholds: ScfThresholds {
            energy: num(1.0e-6),
            eigenvalues: num(1.0e-3),
            density: num(1.0e-4),
            gradient: num(1.0e-5),
        },
        max_scf_cycle: 50,
    }
}

fn with(ctrl: Control, mol: Molecule, algorithm: AlgorithmJK) -> SCF {
    let mut scf = SCF::init_scf(mol, ctrl);
    scf.algorithm_jk = algorithm;
    scf
}

fn kind(alpha: f64, beta: f64, spin_polarization: bool, spin_channel: usize) -> (SCFType, usize) {
    let mol =
        Molecule { num_alpha: num(alpha), num_beta: num(beta), spin_channel, ..molecule() };
    let scf = SCF::init_scf(mol, Control { spin_polarization, ..control() });
    (scf.scftype, scf.mol.spin_channel)
}

#[test]
fn type_of_calculation() {
    assert_eq!(kind(5.0, 5.0, false, 1), (SCFType::RHF, 1));
    assert_eq!(kind(5.0, 4.0, false, 1), (SCFType::ROHF, 2));
    assert_eq!(kind(5.0, 5.0, true, 2), (SCFType::UHF, 2));
    assert_eq!(kind(5.0, 4.0, true, 2), (SCFType::UHF, 2));
    assert_eq!(kind(0.0, -0.0, false, 1), (SCFType::RHF, 1));
}

fn resolved(a: AlgorithmJK, available: i128) -> AlgorithmJK {
    let mut scf = SCF::init_scf(molecule(), Control { algorithm_jk: a, ..control() });
    scf.update_jk_algorithms(available);
    scf.algorithm_jk
}

#[test]
fn algorithms_follow_the_memory() {
    let need = 8 * 100 * 100 * 300;
    assert_eq!(ri_memory_bytes(100, 300, false), need as u128);
    assert_eq!(ri_memory_bytes(100, 300, true), 2 * need as u128);
    assert_eq!(ri_memory_bytes(100, 0, true), 0);
    assert_eq!(resolved(AlgorithmJK::Default, need), AlgorithmJK::RiIncore);
    assert_eq!(resolved(AlgorithmJK::Default, need - 1), AlgorithmJK::RiDirect);
    assert_eq!(resolved(AlgorithmJK::Ri, -5), AlgorithmJK::RiDirect);
    assert_eq!(resolved(AlgorithmJK::RiIncore, 0), AlgorithmJK::RiIncore);
    assert_eq!(resolved(AlgorithmJK::Other, 0), AlgorithmJK::Other);
    assert_eq!(
        resolved(AlgorithmJK::Separated(AlgorithmJ::Default, AlgorithmK::RiIncore), 0),
        AlgorithmJK::Separated(AlgorithmJ::RiDirect, AlgorithmK::RiIncore)
    );
    assert_eq!(
        resolved(AlgorithmJK::Separated(AlgorithmJ::Other, AlgorithmK::Ri), need),
        AlgorithmJK::Separated(AlgorithmJ::Other, AlgorithmK::RiIncore)
    );
}

#[test]
fn resolving_twice_changes_nothing() {
    let js = [AlgorithmJ::Default, AlgorithmJ::Ri, AlgorithmJ::RiDirect, AlgorithmJ::Other];
    let ks = [AlgorithmK::Default, AlgorithmK::Ri, AlgorithmK::RiIncore, AlgorithmK::Other];
    for j in js {
        for k in ks {
            let once = resolved(AlgorithmJK::Separated(j, k), 1 << 40);
            assert_eq!(resolved(once, 0), once);
        }
    }
}

#[test]
fn integrals_to_prepare() {
    let incore = AlgorithmJK::RiIncore;
    let p = with(control(), molecule(), incore).prepare_necessary_integrals();
    assert!(p.rimatr && !p.ri3fn && !p.ijkl && !p.rimatr_sr && !p.ri3fn_sr);
    assert_eq!(p.dispersion, Dispersion::Nothing);
    let p = with(
        Control { use_ri_symm: false, empirical_dispersion: true, ..control() },
        Molecule { is_rsh: true, has_dispersion: true, ..molecule() },
        incore,
    )
    .prepare_necessary_integrals();
    assert!(p.ri3fn && !p.rimatr && p.ri3fn_sr && !p.rimatr_sr);
    assert_eq!(p.dispersion, Dispersion::Functional);
    let p = with(
        Control { empirical_dispersion: true, ..control() },
        Molecule { is_rsh: true, point_charges: 2, ..molecule() },
        AlgorithmJK::RiDirect,
    )
    .prepare_necessary_integrals();
    assert!(!p.ri3fn && !p.rimatr && !p.rimatr_sr && p.point_charges);
    assert_eq!(p.dispersion, Dispersion::Requested);
    let p = with(Control { use_isdf: true, isdf_k_only: true, ..control() }, molecule(), incore)
        .prepare_necessary_integrals();
    assert!(p.ri3fn && !p.rimatr);
    let p = with(Control { use_auxbas: false, ..control() }, molecule(), incore)
        .prepare_necessary_integrals();
    assert!(p.ijkl && !p.rimatr && !p.ri3fn);
    let mut scf = with(control(), molecule(), incore);
    scf.take_usable_states(100, 100);
    assert_eq!(scf.mol.num_state, 100);
    scf.take_usable_states(98, 100);
    assert_eq!(scf.mol.num_state, 98);
}

#[test]
fn further_preparations() {
    let bse = |quasiparticle_methods, bse_auxbas, use_ri_symm| {
        let c = Control { quasiparticle_methods, bse_auxbas, use_ri_symm, ..control() };
        SCF::init_scf(molecule(), c).prepare_bse_integrals()
    };
    assert_eq!(bse(false, true, true), BseIntegrals::Nothing);
    assert_eq!(bse(true, false, true), BseIntegrals::Nothing);
    assert_eq!(bse(true, true, true), BseIntegrals::Rimatr);
    assert_eq!(bse(true, true, false), BseIntegrals::Ri3fn);
    let grids = |is_dfa_scf, guess: &str, cutoff| {
        let c = Control {
            initial_guess: InitialGuess::from_keyword(&guess.to_string()),
            ao_cutoff: num(cutoff),
            ..control()
        };
        SCF::init_scf(Molecule { is_dfa_scf, ..molecule() }, c).prepare_density_grids()
    };
    assert_eq!(grids(false, "sad", 1.0), GridPlan::Nothing);
    assert_eq!(grids(false, "vsap", 0.0), GridPlan::Dense);
    assert_eq!(grids(true, "sad", 1.0e-8), GridPlan::Sparse);
    let isdf = |eri_type, isdf_new| {
        let c =
            Control { eri_type, isdf_new, use_isdf: true, use_ri_symm: false, ..control() };
        SCF::init_scf(molecule(), c).prepare_isdf()
    };
    assert_eq!(isdf(EriType::Analytic, false), None);
    assert_eq!(isdf(EriType::RiV, false), Some(IsdfPlan { both_channels: false, ri3fn_isdf: true, tables: false }));
    assert_eq!(isdf(EriType::RiV, true), Some(IsdfPlan { both_channels: false, ri3fn_isdf: false, tables: true }));
}

fn typed(ctrl: Control, algorithm: AlgorithmJK, scftype: SCFType) -> SCF {
    let mut scf = with(ctrl, molecule(), algorithm);
    scf.scftype = scftype;
    scf
}

#[test]
fn kernels_of_hartree_fock() {
    let p = typed(control(), AlgorithmJK::RiIncore, SCFType::RHF).generate_hf_hamiltonian_ri_v();
    assert_eq!(p.coulomb, CoulombKernel::Rimatr);
    assert_eq!(p.exchange, ExchangeKernel::RimatrOrbitals);
    assert!(!p.roothaan);
    let mixed = AlgorithmJK::Separated(AlgorithmJ::RiDirect, AlgorithmK::RiIncore);
    let c = Control { use_ri_symm: false, use_dm_only: true, ..control() };
    let p = typed(c, mixed, SCFType::ROHF).generate_hf_hamiltonian_ri_v();
    assert_eq!(p.coulomb, CoulombKernel::Direct);
    assert_eq!(p.exchange, ExchangeKernel::Ri3fnDensity);
    assert!(p.roothaan);
    let c = Control { isdf_new: true, use_isdf: true, ..control() };
    let p = typed(c, AlgorithmJK::Other, SCFType::UHF).generate_hf_hamiltonian_ri_v();
    assert_eq!((p.coulomb, p.exchange), (CoulombKernel::Direct, ExchangeKernel::IsdfTables));
    let c = Control { use_ri_symm: false, use_isdf: true, ..control() };
    let scf = typed(c, AlgorithmJK::RiIncore, SCFType::RHF);
    assert_eq!(scf.generate_vj_with_ri_v_sync(), CoulombKernel::Ri3fnIsdf);
    assert_eq!(scf.generate_vk_with_isdf(), ExchangeKernel::IsdfOrbitals);
    let e = scf.evaluate_exact_exchange_ri_v();
    assert_eq!((e.kernel, e.channels, e.half), (ExchangeKernel::IsdfOrbitals, 1, true));
    let scf = typed(control(), AlgorithmJK::RiDirect, SCFType::RHF);
    let p = scf.generate_hf_hamiltonian_ri_v_dm_only();
    assert_eq!((p.coulomb, p.exchange), (CoulombKernel::Rimatr, ExchangeKernel::RimatrDensity));
    let p = scf.generate_hf_hamiltonian_erifold4();
    assert_eq!((p.coulomb, p.exchange), (CoulombKernel::Analytic, ExchangeKernel::Analytic));
    assert!(p.half);
    assert!(half_exchange(SCFType::RHF) && !half_exchange(SCFType::ROHF));
}

#[test]
fn level_shifts_of_each_type() {
    let scf = typed(control(), AlgorithmJK::RiDirect, SCFType::RHF);
    assert_eq!(scf.level_shifts(), (vec![ShiftTarget::Channel(0)], true));
    let scf = typed(control(), AlgorithmJK::RiDirect, SCFType::ROHF);
    assert_eq!(scf.level_shifts(), (vec![ShiftTarget::Effective], true));
    let mut scf = typed(control(), AlgorithmJK::RiDirect, SCFType::UHF);
    scf.mol.spin_channel = 2;
    assert_eq!(
        scf.level_shifts(),
        (vec![ShiftTarget::Channel(0), ShiftTarget::Channel(1)], false)
    );
}

/// An exchange term of a closed shell.
fn exchange(part: ExchangePart, kernel: ExchangeKernel) -> ExchangeTerm {
    let (fraction, negative) = match part {
        ExchangePart::Plain => (ExchangeFraction::Hybrid, true),
        ExchangePart::Full => (ExchangeFraction::Alpha, true),
        ExchangePart::ShortRange => (ExchangeFraction::AlphaLessHybrid, false),
    };
    ExchangeTerm { part, factor: ExchangeFactor { fraction, negative, half: true }, kernel }
}

fn ks_input(scaling: ExchangeScaling) -> KsInput {
    KsInput { scaling, rimatr_sr: true, ri3fn_sr: false, solvent_potential: true }
}

fn ks(algorithm: AlgorithmJK) -> SCF {
    with(
        Control { solvent_enabled: true, ..control() },
        Molecule { components: 2, ..molecule() },
        algorithm,
    )
}

#[test]
fn full_exchange_is_needed() {
    let global = |x| is_full_exchange_needed(ExchangeScaling::Global(num(x)));
    assert!(global(-0.5) && !global(0.0) && !global(-0.0));
    let full = |x| {
        is_full_exchange_needed(ExchangeScaling::Separated { full: num(x), short: num(1.0) })
    };
    assert!(full(-1.1e-10) && !full(1.0e-10));
}

#[test]
fn parts_of_kohn_sham() {
    let p = ks(AlgorithmJK::Separated(AlgorithmJ::RiDirect, AlgorithmK::Other))
        .generate_ks_hamiltonian_ri_v(ks_input(ExchangeScaling::Global(num(-0.0))));
    assert_eq!(p.coulomb, CoulombKernel::Direct);
    assert!(p.exchange.is_empty());
    assert_eq!(p.xc, XcKernel::Orbitals);
    assert!(p.solvent);
    let p = ks(AlgorithmJK::RiIncore)
        .generate_ks_hamiltonian_ri_v(ks_input(ExchangeScaling::Global(num(-0.1))));
    assert_eq!(
        p.exchange,
        vec![exchange(ExchangePart::Plain, ExchangeKernel::RimatrOrbitals)]
    );
    let both = ExchangeScaling::Separated { full: num(-1.0), short: num(0.8) };
    let p = ks(AlgorithmJK::RiIncore).generate_ks_hamiltonian_ri_v(ks_input(both));
    assert_eq!(
        p.exchange,
        vec![
            exchange(ExchangePart::Full, ExchangeKernel::RimatrOrbitals),
            exchange(ExchangePart::ShortRange, ExchangeKernel::ShortRimatr),
        ]
    );
    let short = ExchangeScaling::Separated { full: num(1.0e-10), short: num(0.8) };
    let p = ks(AlgorithmJK::RiDirect).generate_ks_hamiltonian_ri_v(ks_input(short));
    assert_eq!(
        p.exchange,
        vec![exchange(ExchangePart::ShortRange, ExchangeKernel::ShortDirect)]
    );
    let p = with(control(), molecule(), AlgorithmJK::RiIncore)
        .generate_ks_hamiltonian_ri_v(KsInput { rimatr_sr: false, ..ks_input(short) });
    assert!(p.exchange.is_empty() && !p.solvent);
    assert_eq!(p.xc, XcKernel::Nothing);
    let mut scf = ks(AlgorithmJK::Other);
    scf.scftype = SCFType::ROHF;
    let p = scf.generate_ks_hamiltonian_erifold4(num(0.25));
    assert_eq!(p.exchange.len(), 1);
    assert!(!p.exchange[0].factor.half && p.exchange[0].factor.negative);
    assert!(p.roothaan);
    assert!(scf.generate_ks_hamiltonian_erifold4(num(0.0)).exchange.is_empty());
}

#[test]
fn routes_to_the_fock_matrix() {
    let scf = |components, eri_type| {
        SCF::init_scf(
            Molecule { components, ..molecule() },
            Control { eri_type, ..control() },
        )
    };
    let route = |c, e| scf(c, e).generate_hf_hamiltonian(false, false).route;
    let guess = |c, e| scf(c, e).generate_hf_hamiltonian_for_guess();
    assert_eq!(route(0, EriType::Analytic), FockRoute::HfAnalytic);
    assert_eq!(route(0, EriType::RiV), FockRoute::HfRi);
    assert_eq!(route(0, EriType::Other), FockRoute::Nothing);
    assert_eq!(route(1, EriType::Analytic), FockRoute::KsAnalytic);
    assert_eq!(route(1, EriType::Other), FockRoute::KsRi);
    assert_eq!(guess(1, EriType::RiV), FockRoute::KsRiDensity);
    assert_eq!(guess(0, EriType::RiV), FockRoute::HfRiDensity);
    assert_eq!(guess(1, EriType::Other), FockRoute::Nothing);
}

#[test]
fn batches_of_direct_kernels() {
    assert_eq!(smallest_batch(8), 16);
    assert_eq!(generate_vj_ri_direct(10, 16, None), 16);
    assert_eq!(generate_vj_ri_direct(40, 16, None), 40);
    assert_eq!(generate_vj_ri_direct(40, 16, Some(3)), 16);
    assert_eq!(generate_vj_ri_direct(40, 16, Some(20)), 20);
    assert_eq!(generate_vk_ri_direct(false, 16, 99, 16, None), (true, 16));
    assert_eq!(generate_vk_ri_direct(false, 15, 99, 16, None), (false, 99));
    assert_eq!(generate_vk_ri_direct(true, 50, 9, 16, None), (false, 16));
    let occupation: Vec<Real> =
        [2.0, 1.0, f64::EPSILON, 1.0e-15, 0.0, 0.3].iter().map(|x| num(*x)).collect();
    assert_eq!(count_occupied(&occupation), 4);
}

#[test]
fn reports() {
    let scf = |scftype, spin_channel| {
        let mut scf = typed(control(), AlgorithmJK::RiDirect, scftype);
        scf.mol.spin_channel = spin_channel;
        scf
    };
    let mut rhf = scf(SCFType::RHF, 1);
    (rhf.homo, rhf.lumo) = ([4, 0], [5, 0]);
    let ten = [10.0, 5.0, 5.0].map(num);
    assert_eq!(rhf.print_homo_lumo_gap(0, &ten, 5, false), GapLine::NoVirtual { homo: 4 });
    assert_eq!(
        rhf.print_homo_lumo_gap(0, &ten, 6, false),
        GapLine::Gap { homo: 4, lumo: 5, eigenvalues: 0 }
    );
    let mut rohf = scf(SCFType::ROHF, 2);
    (rohf.homo, rohf.lumo) = ([4, 3], [5, 4]);
    let nine = [9.0, 5.0, 4.0].map(num);
    assert_eq!(
        rohf.print_homo_lumo_gap(1, &nine, 9, false),
        GapLine::Gap { homo: 3, lumo: 4, eigenvalues: 0 }
    );
    let mut uhf = scf(SCFType::UHF, 2);
    (uhf.homo, uhf.lumo) = ([6, 6], [7, 7]);
    assert_eq!(
        uhf.print_homo_lumo_gap(1, &nine, 9, false),
        GapLine::Gap { homo: 6, lumo: 7, eigenvalues: 1 }
    );
    assert_eq!(
        uhf.print_homo_lumo_gap(1, &nine, 9, true),
        GapLine::Gap { homo: 3, lumo: 4, eigenvalues: 1 }
    );
    let one = [1.0, 1.0, 1.0e-5].map(num);
    assert_eq!(uhf.print_homo_lumo_gap(1, &one, 9, false), GapLine::NoElectron);
    let one = [1.0, 1.0, 1.1e-5].map(num);
    assert!(uhf.print_homo_lumo_gap(1, &one, 9, false) != GapLine::NoElectron);
    assert_eq!(scf(SCFType::RHF, 1).formated_eigenvalues(4, 7, 9), 7);
    assert_eq!(scf(SCFType::UHF, 2).formated_eigenvalues(4, 7, 9), 0);
    assert_eq!(scf(SCFType::ROHF, 2).formated_eigenvalues(4, 7, 9), 4);
    assert_eq!(scf(SCFType::UHF, 2).formated_eigenvalues(9, 9, 5), 5);
    assert_eq!(scf(SCFType::ROHF, 2).formated_eigenvectors(), 1);
    assert_eq!(scf(SCFType::UHF, 2).formated_eigenvectors(), 2);
}

#[test]
fn a_calculation_is_built() {
    let c = Control { use_isdf: true, use_ri_symm: false, solvent_enabled: true, ..control() };
    let bytes = 8 * 100 * 100 * 300;
    let (scf, p) = SCF::build(molecule(), c, bytes);
    assert_eq!(scf.algorithm_jk, AlgorithmJK::RiIncore);
    assert_eq!(scf.scftype, SCFType::RHF);
    assert_eq!(p.integrals, scf.prepare_necessary_integrals());
    assert!(!p.integrals.ri3fn && !p.integrals.rimatr);
    assert_eq!(p.grids, GridPlan::Dense);
    assert!(p.solvent);
    assert_eq!(p.isdf, Some(IsdfPlan { both_channels: false, ri3fn_isdf: true, tables: false }));
    let mut scf = SCF::init_scf(molecule(), control());
    let p = initialize_scf(&mut scf, bytes - 1);
    assert_eq!(scf.algorithm_jk, AlgorithmJK::RiDirect);
    assert_eq!(p.grids, GridPlan::Nothing);
    assert!(!p.integrals.rimatr && !p.solvent && p.isdf.is_none());
}

#[test]
fn contributions_to_the_energy() {
    let nuclear = EnergyTerm::Nuclear;
    let rhf = typed(control(), AlgorithmJK::RiDirect, SCFType::RHF);
    let closed = EnergyTerm::Contraction(EnergyDensity::Channel(0), EnergyOperator::CoreAndFock);
    assert_eq!(rhf.evaluate_hf_total_energy(), vec![nuclear, closed]);
    let uhf = typed(control(), AlgorithmJK::RiDirect, SCFType::UHF);
    let open = [
        EnergyTerm::Contraction(EnergyDensity::Total, EnergyOperator::Core),
        EnergyTerm::Contraction(EnergyDensity::Channel(0), EnergyOperator::Fock(0)),
        EnergyTerm::Contraction(EnergyDensity::Channel(1), EnergyOperator::Fock(1)),
    ];
    assert_eq!(uhf.evaluate_hf_total_energy(), vec![nuclear, open[0], open[1], open[2]]);
    let (minus, plus) = (EnergyTerm::XcPotential, EnergyTerm::XcEnergy);
    let p = rhf.generate_hf_hamiltonian(true, true);
    assert_eq!(p.energy, vec![nuclear, minus, plus, closed]);
    assert!(!p.new_parameters);
    let c = Control { solvent_enabled: true, deep_learning: true, ..control() };
    let scf = typed(c, AlgorithmJK::RiDirect, SCFType::RHF);
    let p = scf.generate_hf_hamiltonian(true, true);
    let (charges, tension) = (EnergyTerm::SolventNuclear, EnergyTerm::SurfaceTension);
    assert_eq!(p.energy, vec![nuclear, minus, plus, charges, tension, closed]);
    assert!(p.new_parameters);
    let p = scf.generate_hf_hamiltonian(false, true);
    assert_eq!(p.energy, vec![nuclear, minus, plus, tension, closed]);
}

#[test]
fn components_of_the_energy() {
    let mut scf = with(
        control(),
        Molecule { components: 2, spin_channel: 2, ..molecule() },
        AlgorithmJK::RiDirect,
    );
    let p = scf.evaluate_energy_components(true);
    let (e, order) = (p.exchange, p.order);
    assert_eq!(p.functional, FunctionalSource::Grid);
    assert_eq!((e.kernel, e.channels, e.half), (ExchangeKernel::Direct, 2, false));
    assert_eq!(
        order,
        vec![
            EnergyComponent::WithoutXc,
            EnergyComponent::ExactExchange,
            EnergyComponent::Functional(0),
            EnergyComponent::Functional(1),
        ]
    );
    scf.mol.components = 0;
    let p = scf.evaluate_energy_components(false);
    assert_eq!((p.order.len(), p.functional), (2, FunctionalSource::Zero));
}

#[test]
fn packed_contraction_is_the_full_one() {
    assert_eq!(SCF::par_energy_contraction(4), vec![0, 2, 5, 9]);
    assert!(SCF::par_energy_contraction(0).is_empty());
    let n = 5;
    let a: Vec<i64> = (0..15).map(|k| k * k - 20).collect();
    let b: Vec<i64> = (0..15).map(|k| 7 - 3 * k).collect();
    let mut full = 0;
    for j in 0..n {
        for i in 0..n {
            let k = ij0(i, j);
            full += a[k] * b[k];
        }
    }
    let twice: i64 = 2 * (0..15).map(|k| a[k] * b[k]).sum::<i64>();
    let diagonal: i64 = SCF::par_energy_contraction(n).iter().map(|&k| a[k] * b[k]).sum();
    assert_eq!(full, twice - diagonal);
    let w = density_weights(n);
    assert_eq!(w[..6], [1, 2, 1, 2, 2, 1]);
    assert_eq!(full, (0..15).map(|k| w[k] as i64 * a[k] * b[k]).sum::<i64>());
}

#[test]
fn effective_fock_matrix_of_an_open_shell() {
    let spaces = [Space::Closed, Space::Open, Space::Virtual];
    let between = |l: usize, r: usize| match (l, r) {
        (0, 1) | (1, 0) => SpinFock::Beta,
        (1, 2) | (2, 1) => SpinFock::Alpha,
        _ => SpinFock::Mean,
    };
    let terms = SCF::generate_roothaan_fock();
    assert_eq!(terms.len(), 6);
    for l in 0..3 {
        for r in 0..3 {
            for f in [SpinFock::Alpha, SpinFock::Beta, SpinFock::Mean] {
                let weight: usize = terms
                    .iter()
                    .filter(|t| t.fock == f)
                    .map(|t| {
                        let w = if t.half { 1 } else { 2 };
                        let direct = t.left == spaces[l] && t.right == spaces[r];
                        let mirrored = t.left == spaces[r] && t.right == spaces[l];
                        w * (direct as usize + mirrored as usize)
                    })
                    .sum();
                assert_eq!(weight, if f == between(l, r) { 2 } else { 0 });
            }
        }
    }
    let parts = spaces.map(projector_parts);
    assert_eq!(parts[1], (0, 1, -1));
    assert_eq!(parts.iter().map(|p| p.0).sum::<i8>(), 1);
    assert_eq!(parts.iter().map(|p| p.1).sum::<i8>(), 0);
    assert_eq!(parts.iter().map(|p| p.2).sum::<i8>(), 0);
}

#[test]
fn fitting_starts_from_the_core() {
    let both = IsdfPlan { both_channels: true, ri3fn_isdf: true, tables: false };
    let guess = vec![
        IsdfStep::CoreFock { both: true },
        IsdfStep::Diagonalize,
        IsdfStep::Occupy,
        IsdfStep::BuildDensity,
        IsdfStep::PruneGrid,
    ];
    let steps = isdf_steps(both);
    assert_eq!(steps[..5], guess[..]);
    assert_eq!(steps[5..], [IsdfStep::FitIntegrals]);
    let one = IsdfPlan { both_channels: false, ri3fn_isdf: false, tables: true };
    let steps = isdf_steps(one);
    assert_eq!((steps[0], steps[5]), (IsdfStep::CoreFock { both: false }, IsdfStep::Tabulate));
    let c = Control { use_isdf: true, ..control() };
    let m = Molecule { spin_channel: 2, ..molecule() };
    assert!(SCF::init_scf(m, c).prepare_isdf().unwrap().both_channels);
}

#[test]
fn dense_tables_are_dropped() {
    let m = Molecule { is_dfa_scf: true, ..molecule() };
    let drop = Control { drop_dense_ao: true, ..control() };
    assert!(SCF::init_scf(m, drop).drops_dense_tables(true));
    assert!(!SCF::init_scf(m, drop).drops_dense_tables(false));
    assert!(!SCF::init_scf(m, control()).drops_dense_tables(true));
    assert!(!SCF::init_scf(molecule(), drop).drops_dense_tables(true));
}
