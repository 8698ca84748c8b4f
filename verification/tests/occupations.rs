use rest_scf::binary64::Real;
use rest_scf::counts::rounded_count;
use rest_scf::scf_io::driver::{ConvergenceCriteria, ScfThresholds};
use rest_scf::scf_io::setup::{
    AlgorithmJK, Control, EriType, InitialGuess, Molecule, SCFType, SCF,
};
use rest_scf::scf_io::smear::{
    apply_smearing, fermi_entropy, fermi_occ, find_mu, smearing_plan, Bisection, FermiRegion,
    PotentialSearch, SmearingPlan, BISECTION_STEPS,
};
use rest_scf::scf_io::util::{
    exchange_orbitals, holds_electrons, integer_homo_lumo, is_aufbau, occupied_orbital_count,
    occupied_orbital_count_with_threshold, ORB_OCCUPATION_THRESHOLD,
};

fn calculation(scftype: SCFType, spin_channel: usize) -> SCF {
    let zero = Real::from_bits(0);
    let mol = Molecule {
        num_alpha: zero,
        num_beta: zero,
        spin_channel,
        num_basis: 20,
        num_auxbas: 60,
        num_state: 20,
        start_mo: 1,
        use_eri: true,
        ghost_potentials: 0,
        external_field: false,
        point_charges: 0,
        is_rsh: false,
        is_dfa_scf: false,
        components: 0,
        has_dispersion: false,
    };
    let ctrl = Control {
        spin_polarization: true,
        algorithm_jk: AlgorithmJK::Default,
        eri_type: EriType::RiV,
        use_auxbas: true,
        use_ri_symm: true,
        use_dm_only: false,
        use_isdf: false,
        isdf_k_only: false,
        isdf_new: false,
        ri_k_only: false,
        sfx2c: false,
        empirical_dispersion: false,
        initial_guess: InitialGuess::Other,
        ao_cutoff: zero,
        drop_dense_ao: false,
        smearing: None,
        start_diis_cycle: 3,
        solvent_enabled: false,
        deep_learning: false,
        quasiparticle_methods: false,
        bse_auxbas: false,
        scf_conv_criteria: ConvergenceCriteria::Density,
        thresholds: ScfThresholds {
            energy: zero,
            eigenvalues: zero,
            density: zero,
            gradient: zero,
        },
        max_scf_cycle: 50,
    };
    let mut scf = SCF::init_scf(mol, ctrl);
    scf.scftype = scftype;
    scf
}

fn reals(v: &[f64]) -> Vec<Real> {
    v.iter().map(|x| Real::from_bits(x.to_bits())).collect()
}

fn num(x: f64) -> Real {
    Real::from_bits(x.to_bits())
}

fn aufbau(occupation: &[f64]) -> bool {
    let raised: Vec<f64> = occupation.iter().map(|x| x + 1.0e-6).collect();
    is_aufbau(&reals(&raised), &reals(occupation))
}

#[test]
fn test_occupied_orbital_count_sparse() {
    let occupation = [1.0, 0.0, 0.5, 0.5, 0.0];
    assert_eq!(occupied_orbital_count(&reals(&occupation)), 4);
}

#[test]
fn test_occupied_orbital_count_threshold() {
    let occupation = [1.0, 0.0, 9.0e-7, 1.0e-6, 2.0e-6];
    assert_eq!(occupied_orbital_count_with_threshold(&reals(&occupation), num(1.0e-6)), 5);
    assert_eq!(occupied_orbital_count_with_threshold(&reals(&occupation), num(2.0e-6)), 1);
}

#[test]
fn test_is_aufbau() {
    assert!(aufbau(&[1.0, 1.0, 0.5, 0.0]));
    assert!(!aufbau(&[1.0, 0.5, 0.6, 0.0]));
}

#[test]
fn aufbau_of_short_lists() {
    assert!(aufbau(&[]));
    assert!(aufbau(&[0.3]));
    assert!(!aufbau(&[0.0, 1.0]));
}

#[test]
fn occupation_threshold_is_one_millionth() {
    assert_eq!(f64::from_bits(ORB_OCCUPATION_THRESHOLD), 1.0e-6);
    assert_eq!(occupied_orbital_count(&reals(&[1.0e-6])), 0);
    assert_eq!(occupied_orbital_count(&reals(&[])), 0);
    assert_eq!(occupied_orbital_count(&reals(&[0.0, f64::NAN])), 0);
}

#[test]
fn higher_threshold_counts_no_more() {
    let occupation = reals(&[1.0, 0.9, 0.4, 0.2, 0.1]);
    let mut last = usize::MAX;
    for t in [0.0, 0.15, 0.3, 0.5, 0.95, 1.0] {
        let n = occupied_orbital_count_with_threshold(&occupation, num(t));
        assert!(n <= last);
        last = n;
    }
    assert_eq!(last, 0);
}

#[test]
fn frontier_orbitals_of_integer_occupations() {
    let electrons = |a: f64, b: f64, c: f64| [num(a), num(b), num(c)];
    assert_eq!(integer_homo_lumo(&electrons(10.0, 9.0, 9.0), 1), ([4, 0], [5, 0]));
    assert_eq!(integer_homo_lumo(&electrons(9.0, 5.0, 4.0), 2), ([4, 3], [5, 4]));
    assert_eq!(integer_homo_lumo(&electrons(1.0, 1.0, 0.0), 2), ([0, 0], [1, 0]));
    assert_eq!(integer_homo_lumo(&electrons(11.0, 0.0, 0.0), 1), ([5, 0], [6, 0]));
    assert_eq!(integer_homo_lumo(&electrons(0.0, 4.5, 4.4999), 2), ([4, 3], [5, 4]));
}

#[test]
fn counts_are_rounded_like_by_the_hardware() {
    let values = [
        0.0,
        -0.0,
        0.25,
        0.49999999999999994,
        0.5,
        0.9,
        1.0,
        1.4999999999999998,
        1.5,
        2.5,
        7.0,
        123456.5,
        4503599627370495.5,
        4503599627370497.0,
        9007199254740993.0,
        1.0e17,
        1.8e19,
        1.0e300,
        5e-324,
        1.0e-308,
        -3.7,
        f64::INFINITY,
        f64::NEG_INFINITY,
        f64::NAN,
    ];
    for x in values {
        assert_eq!(rounded_count(num(x), false), x.round() as usize);
        assert_eq!(rounded_count(num(x), true), (x / 2.0).round() as usize);
    }
}

#[test]
fn channels_without_electrons() {
    let occupation = reals(&[1.0, 0.5]);
    for x in [0.0, -1.0, 1.0e-9, 0.5, 3.0] {
        let n = if f64::ceil(x) as usize == 0 { 0 } else { 2 };
        assert_eq!(exchange_orbitals(num(x), &occupation), n);
        assert_eq!(holds_electrons(num(x)), n > 0);
    }
}

#[test]
fn smearing_of_each_type() {
    let mut rhf = calculation(SCFType::RHF, 1);
    let mut uhf = calculation(SCFType::UHF, 2);
    assert_eq!(smearing_plan(&rhf), SmearingPlan { channels: 1, doubled: true });
    assert_eq!(smearing_plan(&uhf), SmearingPlan { channels: 2, doubled: false });
    let occupation = [reals(&[1.0, 0.7, 0.2, 1.0e-9]), reals(&[0.0, 0.0])];
    rhf.homo = [9, 8];
    rhf.lumo = [7, 6];
    apply_smearing(&mut rhf, &occupation);
    assert_eq!((rhf.homo, rhf.lumo), ([2, 8], [3, 6]));
    apply_smearing(&mut uhf, &occupation);
    assert_eq!((uhf.homo, uhf.lumo), ([2, 0], [3, 0]));
}

#[test]
fn chemical_potential_by_bisection() {
    assert_eq!(find_mu(num(0.0), num(4.0)), PotentialSearch::Below(1));
    assert_eq!(find_mu(num(4.0), num(4.0)), PotentialSearch::Above(1));
    assert_eq!(find_mu(num(2.5), num(4.0)), PotentialSearch::Bisect { widths: 20 });

    let wanted = 0.7;
    let mut b = Bisection { lo: num(0.0), hi: num(1.0), steps: 0 };
    let mut answer = None;
    while answer.is_none() && b.goes_on() {
        let mid = (f64::from_bits(b.lo.to_bits()) + f64::from_bits(b.hi.to_bits())) / 2.0;
        answer = b.step(num(mid), num(mid), num(wanted), num(mid - wanted));
        assert!(f64::from_bits(b.lo.to_bits()) <= wanted);
        assert!(f64::from_bits(b.hi.to_bits()) >= wanted);
    }
    let mu = f64::from_bits(answer.unwrap().to_bits());
    assert!((mu - wanted).abs() < 1.0e-12);
    assert!(b.steps < BISECTION_STEPS);
}

#[test]
fn filling_around_the_chemical_potential() {
    let r = fermi_occ(&[41.0, 40.0, 0.0, -40.0, -40.5, f64::NAN].map(num).to_vec());
    assert_eq!(
        r,
        vec![
            FermiRegion::Empty,
            FermiRegion::Partial,
            FermiRegion::Partial,
            FermiRegion::Partial,
            FermiRegion::Full,
            FermiRegion::Partial,
        ]
    );
    let mixed = [0.0, 1.0, 0.5, 1.0e-300, 1.5, f64::NAN].map(num).to_vec();
    assert_eq!(fermi_entropy(&mixed), vec![2, 3]);
}
