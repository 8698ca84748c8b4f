use rand::rngs::StdRng;
use rand::SeedableRng;
use rest_scf::binary64::Real;
use rest_scf::solvent::exchange::{
    apply_pivots, last_singular, shuffle, shuffle_with, undo_pivots, SINGULAR_THRESHOLD,
};
use rest_scf::solvent::grad::{
    compute_solvent_gradient, compute_solver_aux, element3, get_K_R_f, get_dF_dA, grad_solvent_qv,
    grad_solvent_solver, grad_stats, solver_operands, switch_derivative_counts, switch_distance,
    vec_stats, AuxVector, ChargeEquation, Derivative, GradientPart, Operand, SolverFactor,
    SolverPart, SwitchDistance,
    SwitchResponse,
};
use rest_scf::solvent::method::{
    is_water_descriptor, water_descriptors, PcmMethod, PcmObjectCfg, SurfaceSwitchType,
};
use rest_scf::solvent::potential::{get_pcm_refresh, is_negligible};
use rest_scf::solvent::prepare::{solvent_prepare, SolventError, SolventInput};
use rest_scf::solvent::surface_utils::{
    bool_select, grad_switch_h, kept_points, smd_radii, switch_h, switch_matrix,
    switch_polynomial, AtomSphere, BaseRadius, PowerTerm, RadiusScheme, RadiusSources, SmdCavityRadii, SmdRadius, SurfaceVdwGaussian, SurfaceVdwGaussianCfg,
    SwitchRegion,
};

fn num(x: f64) -> Real {
    Real::from_bits(x.to_bits())
}

fn oxygen(slope: u32) -> SmdRadius {
    SmdRadius::Oxygen { base: 152, slope, acidity: num(0.43) }
}

fn nums(v: &[f64]) -> Vec<Real> {
    v.iter().map(|x| num(*x)).collect()
}

fn value(x: Real) -> f64 {
    f64::from_bits(x.to_bits())
}

#[test]
fn models_by_keyword() {
    assert_eq!(PcmMethod::parse("cpcm"), Ok(PcmMethod::CPCM));
    assert_eq!(PcmMethod::parse("Cosmo"), Ok(PcmMethod::COSMO));
    assert_eq!(PcmMethod::parse("IEFPCM"), Ok(PcmMethod::IEFPCM));
    assert_eq!(PcmMethod::parse("ssvpe"), Ok(PcmMethod::SSVPE));
    assert_eq!(PcmMethod::parse("ss(v)pe"), Ok(PcmMethod::SSVPE));
    assert_eq!(PcmMethod::parse("smd"), Ok(PcmMethod::SMD));
    assert_eq!(PcmMethod::parse("gas"), Err("Unknown PCM method: gas".to_string()));
    assert_eq!(PcmMethod::default(), PcmMethod::CPCM);
}

#[test]
fn names_are_keywords() {
    let all = [
        PcmMethod::CPCM,
        PcmMethod::COSMO,
        PcmMethod::IEFPCM,
        PcmMethod::SSVPE,
        PcmMethod::SMD,
    ];
    for m in all {
        assert_eq!(PcmMethod::parse(&m.name()), Ok(m));
        assert_eq!(PcmMethod::from_keyword(&m.name()), Some(m));
    }
    for s in [RadiusScheme::Bondi, RadiusScheme::UFF] {
        assert_eq!(RadiusScheme::parse(&s.name()), Ok(s));
    }
    assert_eq!(RadiusScheme::Bondi.name(), "Bondi");
}

#[test]
fn other_keywords() {
    assert_eq!(SurfaceSwitchType::parse("swig"), Ok(SurfaceSwitchType::SWIG));
    assert_eq!(SurfaceSwitchType::parse("iSwig"), Ok(SurfaceSwitchType::ISWIG));
    assert_eq!(
        SurfaceSwitchType::parse("step"),
        Err("Unknown switch type: step".to_string())
    );
    assert_eq!(SurfaceSwitchType::default(), SurfaceSwitchType::ISWIG);
    assert_eq!(RadiusScheme::parse("uff"), Ok(RadiusScheme::UFF));
    assert_eq!(
        RadiusScheme::parse("UFF_MIXED"),
        Err("Unknown RadiusScheme: UFF_MIXED".to_string())
    );
    assert_eq!(RadiusScheme::default(), RadiusScheme::UFF);
    assert_eq!(SmdCavityRadii::parse("bondi"), Ok(SmdCavityRadii::Bondi));
    assert_eq!(SmdCavityRadii::parse("uff_mixed"), Ok(SmdCavityRadii::BondiUff));
    assert_eq!(
        SmdCavityRadii::parse("Uff"),
        Err("Unknown SmdCavityRadii: Uff".to_string())
    );
    assert_eq!(SmdCavityRadii::default(), SmdCavityRadii::Bondi);
}

fn formula_water(d: &[f64; 8]) -> bool {
    (d[0] - 1.3328).abs() < 0.01 && (d[2] - 0.82).abs() < 0.01 && (d[5] - 78.355).abs() < 1.0
}

#[test]
fn water_is_recognized_like_by_the_formula() {
    let water = [1.3328, 1.3323, 0.82, 0.35, -1.0, 78.355, -1.0, -1.0];
    assert_eq!(water_descriptors().map(value), water);
    let ends = [
        (0, [1.3228, 1.3428]),
        (2, [0.81, 0.83]),
        (5, [77.355, 79.355]),
    ];
    for (place, edges) in ends {
        for edge in edges {
            let bits: u64 = f64::to_bits(edge);
            for near in bits - 40..bits + 40 {
                let mut d = water;
                d[place] = f64::from_bits(near);
                assert_eq!(is_water_descriptor(&d.map(num)), formula_water(&d));
            }
        }
    }
    for d in [[0.0; 8], [-1.0; 8], [f64::NAN; 8], water] {
        assert_eq!(is_water_descriptor(&d.map(num)), formula_water(&d));
    }
}

#[test]
fn settings_of_a_model() {
    let c = PcmObjectCfg::default();
    assert_eq!(value(c.epsilon), 78.3553);
    assert_eq!(c.solvent_descriptors.map(value), [-1.0; 8]);
    assert_eq!(c.icds, 0);

    let input = |solvent_model, epsilon, descriptors: Option<[f64; 8]>| SolventInput {
        solvent_model,
        solv_epsilon: num(epsilon),
        solvent_descriptors: descriptors.map(|d| d.map(num)),
        pcm_cavity_radii: RadiusScheme::Bondi,
        smd_cavity_radii: SmdCavityRadii::Bondi,
    };
    let atoms = vec![8, 1, 1];
    let prepare = |i| solvent_prepare(&i, &atoms, &vec![]);
    let p = prepare(input(PcmMethod::CPCM, 4.0, None)).ok().unwrap();
    assert_eq!((p.cfg.icds, value(p.cfg.epsilon)), (2, 4.0));
    assert_eq!(p.cfg.solvent_descriptors.map(value), [-1.0; 8]);
    assert!(p.radii.is_none() && !p.tension && p.surface.vdw_scale.is_none());
    assert_eq!(p.surface.radius_scheme, RadiusScheme::Bondi);

    let missing = prepare(input(PcmMethod::SMD, 4.0, None)).err().unwrap();
    assert_eq!(missing, SolventError::MissingDescriptors);
    assert!(missing.message().starts_with("SMD solvent model requires solvent descriptors."));

    let water = water_descriptors().map(value);
    let p = prepare(input(PcmMethod::SMD, 78.0, Some(water))).ok().unwrap();
    assert_eq!(p.cfg.icds, 1);
    assert_eq!(value(p.surface.vdw_scale.unwrap()), 1.0);
    let hydrogen = SmdRadius::Intrinsic(120);
    assert_eq!(
        p.radii,
        Some(vec![oxygen(0), hydrogen, hydrogen])
    );
    assert!(p.tension);

    let toluene = [1.4961, 1.4936, 0.0, 0.14, 40.2, 2.3741, 0.857, 0.0];
    let p = prepare(input(PcmMethod::SMD, 2.37, Some(toluene))).ok().unwrap();
    assert_eq!(p.cfg.icds, 2);
    assert_eq!(p.radii.unwrap()[0], oxygen(180));
    for place in [0, 2, 3, 4, 6, 7] {
        let mut bad = toluene;
        bad[place] = -1.0;
        let e = prepare(input(PcmMethod::SMD, 2.37, Some(bad))).err().unwrap();
        assert_eq!(e, SolventError::NegativeDescriptor);
        assert!(e.message().contains("Found negative value in them."));
    }
    for place in [1, 5] {
        let mut fine = toluene;
        fine[place] = -1.0;
        assert!(prepare(input(PcmMethod::SMD, 2.37, Some(fine))).is_ok());
    }
}

#[test]
fn scale_factors_of_radii() {
    let mut c = SurfaceVdwGaussianCfg::default();
    assert_eq!(c.lebedev_degree, 302);
    assert_eq!(value(c.effective_vdw_scale()), 1.1);
    c = SurfaceVdwGaussianCfg::new(RadiusScheme::Bondi);
    assert_eq!(value(c.effective_vdw_scale()), 1.2);
    c.vdw_scale = Some(num(1.0));
    assert_eq!(value(c.effective_vdw_scale()), 1.0);
    match c.radius_sources(&vec![1, 8]) {
        RadiusSources::Scaled { bases, scale } => {
            assert_eq!(bases, vec![BaseRadius::BondiHydrogen(num(2.0786987370215684)), BaseRadius::Table(8)]);
            assert_eq!(value(scale), 1.0);
        }
        _ => panic!("no radii are given"),
    }
    c.atom_radii = Some(nums(&[2.0, 3.0]));
    let given = |c: &SurfaceVdwGaussianCfg, zs: Vec<usize>| match c.radius_sources(&zs) {
        RadiusSources::Given { complete } => complete,
        _ => panic!("radii are given"),
    };
    assert!(given(&c, vec![1, 8]) && !given(&c, vec![8]));
    assert_eq!(RadiusScheme::Bondi.base_radius(1), BaseRadius::BondiHydrogen(num(2.0786987370215684)));
    assert_eq!(RadiusScheme::UFF.base_radius(1), BaseRadius::Table(1));
    assert_eq!(RadiusScheme::Bondi.base_radius(6), BaseRadius::Table(6));
}

#[test]
fn cavity_radii() {
    let mut measured = vec![num(0.0); 30];
    measured[5] = num(3.6);
    let z = vec![1, 8, 5, 26, 53, 80];
    let r = smd_radii(num(0.43), &z, SmdCavityRadii::BondiUff, &measured);
    assert_eq!(
        r,
        vec![
            SmdRadius::Intrinsic(120),
            oxygen(0),
            SmdRadius::Measured(5),
            SmdRadius::Vdw(26),
            SmdRadius::Intrinsic(274),
            SmdRadius::Vdw(80),
        ]
    );
    let r = smd_radii(num(0.42), &z, SmdCavityRadii::Bondi, &measured);
    assert_eq!(r[1], oxygen(180));
    assert_eq!(r[2], SmdRadius::Vdw(5));
}

fn sphere(products: &[f64]) -> AtomSphere {
    let n = products.len();
    AtomSphere {
        radius: num(n as f64),
        points: (0..n).map(|i| [num(i as f64), num(0.0), num(0.0)]).collect(),
        weights: (0..n).map(|i| num(i as f64)).collect(),
        switches: (0..n).map(|i| num(10.0 + i as f64)).collect(),
        normals: vec![[num(0.0); 3]; n],
        exponents: vec![num(2.0); n],
        areas: vec![num(3.0); n],
        products: nums(products),
    }
}

#[test]
fn points_of_a_surface() {
    assert_eq!(kept_points(&nums(&[1.0e-16, 2.0e-16, 0.5, f64::NAN])), vec![0, 1, 1, 0]);
    assert_eq!(bool_select(&vec![5, 6, 7, 8], &vec![1, 0, 2]), vec![5, 7]);
    let mut s = SurfaceVdwGaussian::new();
    s.add_atom(&sphere(&[0.5, 0.0, 0.5]));
    s.add_atom(&sphere(&[0.0, 0.0]));
    s.add_atom(&sphere(&[0.0, 0.5, 0.5, 0.5]));
    assert_eq!(s.gslice_by_atom, vec![(0, 2), (2, 2), (2, 5)]);
    let c = &s.surface_calc;
    assert_eq!(c.weights, nums(&[0.0, 2.0, 1.0, 2.0, 3.0]));
    assert_eq!(c.switch_fun, nums(&[10.0, 12.0, 11.0, 12.0, 13.0]));
    assert_eq!(c.R_vdw, nums(&[3.0, 3.0, 4.0, 4.0, 4.0]));
    assert_eq!(c.area.len(), 5);
    assert_eq!(c.grid_coords[1][0], num(2.0));
}

#[test]
fn pivots_and_their_reverse() {
    let ipiv = vec![3, 3, 3, 4];
    let mut x = vec!["a", "b", "c", "d"];
    apply_pivots(&mut x, &ipiv);
    assert_eq!(x, vec!["c", "a", "b", "d"]);
    undo_pivots(&mut x, &ipiv);
    assert_eq!(x, vec!["a", "b", "c", "d"]);
}

#[test]
fn singular_diagonals() {
    assert_eq!(f64::from_bits(SINGULAR_THRESHOLD), 1.0e-15);
    assert_eq!(last_singular(&nums(&[1.0, -1.0e-15, 3.0])), None);
    assert_eq!(last_singular(&nums(&[0.0, -9.0e-16, 3.0])), Some(1));
    assert_eq!(last_singular(&nums(&[0.0])), Some(0));
}

#[test]
fn shuffles_rearrange() {
    let mut v = vec![1, 2, 3, 4];
    shuffle_with(&mut v, &vec![0, 2, 0]);
    assert_eq!(v, vec![2, 4, 3, 1]);
    let mut rng = StdRng::seed_from_u64(7);
    let mut v: Vec<usize> = (0..100).collect();
    shuffle(&mut v, &mut rng);
    assert_ne!(v, (0..100).collect::<Vec<usize>>());
    v.sort();
    assert_eq!(v, (0..100).collect::<Vec<usize>>());
    let mut short: Vec<usize> = vec![];
    shuffle(&mut short, &mut rng);
    let mut one = vec![5];
    shuffle(&mut one, &mut rng);
    assert_eq!(one, vec![5]);
}

#[test]
fn terms_of_the_charge_response() {
    let parts = |m| grad_solvent_solver(m).iter().map(|t| t.part).collect::<Vec<SolverPart>>();
    assert_eq!(parts(PcmMethod::CPCM), vec![SolverPart::S0]);
    assert_eq!(parts(PcmMethod::COSMO), vec![SolverPart::S0]);
    assert_eq!(
        parts(PcmMethod::IEFPCM),
        vec![
            SolverPart::SourceD,
            SolverPart::SourceA,
            SolverPart::S0,
            SolverPart::D,
            SolverPart::A,
            SolverPart::S1
        ]
    );
    assert_eq!(parts(PcmMethod::SMD), parts(PcmMethod::IEFPCM));
    assert_eq!(parts(PcmMethod::SSVPE).len(), 9);
    for t in grad_solvent_solver(PcmMethod::SSVPE) {
        let expected = match t.part {
            SolverPart::S0 => SolverFactor::MinusOne,
            SolverPart::SourceD | SolverPart::SourceA => SolverFactor::OverTwoPi,
            _ => SolverFactor::OverFourPi,
        };
        assert_eq!(t.factor, expected);
    }
    assert_eq!(
        get_K_R_f(PcmMethod::COSMO),
        ChargeEquation { halves: 1, double_layer: false, symmetrized: false }
    );
    assert_eq!(
        get_K_R_f(PcmMethod::SSVPE),
        ChargeEquation { halves: 2, double_layer: true, symmetrized: true }
    );
    assert!(PcmMethod::SMD.uses_double_layer() && !PcmMethod::CPCM.uses_double_layer());
}

#[test]
fn cavity_moves_with_the_atoms() {
    assert_eq!(switch_distance(2, 2, num(9.0)), SwitchDistance::Own);
    assert_eq!(switch_distance(2, 1, num(9.0e-9)), SwitchDistance::Zero);
    assert_eq!(switch_distance(2, 1, num(1.0e-8)), SwitchDistance::Reduced);
    assert!(switch_derivative_counts(num(0.5), num(0.5), num(1.0)));
    assert!(!switch_derivative_counts(num(0.0), num(0.5), num(1.0)));
    assert!(!switch_derivative_counts(num(0.5), num(-1.0e-15), num(1.0)));
    assert!(!switch_derivative_counts(num(0.5), num(0.5), num(1.0e-15)));
    let r = get_dF_dA(1, 3);
    assert_eq!(r.len(), 6);
    assert_eq!(r[2], SwitchResponse { target: 1, source: 2, positive: true });
    assert_eq!(r[3], SwitchResponse { target: 0, source: 0, positive: false });
    for source in 0..3 {
        let net: i32 = r
            .iter()
            .filter(|x| x.source == source)
            .map(|x| if x.positive { 1 } else { -1 })
            .sum();
        assert_eq!(net, 0);
    }
}

#[test]
fn chunks_of_derivative_integrals() {
    for nao in [1usize, 7, 100, 1000, 1141, 1142, 5000, 5001, 20000] {
        let formula = ((500_000_000.0 / (3.0 * nao as f64 * nao as f64 * 8.0)) as usize)
            .max(16)
            .min(100_000);
        assert_eq!(grad_solvent_qv(nao, 100_000), formula);
    }
    assert_eq!(grad_solvent_qv(0, 9), 9);
    assert_eq!(grad_solvent_qv(10, 3), 3);
}

#[test]
fn positions_of_derivative_integrals() {
    assert_eq!(element3(2, 5, 3, 7, 1, 3), 2 + 5 * (3 + 7));
    let mut seen = vec![false; 2 * 3 * 4];
    for k in 0..4 {
        for j in 0..3 {
            for i in 0..2 {
                let p = element3(i, 2, j, 3, k, 4);
                assert!(!seen[p]);
                seen[p] = true;
            }
        }
    }
}

#[test]
fn extremes_of_a_gradient() {
    assert_eq!(grad_stats(&vec![]), (num(0.0), num(0.0)));
    assert_eq!(grad_stats(&nums(&[1.0, -3.0, 2.5])), (num(-3.0), num(2.5)));
    assert_eq!(vec_stats(&vec![]), None);
    assert_eq!(vec_stats(&nums(&[1.0, -3.0, 2.5])), Some((num(2.5), num(-3.0))));
    assert_eq!(vec_stats(&nums(&[0.0, -0.0])), Some((num(-0.0), num(-0.0))));
}

#[test]
fn blocks_of_a_refresh() {
    let aux_loc = vec![10, 13, 20];
    let partition = vec![(0, 1), (1, 2)];
    let p = get_pcm_refresh(true, 4, &aux_loc, &partition, 600, 250);
    assert_eq!(p.electrons.points, vec![(0, 256), (256, 256), (512, 88)]);
    assert_eq!(p.charges.points, vec![(0, 250), (250, 250), (500, 100)]);
    let places: Vec<(usize, usize)> = p.charges.aux.iter().map(|b| (b.first, b.len)).collect();
    assert_eq!(places, vec![(0, 3), (3, 7)]);
    assert_eq!(p.electrons.aux, p.charges.aux);
    assert_eq!(p.electrons.aux[1].shells, [(0, 4), (0, 4), (5, 6)]);
    let p = get_pcm_refresh(false, 4, &vec![], &vec![], 600, 250);
    assert!(p.electrons.aux.is_empty() && p.charges.aux.is_empty());
    assert_eq!(p.electrons.points, p.charges.points);
    assert_eq!(p.electrons.points.len(), 3);
}

#[test]
fn negligible_integrals() {
    assert!(is_negligible(&nums(&[])));
    assert!(is_negligible(&nums(&[0.0, -9.9e-13, f64::NAN])));
    assert!(!is_negligible(&nums(&[0.0, 1.0e-12])));
    assert!(!is_negligible(&nums(&[f64::NEG_INFINITY])));
}

#[test]
fn switching_regions() {
    let r = |x| switch_h(num(x));
    assert_eq!(r(-1.0e-30), SwitchRegion::Inside);
    assert_eq!(r(-0.0), SwitchRegion::Between);
    assert_eq!(r(0.5), SwitchRegion::Between);
    assert_eq!(r(1.0), SwitchRegion::Outside);
    let all = switch_matrix(&nums(&[-1.0, 9.9e-9, 1.0e-8, 0.3, 1.0, f64::NAN]));
    assert_eq!(
        all,
        vec![
            SwitchRegion::Inside,
            SwitchRegion::Inside,
            SwitchRegion::Between,
            SwitchRegion::Between,
            SwitchRegion::Outside,
            SwitchRegion::Between,
        ]
    );
}

#[test]
fn switching_polynomials() {
    let at = |terms: Vec<PowerTerm>, x: i64| -> i64 {
        terms.iter().map(|t| t.coefficient as i64 * x.pow(t.power)).sum()
    };
    for x in [0, 1, 2, -3] {
        assert_eq!(at(switch_polynomial(), x), x * x * x * (10 - 15 * x + 6 * x * x));
        assert_eq!(at(grad_switch_h(), x), 30 * x * x - 60 * x * x * x + 30 * x * x * x * x);
    }
    assert_eq!(at(switch_polynomial(), 1), 1);
}

#[test]
fn parts_of_the_solvent_gradient() {
    let (parts, printed) = compute_solvent_gradient(false, 1);
    let three = vec![GradientPart::Nuclear, GradientPart::Electrons, GradientPart::Solver];
    assert_eq!((parts, printed), (three, false));
    let (parts, printed) = compute_solvent_gradient(true, 2);
    assert_eq!((parts.len(), parts[3], printed), (4, GradientPart::Tension, true));
    let common = [AuxVector::Vk1, AuxVector::Sq, AuxVector::Vk1D, AuxVector::Vk1DA];
    assert_eq!(compute_solver_aux(PcmMethod::CPCM), common.to_vec());
    let all = compute_solver_aux(PcmMethod::SSVPE);
    assert_eq!(all[..4], common);
    assert_eq!(all[4..], [AuxVector::Vk1S, AuxVector::DtQ]);
}

#[test]
fn oxygen_radius_follows_the_acidity() {
    let angstrom = |alpha: f64, zs: Vec<usize>, scheme| -> Vec<f64> {
        smd_radii(num(alpha), &zs, scheme, &vec![])
            .iter()
            .map(|r| match r {
                SmdRadius::Oxygen { base, slope, acidity } => {
                    (*base as f64 + *slope as f64 * (value(*acidity) - alpha)) / 100.0
                }
                SmdRadius::Intrinsic(x) => *x as f64 / 100.0,
                _ => panic!("no table is needed"),
            })
            .collect()
    };
    let close = |a: Vec<f64>, b: &[f64]| {
        assert_eq!(a.len(), b.len());
        assert!(a.iter().zip(b).all(|(x, y)| (x - y).abs() < 1e-12));
    };
    close(angstrom(0.82, vec![8, 1, 6], SmdCavityRadii::Bondi), &[1.52, 1.20, 1.85]);
    close(angstrom(0.43, vec![8], SmdCavityRadii::Bondi), &[1.52]);
    close(angstrom(0.0, vec![8, 17], SmdCavityRadii::BondiUff), &[2.294, 2.38]);
}

#[test]
fn operands_of_contributions() {
    let list = |part| {
        let o = solver_operands(part);
        (o.derivative, o.left, o.right)
    };
    let vk1 = Operand::Aux(AuxVector::Vk1);
    assert_eq!(
        list(SolverPart::S0),
        (Derivative::SingleLayer, vec![vk1], vec![Operand::Charges])
    );
    assert_eq!(
        list(SolverPart::SourceD),
        (Derivative::DoubleLayer, vec![vk1], vec![Operand::Areas, Operand::Potential])
    );
    let (vk1s, dtq) = (Operand::Aux(AuxVector::Vk1S), Operand::Aux(AuxVector::DtQ));
    assert_eq!(list(SolverPart::ATransposed), (Derivative::Areas, vec![vk1s, dtq], vec![]));
    assert_eq!(
        list(SolverPart::DTransposed),
        (Derivative::DoubleLayer, vec![Operand::Charges], vec![vk1s, Operand::Areas])
    );
    for m in [PcmMethod::CPCM, PcmMethod::IEFPCM, PcmMethod::SSVPE, PcmMethod::SMD] {
        let computed = compute_solver_aux(m);
        for t in grad_solvent_solver(m) {
            let o = solver_operands(t.part);
            for x in o.left.iter().chain(&o.right) {
                if let Operand::Aux(v) = x {
                    assert!(computed.contains(v));
                }
            }
        }
    }
}
