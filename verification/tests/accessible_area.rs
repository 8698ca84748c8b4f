use rest_scf::binary64::Real;
use rest_scf::solvent::dareal::{
    angle_has_slope, begin_sphere, collect_points, compare_segments, first_arc_accessible,
    is_walkable, order_boundary, points_apart, turns_over, vertex_has_slope, PointStage,
    SegmentStage, SphereStage, OVERLAP_TOLERANCE, RESTART_GROWTH,
};
use rest_scf::solvent::polygons::{crossing_point, decode_entry, drop_signs, sort_dihedrals, CrossingPoint};
use rest_scf::solvent::segments::{
    classify_overlap, common_neighbours, free_points, relate, side_of, Freedom, MatrixBool,
    Overlap, PairGeometry, Relation, Side,
};
use rest_scf::solvent::smd_cds::{
    atoms_of, base_tension, bond_corrections, bondi_radius, build_hsigma_aq, build_hsigma_n,
    build_sigma_a, build_sigma_aq, build_sigma_b, build_sigma_n, natcnv, rkkval, scatter_rows,
    solvent_roles, sphere_radii, third_atoms, BondFamily, SphereRadius, Tension,
};
use rest_scf::solvent::surface_utils::SmdCavityRadii;
use rest_scf::solvent::tension::{
    compute_cds, smx_cds, sum_rule, SumKind, SumRule, TensionTables, WeightedBond,
};
use rest_scf::solvent::walk::{
    odd_gradient_terms, polygon_excess, trace_polygons, Source, Vertex, Weight,
};

fn num(x: f64) -> Real {
    Real::from_bits(x.to_bits())
}

#[test]
fn boolean_matrix() {
    let mut m = MatrixBool::new(3);
    assert!(!m.at(1, 2));
    m.set(1, 2, true);
    assert!(m.at(1, 2) && !m.at(2, 1) && !m.at(1, 1));
    m.set(1, 2, false);
    assert!(!m.at(1, 2));
}

#[test]
fn element_classes() {
    let table = [
        (1, 1),
        (6, 2),
        (7, 3),
        (8, 4),
        (9, 5),
        (14, 11),
        (15, 9),
        (16, 6),
        (17, 7),
        (35, 8),
        (53, 10),
        (2, 0),
        (0, 0),
        (26, 0),
        (200, 0),
    ];
    for (z, t) in table {
        assert_eq!(natcnv(z), t);
    }
}

#[test]
fn bond_lengths() {
    let m = [
        [0.00, 1.55, 1.55, 1.55, 0.00, 2.14, 0.00, 0.00, 0.00, 0.00, 0.00],
        [1.55, 1.84, 1.84, 1.84, 1.84, 2.20, 2.10, 2.30, 2.20, 2.60, 0.00],
        [1.55, 1.84, 1.85, 1.50, 0.00, 0.00, 0.00, 0.00, 0.00, 0.00, 0.00],
        [1.55, 1.84, 1.50, 2.75, 0.00, 1.71, 0.00, 0.00, 2.10, 0.00, 2.10],
        [0.00, 1.84, 0.00, 0.00, 0.00, 0.00, 0.00, 0.00, 0.00, 0.00, 0.00],
        [2.14, 2.20, 0.00, 1.71, 0.00, 2.75, 0.00, 0.00, 2.50, 0.00, 0.00],
        [0.00, 2.10, 0.00, 0.00, 0.00, 0.00, 0.00, 0.00, 0.00, 0.00, 0.00],
        [0.00, 2.30, 0.00, 0.00, 0.00, 0.00, 0.00, 0.00, 0.00, 0.00, 0.00],
        [0.00, 2.20, 0.00, 2.10, 0.00, 2.50, 0.00, 0.00, 0.00, 0.00, 0.00],
        [0.00, 2.60, 0.00, 0.00, 0.00, 0.00, 0.00, 0.00, 0.00, 0.00, 0.00],
        [0.00, 0.00, 0.00, 2.10, 0.00, 0.00, 0.00, 0.00, 0.00, 0.00, 0.00],
    ];
    for i in 0..14 {
        for j in 0..14 {
            let expected = if (1..=11).contains(&i) && (1..=11).contains(&j) {
                m[i - 1][j - 1]
            } else {
                0.0
            };
            assert_eq!(rkkval(i, j) as f64 / 1000.0, expected);
            assert_eq!(rkkval(i, j), rkkval(j, i));
        }
    }
}

fn check_table(t: Vec<i32>, entries: &[(usize, f64)]) {
    assert_eq!(t.len(), 151);
    for (i, v) in t.iter().enumerate() {
        let expected = entries.iter().find(|e| e.0 == i).map_or(0.0, |e| e.1);
        assert_eq!(*v as f64 / 100.0, expected);
    }
}

#[test]
fn tension_tables() {
    check_table(
        build_sigma_aq(),
        &[
            (1, 48.69),
            (6, 129.74),
            (9, 38.18),
            (16, -9.10),
            (17, 9.82),
            (35, -8.72),
            (101, -72.95),
            (103, 68.69),
            (105, -48.22),
            (106, 121.98),
            (114, 68.85),
            (116, 84.10),
        ],
    );
    check_table(build_hsigma_aq(), &[(6, -60.77)]);
    check_table(
        build_sigma_n(),
        &[
            (6, 58.10),
            (7, 32.62),
            (8, -17.56),
            (14, -18.04),
            (16, -33.17),
            (17, -24.31),
            (35, -35.42),
            (101, -62.05),
            (103, -15.70),
            (110, -99.76),
        ],
    );
    check_table(
        build_sigma_a(),
        &[(6, 48.10), (8, 193.06), (103, 95.99), (105, -41.00), (110, 152.20)],
    );
    check_table(build_sigma_b(), &[(6, 32.87), (8, -43.79), (104, -128.16), (106, 79.13)]);
    check_table(build_hsigma_n(), &[(6, -36.37), (8, -19.39)]);
    assert_eq!((base_tension(6), base_tension(150), base_tension(400)), (6, 150, 150));
}

#[test]
fn bond_corrections_of_methanol() {
    let z = vec![6, 8, 1, 1];
    let h = bond_corrections(BondFamily::HydrogenAny, &z);
    assert_eq!(h.len(), 6);
    assert_eq!((h[0].atom, h[0].partner, h[0].tension), (2, 0, Tension::Hydrogen(6)));
    assert_eq!((h[0].length, h[0].width), (1550, 300));
    assert_eq!((h[2].atom, h[2].partner, h[2].length), (2, 3, 0));
    let o = bond_corrections(BondFamily::OxygenAny, &z);
    assert_eq!(o.len(), 1);
    assert_eq!((o[0].atom, o[0].partner, o[0].tension), (1, 0, Tension::Bond(103)));
    assert_eq!((o[0].length, o[0].width), (1330, 100));
    assert!(bond_corrections(BondFamily::CarbonCarbon, &z).is_empty());
    let c = bond_corrections(BondFamily::CarbonCarbon, &vec![6, 7, 6]);
    assert_eq!(c.iter().map(|b| (b.atom, b.partner)).collect::<Vec<_>>(), vec![(0, 2), (2, 0)]);
    let p = bond_corrections(BondFamily::OxygenAny, &vec![8, 8, 7, 15]);
    let kinds: Vec<(Tension, u32)> = p.iter().take(3).map(|b| (b.tension, b.length)).collect();
    assert_eq!(
        kinds,
        vec![
            (Tension::Bond(104), 1800),
            (Tension::Bond(106), 1500),
            (Tension::Bond(114), 2100)
        ]
    );
    assert!(bond_corrections(BondFamily::HydrogenAny, &vec![1, 151]).is_empty());
    assert_eq!(atoms_of(&z, 1), vec![2, 3]);
    assert_eq!(third_atoms(4, 2, 0), vec![1, 3]);
}

#[test]
fn radii_of_accessible_spheres() {
    assert_eq!((bondi_radius(1), bondi_radius(54), bondi_radius(55)), (120, 216, 0));
    let mut measured = vec![num(0.0); 27];
    measured[5] = num(3.5);
    measured[6] = num(3.0);
    let z = vec![6, 5, 26, 120];
    assert_eq!(
        sphere_radii(&z, SmdCavityRadii::BondiUff, &measured),
        vec![
            SphereRadius::Bondi(170),
            SphereRadius::Measured(5),
            SphereRadius::Bondi(194),
            SphereRadius::Bondi(0)
        ]
    );
    assert_eq!(
        sphere_radii(&z, SmdCavityRadii::Bondi, &measured)[1],
        SphereRadius::Bondi(192)
    );
}

#[test]
fn roles_and_rows() {
    let r = solvent_roles(&[10, 11, 12, 13, 14, 15, 16, 17]);
    assert_eq!((r.refractive_index, r.acidity, r.basicity), (10, 12, 13));
    assert_eq!((r.surface_tension, r.aromaticity, r.halogenicity), (14, 16, 17));
    assert_eq!(scatter_rows(2, &vec![0, 5, 1], 12, 4), vec![(0, 2), (1, 0), (3, 1)]);
    assert!(scatter_rows(2, &vec![0, 5, 1], 11, 4).is_empty());
    assert!(scatter_rows(2, &vec![], 30, 4).is_empty());
}

#[test]
fn neighbours_of_a_sphere() {
    let eps = num(1.0e-11);
    let classify = |rk: f64, ri: f64, d: f64| {
        classify_overlap(num(rk), num(ri), num(rk + ri - d), num(d - (rk - ri).abs()), eps)
    };
    assert_eq!(classify(2.0, 0.0, 1.0), Overlap::Absent);
    assert_eq!(classify(2.0, 1.0, 3.5), Overlap::Apart);
    assert_eq!(classify(2.0, 1.0, 2.5), Overlap::Partial);
    assert_eq!(classify(2.0, 1.0, 0.5), Overlap::Engulfing);
    assert_eq!(classify(1.0, 2.0, 0.5), Overlap::Engulfed);
    let o = [Overlap::Partial, Overlap::Apart, Overlap::Partial, Overlap::Partial];
    match begin_sphere(2, num(1.0), &o.to_vec()) {
        SphereStage::Cut(v) => assert_eq!(v, vec![0, 3]),
        _ => panic!("the sphere is cut"),
    }
    assert!(matches!(begin_sphere(2, num(0.0), &o.to_vec()), SphereStage::Buried));
    let mut inside = o.to_vec();
    inside[1] = Overlap::Engulfed;
    assert!(matches!(begin_sphere(2, num(1.0), &inside), SphereStage::Buried));
    assert!(matches!(begin_sphere(1, num(1.0), &inside[1..2].to_vec()), SphereStage::Buried));
    assert!(matches!(begin_sphere(0, num(1.0), &inside[1..2].to_vec()), SphereStage::Whole));
}

/// Relation of two segments of half angles `a`, `b` whose axes are `c` apart.
fn relation(a: f64, b: f64, c: f64) -> Relation {
    let eps = 1.0e-11;
    let (cisj, sicj) = (b.cos() * a.sin(), b.sin() * a.cos());
    let sisj = a.sin() * b.sin();
    let epsij = eps * (sicj + cisj);
    relate(PairGeometry {
        cos_first: num(a.cos()),
        cos_second: num(b.cos()),
        excess: num(c.cos() - a.cos() * b.cos()),
        nesting_bound: num(sisj - eps * (cisj - sicj).abs()),
        sine_sum: num(sicj + cisj),
        crossing_bound: num(epsij - sisj),
        covering_bound: num(-sisj - epsij),
    })
}

#[test]
fn relations_of_segments() {
    assert_eq!(relation(0.3, 0.9, 0.2), Relation::HidesFirst);
    assert_eq!(relation(0.9, 0.3, 0.2), Relation::HidesSecond);
    assert_eq!(relation(0.5, 0.6, 0.8), Relation::Linked);
    assert_eq!(relation(0.5, 0.6, 1.5), Relation::Separate);
    assert_eq!(relation(2.0, 2.2, 3.0), Relation::Covers);
    assert_eq!(relation(2.0, 2.2, 1.0), Relation::Linked);
}

#[test]
fn stages_of_segments() {
    let linked = Relation::Linked;
    let separate = Relation::Separate;
    assert!(matches!(
        compare_segments(2, &vec![Relation::Covers]),
        SegmentStage::Covered
    ));
    match compare_segments(3, &vec![separate, Relation::HidesSecond, linked]) {
        SegmentStage::Isolated { alone } => assert_eq!(alone, vec![0, 1]),
        _ => panic!("nothing visible overlaps"),
    }
    match compare_segments(4, &vec![linked, separate, separate, separate, linked, separate]) {
        SegmentStage::Clustered { conect, cluster, alone } => {
            assert_eq!((cluster, alone), (vec![0, 1, 3], vec![2]));
            assert!(conect.at(0, 1) && conect.at(1, 3) && conect.at(3, 1));
            assert!(!conect.at(0, 3) && !conect.at(2, 2));
        }
        _ => panic!("some segments overlap"),
    }
    match compare_segments(3, &vec![linked, Relation::HidesFirst, linked]) {
        SegmentStage::Clustered { conect, cluster, .. } => {
            assert!(conect.at(0, 0));
            assert_eq!(cluster, vec![1, 2]);
        }
        _ => panic!("two segments overlap"),
    }
}

#[test]
fn freedom_of_points() {
    assert_eq!(side_of(num(0.5), num(0.1), num(0.2)), Side::Inside);
    assert_eq!(side_of(num(0.2), num(0.1), num(0.2)), Side::Boundary);
    assert_eq!(side_of(num(0.1), num(0.1), num(0.2)), Side::Boundary);
    assert_eq!(side_of(num(0.0), num(0.1), num(0.2)), Side::Outside);
    let (o, b, i) = (Side::Outside, Side::Boundary, Side::Inside);
    assert_eq!(free_points(&vec![o, o], &vec![o, o]), Freedom::Points { ij: true, ji: true });
    assert_eq!(free_points(&vec![i, b], &vec![o, o]), Freedom::Points { ij: true, ji: false });
    assert_eq!(free_points(&vec![i, b], &vec![i, b]), Freedom::Points { ij: false, ji: false });
    assert_eq!(free_points(&vec![o, i], &vec![b, o]), Freedom::Degenerate);
    assert_eq!(free_points(&vec![i, o], &vec![o, b]), Freedom::Degenerate);
    assert_eq!(free_points(&vec![], &vec![]), Freedom::Points { ij: true, ji: true });
}

fn all_linked(n: usize) -> (MatrixBool, Vec<usize>) {
    let relations = vec![Relation::Linked; n * (n - 1) / 2];
    match compare_segments(n, &relations) {
        SegmentStage::Clustered { conect, cluster, .. } => (conect, cluster),
        _ => panic!("all segments overlap"),
    }
}

#[test]
fn two_crossing_segments_make_one_polygon() {
    let (conect, cluster) = all_linked(2);
    let both = Freedom::Points { ij: true, ji: true };
    let mut t = match collect_points(&conect, &cluster, &vec![both]) {
        PointStage::Bounded(t) => t,
        _ => panic!("both points are free"),
    };
    assert_eq!(t.columns, vec![vec![-2, 2], vec![1, -1]]);
    assert_eq!(t.free, 2);
    assert_eq!(decode_entry(-2), (1, false));
    assert_eq!(decode_entry(1), (0, true));
    for c in t.columns.iter_mut() {
        drop_signs(c);
    }
    let p = trace_polygons(&mut t.columns, &cluster);
    assert_eq!(p.count, 1);
    let v = Vertex { angle: (1, 0), columns: (1, 0) };
    assert_eq!(p.vertices, vec![v, v]);
    assert_eq!(t.columns, vec![vec![2, 0], vec![1, 0]]);
    assert_eq!(p.vertices.len(), t.free);
    assert_eq!(polygon_excess(p.count, t.free), -1);
}

#[test]
fn shared_points_are_seen_alike() {
    let seen = |li, other, positive| {
        let p: CrossingPoint = crossing_point(li, other, positive);
        (p.high, p.low, p.of_high, p.seen_from_high)
    };
    assert_eq!(seen(5, 2, true), (5, 2, false, true));
    assert_eq!(seen(2, 5, false), (5, 2, false, false));
    assert_eq!(seen(5, 2, false), (5, 2, true, true));
    assert_eq!(seen(2, 5, true), (5, 2, true, false));
}

#[test]
fn three_segments_around_a_vertex_free_outside() {
    let (conect, cluster) = all_linked(3);
    assert_eq!(common_neighbours(&conect, &cluster, 2, 0), vec![1]);
    let one = |ij, ji| Freedom::Points { ij, ji };
    let freedoms = vec![one(true, false), one(false, true), one(true, false)];
    let mut t = match collect_points(&conect, &cluster, &freedoms) {
        PointStage::Bounded(t) => t,
        _ => panic!("three points are free"),
    };
    assert_eq!(t.columns, vec![vec![2, -3], vec![-1, 3], vec![1, -2]]);
    let entries: usize = t.columns.iter().map(|c| c.len()).sum();
    assert_eq!(entries, 2 * t.free);
    for (i, column) in t.columns.iter().enumerate() {
        for &e in column {
            let (other, positive) = decode_entry(e);
            let own = i as isize + 1;
            assert!(t.columns[other].contains(&if positive { -own } else { own }));
        }
    }
    for (i, c) in t.columns.iter_mut().enumerate() {
        let mut angles = vec![num(1.0 + i as f64)];
        order_boundary(c, &mut angles, true);
    }
    assert_eq!(t.columns, vec![vec![2, 3], vec![1, 3], vec![1, 2]]);
    assert!(is_walkable(&t.columns));
    let p = trace_polygons(&mut t.columns, &cluster);
    let left: usize = t.columns.iter().flatten().filter(|e| **e != 0).count();
    assert_eq!(left + p.vertices.len(), entries);
    assert!(p.count <= p.vertices.len());
    assert_eq!(p.vertices.len(), t.free);
}

#[test]
fn degenerate_and_buried_points() {
    let (conect, cluster) = all_linked(3);
    let none = Freedom::Points { ij: false, ji: false };
    assert!(matches!(
        collect_points(&conect, &cluster, &vec![none, Freedom::Degenerate, none]),
        PointStage::Restart
    ));
    assert!(matches!(
        collect_points(&conect, &cluster, &vec![none, none, none]),
        PointStage::Buried
    ));
}

#[test]
fn boundaries_sorted_by_angle() {
    let mut angles: Vec<Real> = [3.0, 1.0, 2.0].iter().map(|x| num(*x)).collect();
    let mut entries = vec![9, 3, -1, 2];
    let b = order_boundary(&mut entries, &mut angles, true);
    assert_eq!((b.order, b.labels), (vec![1, 2, 0], vec![9, 1, 2, 3]));
    assert_eq!(entries, vec![9, 1, 2, 3]);
    assert_eq!(angles, vec![num(1.0), num(2.0), num(3.0)]);
    let mut entries = vec![-9, 3, 1];
    let mut angles = vec![num(1.0), num(0.5)];
    let b = order_boundary(&mut entries, &mut angles, false);
    assert_eq!((b.order, b.labels), (vec![1, 0], vec![9, 1, 3]));
    assert_eq!(entries, vec![1, 3, 9]);
    assert!(!is_walkable(&vec![vec![2, 1], vec![3, 0]]));
    assert!(!is_walkable(&vec![vec![0, 1]]));
    assert!(!is_walkable(&vec![vec![1, -1]]));
    assert!(is_walkable(&vec![vec![1, 0], vec![]]));
    let mut same = vec![num(1.0), num(1.0), num(0.0)];
    let mut labels = vec![0, 1, 2, 3];
    assert_eq!(sort_dihedrals(&mut same, &mut labels), vec![2, 1, 0]);
}

#[test]
fn gradient_of_the_odd_angles() {
    let terms = odd_gradient_terms(4, 0, &vec![1, 2, 3, 4], 6);
    assert_eq!(terms.len(), 9);
    assert_eq!((terms[0].column, terms[0].source), (5, Source::Own));
    assert_eq!((terms[2].column, terms[2].source), (2, Source::Other));
    assert_eq!((terms[4].column, terms[4].weight), (5, Weight::Difference(2)));
    assert_eq!((terms[6].column, terms[6].weight), (3, Weight::Minus(1)));
    assert_eq!((terms[7].column, terms[7].weight), (4, Weight::Plus(2)));
    assert_eq!((terms[8].column, terms[8].source), (0, Source::Centre));
    for angle in 0..3 {
        let net = |s: Source| -> i32 {
            terms
                .iter()
                .filter(|t| t.source == s)
                .map(|t| match t.weight {
                    Weight::Plus(a) => (a == angle) as i32,
                    Weight::Minus(a) => -((a == angle) as i32),
                    Weight::Difference(a) => (a == angle) as i32 - (a == angle + 1) as i32,
                })
                .sum()
        };
        assert_eq!(net(Source::Own), net(Source::Other));
        assert_eq!(net(Source::First), net(Source::Centre));
        assert_eq!(net(Source::Own), net(Source::Centre));
    }
    assert!(odd_gradient_terms(4, 0, &vec![1], 6).is_empty());
}

#[test]
fn tensions_of_acetonitrile() {
    // N, C, C, H: a short stand-in for the molecule.
    let zs = vec![7, 6, 6, 1];
    let p = smx_cds(&zs);
    assert_eq!(p.base, zs);
    assert_eq!(p.hydrogen.len(), 3);
    assert_eq!(p.carbon.len(), 2);
    assert!(p.oxygen.is_empty());
    let triple: Vec<(usize, usize, u32, u32)> =
        p.triple.iter().map(|b| (b.atom, b.partner, b.length, b.width)).collect();
    assert_eq!(triple, vec![(0, 1, 1225, 65), (0, 2, 1225, 65)]);
    assert!(p.triple.iter().all(|b| b.tension == Tension::Bond(116)));
    let nc = rkkval(natcnv(7), natcnv(6));
    assert_eq!(p.nitrogen_carbon.len(), 1);
    let n = &p.nitrogen_carbon[0];
    assert_eq!((n.nitrogen, n.carbons.len()), (0, 2));
    assert_eq!(n.carbons[0].bond, WeightedBond { atom: 1, length: nc, width: 300 });
    let around: Vec<usize> = n.carbons[0].around.iter().map(|b| b.atom).collect();
    assert_eq!(around, vec![2, 3]);
    assert_eq!(n.carbons[0].around[1].length, rkkval(natcnv(1), natcnv(6)));
    let sums: Vec<usize> = p.carbon_nitrogen.iter().map(|c| c.carbon).collect();
    assert_eq!(sums, vec![1, 2]);
    let bond = WeightedBond { atom: 0, length: nc, width: 300 };
    assert_eq!(p.carbon_nitrogen[0].nitrogens, vec![bond]);
    assert_eq!(smx_cds(&vec![200]).base, vec![150]);
    assert_eq!(n.rule, SumRule { tension: 105, power: 13 });
    assert_eq!(sum_rule(SumKind::NitrogenCarbon), n.rule);
    assert_eq!(p.carbon_nitrogen[0].rule, SumRule { tension: 110, power: 20 });
    assert_eq!(sum_rule(SumKind::CarbonNitrogen), p.carbon_nitrogen[0].rule);
}

#[test]
fn tables_by_solvent() {
    let zs = vec![8, 1, 1];
    let p = compute_cds(&zs, 1, SmdCavityRadii::Bondi, &vec![]);
    assert_eq!(p.probe, 40);
    assert_eq!(p.radii, sphere_radii(&zs, SmdCavityRadii::Bondi, &vec![]));
    match p.tables {
        TensionTables::Water { sigma, hsigma } => {
            assert_eq!((sigma, hsigma), (build_sigma_aq(), build_hsigma_aq()));
        }
        _ => panic!("the tables of water"),
    }
    for icds in [0, 2] {
        match compute_cds(&zs, icds, SmdCavityRadii::Bondi, &vec![]).tables {
            TensionTables::Other { sigma_n, sigma_a, sigma_b, hsigma_n, molecular } => {
                assert_eq!((sigma_n, sigma_a), (build_sigma_n(), build_sigma_a()));
                assert_eq!((sigma_b, hsigma_n), (build_sigma_b(), build_hsigma_n()));
                assert_eq!((molecular.surface_tension, molecular.basicity_squared), (35, 0));
                let rest = (molecular.aromaticity_squared, molecular.halogenicity_squared);
                assert_eq!(rest, (-419, -668));
            }
            _ => panic!("the tables of another solvent"),
        }
    }
}

#[test]
fn decisions_along_a_boundary() {
    assert!(points_apart(num(1.0e-300)) && !points_apart(num(0.0)) && !points_apart(num(-1.0)));
    assert!(first_arc_accessible(num(0.1)) && !first_arc_accessible(num(-0.0)));
    assert!(turns_over(num(0.0)) && turns_over(num(-3.0)) && !turns_over(num(0.1)));
    assert!(angle_has_slope(num(1.1e-30)) && !angle_has_slope(num(1.0e-30)));
    assert!(vertex_has_slope(num(-2.0e-15)) && !vertex_has_slope(num(1.0e-15)));
    assert_eq!((OVERLAP_TOLERANCE, RESTART_GROWTH), (1.0e-11f64.to_bits(), 4));
}
