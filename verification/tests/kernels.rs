use rest_scf::packed::{ij0, packed_len};
use rest_scf::scf_io::direct::{
    aux_batches, generate_vj_ri_direct_with_rstsr, generate_vk_ri_direct_coeff_with_rstsr,
    generate_vk_ri_direct_dm_with_rstsr, generate_vk_ri_semi_incore_coeff_with_rstsr,
};
use rest_scf::scf_io::erifold::{block_start, row_steps, ExchangePass, RowStep};
use rest_scf::scf_io::folded::shared_steps;
use rest_scf::scf_io::driver::{ConvergenceCriteria, ScfThresholds};
use rest_scf::scf_io::orbitals::{
    apply_guess_mix, determine_ri3mo_size_for_pt2_and_rpa, diagonalize_hamiltonian_outside_fast,
    diagonalize_hamiltonian_outside_rayon, generate_density_matrix_outside,
    generate_occupation_outside, generate_ri3mo_rayon_for_pt2_and_rpa, occupation_window,
    nucleus_acts, semi_diagonalize_hamiltonian_outside, transposed_derivative, DensitySource,
    GhostForces, GuessRotation, OCCType, OrbitalSource, TransformPlan,
};
use rest_scf::scf_io::partition::{
    batches, diagonals_in_batch, shell_pair_schedule, thread_chunks,
};
use rest_scf::binary64::Real;
use rest_scf::scf_io::ri_on_the_fly::{
    exchange_block_visits, mem_estimate_vj_ri_direct, mem_estimate_vk_ri_direct_coeff,
    mem_estimate_vk_ri_direct_dm, mem_estimate_vk_ri_incore_coeff,
    mem_estimate_vk_ri_semi_incore_coeff, occupied_columns, MemEstimate,
};
use rest_scf::scf_io::setup::{
    AlgorithmJK, Control, EriType, InitialGuess, Molecule, SCFType, SCF,
};

fn calculation(scftype: SCFType, spin_channel: usize) -> SCF {
    let zero = Real::from_bits(0);
    let mol = Molecule {
        num_alpha: zero,
        num_beta: zero,
        spin_channel,
        num_basis: 20,
        num_auxbas: 60,
        num_state: 20,
        start_mo: 1,
        use_eri: true,
        ghost_potentials: 0,
        external_field: false,
        point_charges: 0,
        is_rsh: false,
        is_dfa_scf: false,
        components: 0,
        has_dispersion: false,
    };
    let ctrl = Control {
        spin_polarization: true,
        algorithm_jk: AlgorithmJK::Default,
        eri_type: EriType::RiV,
        use_auxbas: true,
        use_ri_symm: true,
        use_dm_only: false,
        use_isdf: false,
        isdf_k_only: false,
        isdf_new: false,
        ri_k_only: false,
        sfx2c: false,
        empirical_dispersion: false,
        initial_guess: InitialGuess::Other,
        ao_cutoff: zero,
        drop_dense_ao: false,
        smearing: None,
        start_diis_cycle: 3,
        solvent_enabled: false,
        deep_learning: false,
        quasiparticle_methods: false,
        bse_auxbas: false,
        scf_conv_criteria: ConvergenceCriteria::Density,
        thresholds: ScfThresholds {
            energy: zero,
            eigenvalues: zero,
            density: zero,
            gradient: zero,
        },
        max_scf_cycle: 50,
    };
    let mut scf = SCF::init_scf(mol, ctrl);
    scf.scftype = scftype;
    scf
}

/// Integral values that only depend on the unordered pair of unordered pairs.
fn eri(a: usize, b: usize) -> i64 {
    let (x, y) = if a > b { (a, b) } else { (b, a) };
    (x * 31 + y * 7 + 3) as i64 % 101 - 50
}

fn density(i: usize, j: usize) -> i64 {
    (i * 13 + j * 5) as i64 % 17 - 8
}

/// The exchange matrix by the passes and steps of the library, thread by thread.
fn exchange_by_plan(n: usize, threads: Option<usize>) -> Vec<i64> {
    let mut scf = calculation(SCFType::RHF, 1);
    scf.mol.num_basis = n;
    let pairs = packed_len(n);
    let folded: Vec<i64> =
        (0..pairs * pairs).map(|x| eri(x / pairs, x % pairs)).collect();
    let mut vk = vec![0; pairs];
    let one = Real::from_bits(1.0f64.to_bits());
    for passes in scf.generate_vk_with_erifold4_sync_v02(threads, true, one).threads {
        for pass in passes {
            let base = block_start(pass.block, n);
            let block = &folded[base..base + pairs];
            let dm: Vec<i64> = (0..n).map(|k| density(k, pass.column)).collect();
            let row0 = pass.row * (pass.row + 1) / 2;
            for s in row_steps(0, n, pass.row, n) {
                for l in 0..s.axpy {
                    vk[row0 + l] += block[s.start + l] * dm[s.k];
                }
                if s.own {
                    for l in 0..s.k {
                        vk[row0 + s.k] += block[s.start + l] * dm[l];
                    }
                    vk[row0 + s.k] += block[s.start + s.k] * dm[s.k];
                }
            }
        }
    }
    vk
}

#[test]
fn exchange_plan_gives_the_contraction() {
    let n = 7;
    let mut expected = vec![0; packed_len(n)];
    for r in 0..n {
        for t in 0..=r {
            for s in 0..n {
                for m in 0..n {
                    expected[ij0(t, r)] += eri(ij0(r, s), ij0(t, m)) * density(m, s);
                }
            }
        }
    }
    for threads in [None, Some(1), Some(2), Some(7)] {
        assert_eq!(exchange_by_plan(n, threads), expected);
    }
}

/// The exchange matrix by passes that all threads share.
fn exchange_by_shares(n: usize, threads: Option<usize>) -> Vec<i64> {
    let mut scf = calculation(SCFType::RHF, 1);
    scf.mol.num_basis = n;
    let pairs = packed_len(n);
    let plan = scf.generate_vk_with_erifold4_sync(true, Real::from_bits(0));
    assert_eq!((plan.frame.channels, plan.frame.entries), (1, [pairs, 1]));
    assert!(plan.frame.scaled);
    let mut vk = vec![0; pairs];
    let mut contract = |pass: &ExchangePass, steps: &[RowStep]| {
        let row0 = pass.row * (pass.row + 1) / 2;
        let dm = |k: usize| density(k, pass.column);
        for s in steps {
            for l in 0..s.axpy {
                vk[row0 + l] += eri(pass.block, s.start + l) * dm(s.k);
            }
            if s.own {
                for l in 0..s.k {
                    vk[row0 + s.k] += eri(pass.block, s.start + l) * dm(l);
                }
                vk[row0 + s.k] += eri(pass.block, s.start + s.k) * dm(s.k);
            }
        }
    };
    for pass in &plan.shared {
        for steps in shared_steps(n, threads, pass.row) {
            contract(pass, &steps);
        }
    }
    for pass in &plan.single {
        contract(pass, &row_steps(0, n, pass.row, n));
    }
    vk
}

#[test]
fn shared_exchange_plan_gives_the_contraction() {
    for n in [1, 2, 7] {
        let expected = exchange_by_plan(n, None);
        for threads in [None, Some(1), Some(n)] {
            assert_eq!(exchange_by_shares(n, threads), expected);
        }
    }
    assert_eq!(exchange_by_shares(7, Some(3)), exchange_by_plan(7, Some(3)));
    let mut scf = calculation(SCFType::UHF, 2);
    scf.mol.num_basis = 3;
    let none = scf.generate_vk_with_erifold4_sync(false, Real::from_bits(0));
    assert!(none.shared.is_empty() && none.single.is_empty());
    assert_eq!((none.frame.channels, none.frame.entries), (0, [1, 1]));
    let shares = shared_steps(7, Some(3), 2);
    let starts: Vec<usize> = shares.iter().map(|s| s[0].k).collect();
    assert_eq!(starts, vec![0, 3, 6]);
}

#[test]
fn coulomb_plan_gives_the_contraction() {
    let n = 6;
    let pairs = packed_len(n);
    let mut expected = vec![0; pairs];
    for (p, e) in expected.iter_mut().enumerate() {
        for i in 0..n {
            for j in 0..n {
                *e += eri(ij0(i, j), p) * density(i, j);
            }
        }
    }
    let dm: Vec<i64> = (0..n * n).map(|x| density(x % n, x / n)).collect();
    let mut vj = vec![0; pairs];
    let mut scf = calculation(SCFType::RHF, 1);
    scf.mol.num_basis = n;
    let one = Real::from_bits(1.0f64.to_bits());
    let plan = scf.generate_vj_with_erifold4_sync(Some(4), true, one);
    assert_eq!((plan.frame.channels, plan.frame.entries), (1, [pairs, 1]));
    assert!(!plan.frame.scaled);
    let shares = plan.threads;
    assert_eq!(shares.iter().map(|s| s.len()).collect::<Vec<_>>(), vec![3, 7, 11, 0]);
    for t in shares.iter().flatten() {
        let mut w = dm[t.first];
        if let Some(second) = t.second {
            w += dm[second];
        }
        for (p, v) in vj.iter_mut().enumerate() {
            *v += w * eri(t.block, p);
        }
    }
    let half = Real::from_bits(0.5f64.to_bits());
    scf.mol.spin_channel = 2;
    let all = scf.generate_vj_with_erifold4_sync(None, true, half);
    assert_eq!(all.threads, vec![shares.concat()]);
    assert_eq!((all.frame.channels, all.frame.entries), (2, [pairs, pairs]));
    assert!(all.frame.scaled);
    let none = scf.generate_vj_with_erifold4_sync(None, false, half);
    assert!(none.threads.is_empty());
    assert_eq!((none.frame.channels, none.frame.entries), (0, [1, 1]));
    assert_eq!(vj, expected);
}

#[test]
fn rows_divided_among_threads() {
    assert_eq!(thread_chunks(6, 3), vec![(0, 2), (2, 4), (4, 6)]);
    assert_eq!(thread_chunks(7, 3), vec![(0, 3), (3, 6), (6, 7)]);
    assert_eq!(thread_chunks(0, 2), vec![(0, 0), (0, 0)]);
    assert_eq!(thread_chunks(5, 1), vec![(0, 5)]);
}

#[test]
fn items_divided_into_batches() {
    assert_eq!(batches(10, 4), vec![(0, 4), (4, 4), (8, 2)]);
    assert_eq!(batches(8, 4), vec![(0, 4), (4, 4)]);
    assert_eq!(batches(3, 100), vec![(0, 3)]);
    assert!(batches(0, 5).is_empty());
}

#[test]
fn diagonals_of_batches() {
    let n = 6;
    for size in 1..9 {
        let mut seen = vec![];
        for (start, len) in batches(packed_len(n), size) {
            let (lo, hi) = diagonals_in_batch(start, len, n);
            for i in lo..hi {
                assert!(start <= ij0(i, i) && ij0(i, i) < start + len);
                seen.push(i);
            }
        }
        assert_eq!(seen, (0..n).collect::<Vec<usize>>());
    }
}

#[test]
fn shell_pairs_take_turns() {
    let r = shell_pair_schedule(&vec![1, 3]);
    assert_eq!(r, vec![(3, 0, 1), (1, 0, 0), (9, 1, 1)]);
    let r = shell_pair_schedule(&vec![1, 3, 5]);
    assert_eq!(
        r,
        vec![(1, 0, 0), (25, 2, 2), (3, 0, 1), (15, 1, 2), (5, 0, 2), (9, 1, 1)]
    );
    let r = shell_pair_schedule(&vec![2, 2]);
    assert_eq!(r, vec![(4, 0, 1), (4, 0, 0), (4, 1, 1)]);
    assert!(shell_pair_schedule(&vec![]).is_empty());
}

#[test]
fn orbital_ranges() {
    let mut scf = calculation(SCFType::UHF, 2);
    scf.homo = [4, 2];
    scf.lumo = [5, 3];
    assert_eq!(determine_ri3mo_size_for_pt2_and_rpa(&scf), (1..5, 3..20));
    let b = semi_diagonalize_hamiltonian_outside(&scf);
    assert_eq!((b.alpha_occupied, b.alpha_virtual), (0..5, 5..20));
    assert_eq!((b.beta_occupied, b.beta_virtual), (0..3, 3..20));
    let mut one = calculation(SCFType::RHF, 1);
    one.homo = [4, 9];
    one.lumo = [5, 0];
    assert_eq!(determine_ri3mo_size_for_pt2_and_rpa(&one), (1..5, 5..20));
    let rohf = calculation(SCFType::ROHF, 2);
    let plan = TransformPlan {
        orbitals: OrbitalSource::SemiCanonical,
        semi_diagonalize: true,
        stored: true,
        release: true,
        channels: 2,
    };
    assert_eq!(rohf.generate_ri3mo_rayon(true), plan);
    let p = rohf.generate_ri3mo_rayon(false);
    assert_eq!(p, TransformPlan { stored: false, release: false, ..plan });
    let p = scf.generate_ri3mo_rayon(true);
    let canonical =
        TransformPlan { orbitals: OrbitalSource::Canonical, semi_diagonalize: false, ..plan };
    assert_eq!(p, canonical);
    let again = TransformPlan { semi_diagonalize: false, release: false, ..plan };
    assert_eq!(rohf.generate_ri3mo_rayon_for_multiple_times(), again);
    assert_eq!(rohf.generate_ri3mo_bse(), again);
    assert_eq!(rohf.generate_ri3mo_full_rayon(), canonical);
    assert_eq!(
        generate_ri3mo_rayon_for_pt2_and_rpa(&scf, true),
        (3..20, 1..5, canonical)
    );
    assert_eq!(diagonalize_hamiltonian_outside_fast(&rohf), 1);
    assert_eq!(diagonalize_hamiltonian_outside_fast(&scf), 2);
    assert_eq!(diagonalize_hamiltonian_outside_rayon(&scf, &vec![20, 18]), 18);
    assert_eq!(diagonalize_hamiltonian_outside_rayon(&scf, &vec![]), 20);
    let occupation: Vec<Real> =
        [1.0, 0.0, 0.5, 0.0].iter().map(|x: &f64| Real::from_bits(x.to_bits())).collect();
    let source = |scf, spin| generate_density_matrix_outside(scf, spin, &occupation);
    assert_eq!(source(&rohf, 1), DensitySource { channel: 0, columns: 3 });
    assert_eq!(source(&scf, 1), DensitySource { channel: 1, columns: 3 });
    assert_eq!(occupation_window(30, &vec![(4, 8), (2, 6)]), (2, 8));
    assert_eq!(occupation_window(30, &vec![]), (29, 0));
    let windows = vec![(4, 8), (2, 6)];
    let p = generate_occupation_outside(&scf, OCCType::FRAC, 30, &windows, 2);
    assert_eq!((p.source, p.forced), (OCCType::FRAC, true));
    assert_eq!((p.window, p.both), (Some((2, 8)), true));
    let p = generate_occupation_outside(&one, OCCType::INTEGER, 30, &windows, 2);
    assert_eq!((p.window, p.both), (Some((2, 8)), false));
    let p = generate_occupation_outside(&scf, OCCType::ATMSAD, 30, &windows, 1);
    assert_eq!((p.source, p.forced, p.window), (OCCType::ATMSAD, true, None));
    assert!(!generate_occupation_outside(&scf, OCCType::FRAC, 0, &vec![], 2).forced);
    assert_eq!(scf.compute_ghost_charge_forces(2, true), None);
    scf.mol.point_charges = 4;
    let both = |both_densities| Some(GhostForces { charges: 4, both_densities });
    assert_eq!(scf.compute_ghost_charge_forces(2, true), both(true));
    assert_eq!(scf.compute_ghost_charge_forces(1, true), both(false));
    assert_eq!(scf.compute_ghost_charge_forces(2, false), both(false));
    let far = |x: f64| nucleus_acts(Real::from_bits(x.to_bits()));
    assert!(far(1.1e-12) && !far(1.0e-12) && !far(0.0) && !far(f64::NAN));
}

#[test]
fn frontier_orbitals_are_rotated_apart() {
    let mut scf = calculation(SCFType::UHF, 2);
    scf.homo = [4, 2];
    scf.lumo = [5, 3];
    let angles: Vec<Real> =
        [45.0, 46.0].iter().map(|x: &f64| Real::from_bits(x.to_bits())).collect();
    let r = apply_guess_mix(&scf, &angles);
    let first = GuessRotation {
        spin: 0,
        homo: 4,
        lumo: 5,
        degrees: angles[0],
        reversed: false,
        unusual: false,
    };
    let second = GuessRotation {
        spin: 1,
        homo: 2,
        lumo: 3,
        degrees: angles[1],
        reversed: true,
        unusual: true,
    };
    assert_eq!(r, vec![first, second]);
    let below = Real::from_bits((-0.5f64).to_bits());
    assert!(apply_guess_mix(&scf, &vec![below])[0].unusual);
}

#[test]
fn derivative_elements_change_places() {
    let nao = 4;
    let mut from = vec![];
    let mut to = vec![];
    for t in 0..3 {
        for mu in 0..nao {
            for nu in 0..nao {
                let (a, b) = transposed_derivative(nao, t, mu, nu);
                from.push(a);
                to.push(b);
            }
        }
    }
    from.sort();
    assert_eq!(from, (0..48).collect::<Vec<usize>>());
    assert_eq!(to, (0..48).collect::<Vec<usize>>());
    assert_eq!(transposed_derivative(4, 1, 2, 3), (30, 27));
}

#[test]
fn memory_estimates() {
    assert_eq!(
        mem_estimate_vj_ri_direct(4, 10, 2),
        MemEstimate { batched: 10, fixed: 40 + 100 + 32 + 20, thread: 0 }
    );
    assert_eq!(
        mem_estimate_vk_ri_incore_coeff(4, 10, 3, 2),
        MemEstimate { batched: 12, fixed: 32, thread: 16 }
    );
    assert_eq!(
        mem_estimate_vk_ri_semi_incore_coeff(4, 10, 3, 2),
        MemEstimate { batched: 16, fixed: 32 + 120 + 100, thread: 16 }
    );
    assert_eq!(
        mem_estimate_vk_ri_direct_coeff(4, 10, 3, 2),
        MemEstimate { batched: 40 + 90, fixed: 32 + 100, thread: 16 }
    );
    assert_eq!(
        mem_estimate_vk_ri_direct_dm(4, 10, 2),
        MemEstimate { batched: 40 + 80, fixed: 32 + 100, thread: 16 }
    );
}

#[test]
fn blocks_get_one_contribution() {
    let n = 5;
    let mut count = vec![vec![0; n]; n];
    for v in exchange_block_visits(n) {
        count[v.row][v.column] += 1;
        if v.mirrored {
            count[v.column][v.row] += 1;
        }
    }
    assert!(count.iter().all(|row| row.iter().all(|&c| c == 1)));
}

#[test]
fn occupied_columns_above_epsilon() {
    let occupation: Vec<Real> = [2.0, 0.0, f64::EPSILON, 0.1]
        .iter()
        .map(|x: &f64| Real::from_bits(x.to_bits()))
        .collect();
    assert_eq!(occupied_columns(&occupation), vec![0, 3]);
}

#[test]
fn batches_of_auxiliary_functions() {
    // Auxiliary functions are numbered behind 10 basis functions in 3 shells.
    let aux_loc = vec![10, 13, 14, 19, 20];
    let partition = vec![(0, 2), (2, 3), (3, 4)];
    let r = generate_vj_ri_direct_with_rstsr(3, &aux_loc, &partition);
    let places: Vec<(usize, usize)> = r.iter().map(|b| (b.first, b.len)).collect();
    assert_eq!(places, vec![(0, 4), (4, 5), (9, 1)]);
    assert_eq!(r[1].shells, [(0, 3), (0, 3), (5, 6)]);
    assert_eq!(generate_vk_ri_semi_incore_coeff_with_rstsr(3, &aux_loc, &partition), r);
    for x in 0..10 {
        let holding = r.iter().filter(|b| b.first <= x && x < b.first + b.len).count();
        assert_eq!(holding, 1);
    }
    assert!(aux_batches(3, &vec![10], &vec![]).is_empty());
}

#[test]
fn direct_exchange_reaches_every_element_once() {
    let ao_loc = vec![0, 1, 4, 9, 10];
    let partition = vec![(0, 2), (2, 3), (3, 4)];
    for d in [
        generate_vk_ri_direct_coeff_with_rstsr(7, &ao_loc, &partition),
        generate_vk_ri_direct_dm_with_rstsr(7, &ao_loc, &partition),
    ] {
        assert_eq!(d.batches[1].shells, [(2, 3), (0, 4), (4, 11)]);
        assert_eq!(d.batches[1].functions, (4, 9));
        let mut count = vec![0; 100];
        for v in &d.visits {
            let (r, c) = (d.batches[v.row].functions, d.batches[v.column].functions);
            for mu in r.0..r.1 {
                for nu in c.0..c.1 {
                    count[mu * 10 + nu] += 1;
                    if v.mirrored {
                        count[nu * 10 + mu] += 1;
                    }
                }
            }
        }
        assert!(count.iter().all(|&c| c == 1));
    }
}
