use rest_scf::packed::ij0;
use rest_scf::scf_io::ao2mo::{ao2mo_rayon, cases, column_block, Ao2moKernel, Lcg};
use std::ops::Range;

fn next_number(rng: &mut Lcg) -> f64 {
    (rng.next_bits() as f64 / (1u64 << 53) as f64) - 0.5
}

fn synthetic(nao: usize, nmo: usize, naux: usize, seed: u64) -> (Vec<f64>, Vec<f64>) {
    let mut rng = Lcg::new(seed);
    let nbaspar = nao * (nao + 1) / 2;
    let eigvec: Vec<f64> = (0..nao * nmo).map(|_| next_number(&mut rng)).collect();
    let rimatr: Vec<f64> = (0..nbaspar * naux).map(|_| next_number(&mut rng)).collect();
    (eigvec, rimatr)
}

/// One auxiliary function's integrals times a block of columns with the given stride.
fn symm(m: &[f64], nao: usize, block: &[f64], stride: usize, columns: usize) -> Vec<f64> {
    let mut r = vec![0.0; nao * columns];
    for c in 0..columns {
        for i in 0..nao {
            let mut s = 0.0;
            for j in 0..nao {
                s += m[ij0(i, j)] * block[c * stride + j];
            }
            r[c * nao + i] = s;
        }
    }
    r
}

fn dot(a: &[f64], b: &[f64]) -> f64 {
    a.iter().zip(b.iter()).map(|(x, y)| x * y).sum()
}

fn kernel_v02(
    eigvec: &[f64],
    stride: usize,
    rimatr: &[f64],
    nao: usize,
    row: Range<usize>,
    col: Range<usize>,
) -> Vec<f64> {
    let pairs = nao * (nao + 1) / 2;
    let nmo = eigvec.len() / stride;
    let mut out = vec![];
    for m in rimatr.chunks_exact(pairs) {
        let tmp = symm(m, nao, eigvec, stride, nmo);
        for c in col.clone() {
            for r in row.clone() {
                out.push(dot(&eigvec[r * stride..r * stride + nao], &tmp[c * nao..(c + 1) * nao]));
            }
        }
    }
    out
}

fn kernel_m1(
    eigvec: &Vec<f64>,
    rimatr: &[f64],
    nao: usize,
    row: Range<usize>,
    col: Range<usize>,
) -> Vec<f64> {
    let pairs = nao * (nao + 1) / 2;
    let block = column_block(eigvec, nao, &col);
    let mut out = vec![];
    for m in rimatr.chunks_exact(pairs) {
        let tmp = symm(m, nao, &block, nao, col.len());
        for c in 0..col.len() {
            for r in row.clone() {
                out.push(dot(&eigvec[r * nao..(r + 1) * nao], &tmp[c * nao..(c + 1) * nao]));
            }
        }
    }
    out
}

fn kernel_m2(
    eigvec: &Vec<f64>,
    rimatr: &[f64],
    nao: usize,
    row: Range<usize>,
    col: Range<usize>,
) -> Vec<f64> {
    let pairs = nao * (nao + 1) / 2;
    let block = column_block(eigvec, nao, &row);
    let mut out = vec![];
    for m in rimatr.chunks_exact(pairs) {
        let tmp = symm(m, nao, &block, nao, row.len());
        for c in col.clone() {
            for r in 0..row.len() {
                out.push(dot(&tmp[r * nao..(r + 1) * nao], &eigvec[c * nao..(c + 1) * nao]));
            }
        }
    }
    out
}

fn max_abs_diff(a: &[f64], b: &[f64]) -> f64 {
    assert_eq!(a.len(), b.len(), "output sizes differ");
    a.iter().zip(b.iter()).map(|(x, y)| (x - y).abs()).fold(0.0_f64, f64::max)
}

fn max_abs(a: &[f64]) -> f64 {
    a.iter().map(|x| x.abs()).fold(0.0_f64, f64::max)
}

#[test]
fn kernels_agree_elementwise_and_dispatch_picks_expected_one() {
    let nao = 60;
    let naux = 32;
    let (eigvec, rimatr) = synthetic(nao, nao, naux, 20260918);

    for case in cases(nao) {
        let v02 = kernel_v02(&eigvec, nao, &rimatr, nao, case.row.clone(), case.col.clone());
        let m1 = kernel_m1(&eigvec, &rimatr, nao, case.row.clone(), case.col.clone());
        let m2 = kernel_m2(&eigvec, &rimatr, nao, case.row.clone(), case.col.clone());
        let dispatch = match ao2mo_rayon(&case.row, &case.col, true) {
            Ao2moKernel::V02 => v02.clone(),
            Ao2moKernel::M1 => m1.clone(),
            Ao2moKernel::M2 => m2.clone(),
        };

        let scale = max_abs(&v02).max(1.0e-12);
        let d_m1 = max_abs_diff(&v02, &m1) / scale;
        let d_m2 = max_abs_diff(&v02, &m2) / scale;
        assert!(d_m1 < 1.0e-12, "{}: m1 differs from v02 by {}", case.label, d_m1);
        assert!(d_m2 < 1.0e-12, "{}: m2 differs from v02 by {}", case.label, d_m2);

        let narrow_is_row = case.row.len() < case.col.len();
        if narrow_is_row {
            assert_eq!(ao2mo_rayon(&case.row, &case.col, true), Ao2moKernel::M2);
            assert_eq!(max_abs_diff(&dispatch, &m2), 0.0, "{}: dispatch is not m2", case.label);
        } else {
            assert_eq!(ao2mo_rayon(&case.row, &case.col, true), Ao2moKernel::M1);
            assert_eq!(max_abs_diff(&dispatch, &m1), 0.0, "{}: dispatch is not m1", case.label);
        }
    }
}

#[test]
fn dispatch_falls_back_to_v02_for_non_contiguous_input() {
    let nao = 40;
    let naux = 16;
    let (eigvec, rimatr) = synthetic(nao, nao, naux, 424242);

    let mut padded = vec![0.0_f64; nao * (nao + 1)];
    for j in 0..nao {
        for i in 0..nao {
            padded[i + j * (nao + 1)] = eigvec[i + j * nao];
        }
    }

    let row = 0..(nao / 5);
    let col = nao / 5..nao;
    assert_eq!(ao2mo_rayon(&row, &col, false), Ao2moKernel::V02);
    let strided = kernel_v02(&padded, nao + 1, &rimatr, nao, row.clone(), col.clone());
    let plain = kernel_v02(&eigvec, nao, &rimatr, nao, row.clone(), col.clone());
    assert_eq!(max_abs_diff(&strided, &plain), 0.0);
}

#[test]
fn generator_is_reproducible() {
    let mut g = Lcg::new(777);
    assert_eq!(g.0, 777u64.wrapping_mul(6364136223846793005).wrapping_add(1));
    let state = g.0.wrapping_mul(6364136223846793005).wrapping_add(1442695040888963407);
    assert_eq!(g.next_bits(), state >> 11);
    assert_eq!(g.0, state);
    assert_eq!(Lcg::new(0).0, 1);
}

#[test]
fn shapes_of_consumers() {
    let c = cases(60);
    assert_eq!(c.len(), 7);
    assert_eq!(c[0].label, "PT2/RPA (vir, occ)");
    assert_eq!((c[0].row.clone(), c[0].col.clone()), (12..60, 0..12));
    assert_eq!((c[5].row.clone(), c[5].col.clone()), (0..1, 0..60));
    assert_eq!((c[6].row.clone(), c[6].col.clone()), (0..7, 0..60));
    assert_eq!(cases(3)[6].row, 0..1);
}

#[test]
fn column_blocks() {
    let m = vec![1, 2, 3, 4, 5, 6, 7, 8];
    assert_eq!(column_block(&m, 2, &(1..3)), vec![3, 4, 5, 6]);
    assert_eq!(column_block(&m, 2, &(2..2)), Vec::<i32>::new());
}
