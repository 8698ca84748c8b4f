use rest_scf::binary64::Real;
use rest_scf::packed::{ij0, packed_len};
use rest_scf::triangular::{pack_upper, unpack_symmetric};

fn num(x: f64) -> Real {
    Real::from_bits(x.to_bits())
}

#[test]
fn comparisons_match_the_hardware() {
    let values = [
        0.0,
        -0.0,
        1.0,
        -1.0,
        f64::MIN_POSITIVE,
        -f64::MIN_POSITIVE,
        5e-324,
        -5e-324,
        1.0 + f64::EPSILON,
        f64::MAX,
        f64::MIN,
        f64::INFINITY,
        f64::NEG_INFINITY,
        f64::NAN,
        -f64::NAN,
        1.0e-300,
        3.5,
        -3.25,
    ];
    for &a in &values {
        for &b in &values {
            assert_eq!(num(a).lt(num(b)), a < b);
            assert_eq!(num(a).le(num(b)), a <= b);
            assert_eq!(num(a).gt(num(b)), a > b);
            assert_eq!(num(a).ge(num(b)), a >= b);
        }
        assert_eq!(num(a).is_nan(), a.is_nan());
        assert_eq!(num(a).abs().to_bits(), a.abs().to_bits());
    }
}

#[test]
fn packed_index_of_pairs() {
    assert_eq!(ij0(0, 0), 0);
    assert_eq!(ij0(1, 0), 1);
    assert_eq!(ij0(0, 1), 1);
    assert_eq!(ij0(1, 1), 2);
    assert_eq!(ij0(3, 1), 7);
    assert_eq!(ij0(1, 3), 7);
    assert_eq!(packed_len(4), 10);
    assert_eq!(packed_len(0), 0);
}

#[test]
fn packed_indices_are_all_different() {
    let n = 17;
    let mut seen = vec![false; packed_len(n)];
    for j in 0..n {
        for i in 0..=j {
            assert!(!seen[ij0(i, j)]);
            seen[ij0(i, j)] = true;
        }
    }
    assert!(seen.iter().all(|&b| b));
}

#[test]
fn packing_undoes_unpacking() {
    let upper: Vec<u32> = (1..=10).collect();
    let full = unpack_symmetric(&upper, 4);
    assert_eq!(full, vec![1, 2, 4, 7, 2, 3, 5, 8, 4, 5, 6, 9, 7, 8, 9, 10]);
    assert_eq!(pack_upper(&full, 4), upper);
    let empty: Vec<u32> = vec![];
    assert_eq!(unpack_symmetric(&empty, 0), empty);
    assert_eq!(pack_upper(&vec![1, 9, 2, 3], 2), vec![1, 2, 3]);
}
