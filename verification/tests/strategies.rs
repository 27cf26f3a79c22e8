//! The execution strategies on concrete inputs: the host reference loop
//! and the three kernel models, cross-checked against each other.

use matmul::basic::BasicMultiplier;
use matmul::error::MulError;
use matmul::kernels::{multiply_coarsened, multiply_host, multiply_naive, multiply_tiled};
use matmul::matrix::Matrix;

fn plus(a: f32, b: f32) -> f32 {
    a + b
}

fn times(a: f32, b: f32) -> f32 {
    a * b
}

fn approx_eq(a: &Matrix<f32>, b: &Matrix<f32>) -> bool {
    a.rows == b.rows
        && a.cols == b.cols
        && a.data.iter().zip(b.data.iter()).all(|(x, y)| (x - y).abs() < 0.01)
}

/// Runs one (rows, shared, cols) case through every strategy and checks
/// each against the expected data, exactly and within the tolerance.
fn check_all_strategies(n: usize, m: usize, k: usize, d1: &[f32], d2: &[f32], expected: &[f32]) {
    let m1 = Matrix::create(n, m, &d1.to_vec()).unwrap();
    let m2 = Matrix::create(m, k, &d2.to_vec()).unwrap();
    let want = Matrix::create(n, k, &expected.to_vec()).unwrap();

    let host = multiply_host(&m1, &m2, 0.0f32, plus, times).unwrap();
    let naive = multiply_naive(&m1, &m2, 0.0f32, plus, times).unwrap();
    let tiled = multiply_tiled(&m1, &m2, 0.0f32, plus, times).unwrap();
    let coarse = multiply_coarsened(&m1, &m2, 0.0f32, plus, times).unwrap();

    for res in [&host, &naive, &tiled, &coarse] {
        assert_eq!(res.rows, n);
        assert_eq!(res.cols, k);
        assert_eq!(res.data, want.data);
        assert!(approx_eq(res, &want));
    }

    let mut basic = BasicMultiplier::default();
    let via_basic = basic.multiply(&m1, &m2, 0.0f32, plus, times).unwrap();
    assert_eq!(via_basic.data, want.data);
}

#[test]
fn two_by_two_scenario() {
    check_all_strategies(
        2,
        2,
        2,
        &[1.0, 2.0, 3.0, 4.0],
        &[4.0, 3.0, 2.0, 1.0],
        &[8.0, 5.0, 20.0, 13.0],
    );
}

#[test]
fn three_by_three_scenario() {
    check_all_strategies(
        3,
        3,
        3,
        &[1.0, 2.0, 3.0, 4.0, 5.0, 6.0, 7.0, 8.0, 9.0],
        &[1.0, 2.0, 3.0, 4.0, 5.0, 6.0, 7.0, 8.0, 9.0],
        &[30.0, 36.0, 42.0, 66.0, 81.0, 96.0, 102.0, 126.0, 150.0],
    );
}

#[test]
fn three_by_one_scenario() {
    check_all_strategies(
        3,
        3,
        1,
        &[1.0, 2.0, 3.0, 4.0, 5.0, 6.0, 7.0, 8.0, 9.0],
        &[1.0, 2.0, 3.0],
        &[14.0, 32.0, 50.0],
    );
}

#[test]
fn tile_sized_operands_need_no_padding() {
    // 16 x 16 identity times a constant matrix: exercises the tiled paths
    // on exactly one tile.
    let mut ident = vec![0.0f32; 256];
    for i in 0..16 {
        ident[i * 16 + i] = 1.0;
    }
    let other = vec![3.0f32; 256];
    check_all_strategies(16, 16, 16, &ident, &other, &other);
}

#[test]
fn dimension_mismatch_is_reported_by_every_strategy() {
    let m1 = Matrix::create(2, 3, &vec![1.0f32; 6]).unwrap();
    let m2 = Matrix::create(2, 2, &vec![1.0f32; 4]).unwrap();

    assert!(matches!(
        multiply_host(&m1, &m2, 0.0f32, plus, times),
        Err(MulError::DimensionMismatch)
    ));
    assert!(matches!(
        multiply_naive(&m1, &m2, 0.0f32, plus, times),
        Err(MulError::DimensionMismatch)
    ));
    assert!(matches!(
        multiply_tiled(&m1, &m2, 0.0f32, plus, times),
        Err(MulError::DimensionMismatch)
    ));
    assert!(matches!(
        multiply_coarsened(&m1, &m2, 0.0f32, plus, times),
        Err(MulError::DimensionMismatch)
    ));
    let mut basic = BasicMultiplier::default();
    assert!(matches!(
        basic.multiply(&m1, &m2, 0.0f32, plus, times),
        Err(MulError::DimensionMismatch)
    ));
    // A failed multiply records no run.
    assert!(basic.stat().is_none());
}

#[test]
fn matching_dimensions_always_succeed() {
    let m1 = Matrix::create(1, 4, &vec![1.0f32, 2.0, 3.0, 4.0]).unwrap();
    let m2 = Matrix::create(4, 1, &vec![1.0f32, 1.0, 1.0, 1.0]).unwrap();
    assert_eq!(
        multiply_host(&m1, &m2, 0.0f32, plus, times).unwrap().data,
        vec![10.0f32]
    );
}

#[test]
fn rerunning_a_strategy_reproduces_the_result_bit_for_bit() {
    let m1 = Matrix::create(3, 3, &vec![0.1f32, 0.2, 0.3, 0.4, 0.5, 0.6, 0.7, 0.8, 0.9]).unwrap();
    let m2 = Matrix::create(3, 3, &vec![1.5f32, 2.5, 3.5, 4.5, 5.5, 6.5, 7.5, 8.5, 9.5]).unwrap();

    let first = multiply_tiled(&m1, &m2, 0.0f32, plus, times).unwrap();
    let second = multiply_tiled(&m1, &m2, 0.0f32, plus, times).unwrap();
    assert_eq!(first.data, second.data);

    let mut basic = BasicMultiplier::default();
    let b1 = basic.multiply(&m1, &m2, 0.0f32, plus, times).unwrap();
    assert!(basic.stat().is_some());
    let b2 = basic.multiply(&m1, &m2, 0.0f32, plus, times).unwrap();
    // Statistics are present after both of two successive calls.
    assert!(basic.stat().is_some());
    assert_eq!(b1.data, b2.data);
}

#[test]
fn strategies_agree_with_the_host_reference() {
    // An awkwardly-shaped case that forces real padding in both operands.
    let rows = 5;
    let shared = 19;
    let cols = 7;
    let d1: Vec<f32> = (0..rows * shared).map(|i| (i as f32) * 0.25 - 3.0).collect();
    let d2: Vec<f32> = (0..shared * cols).map(|i| 10.0 - (i as f32) * 0.125).collect();
    let m1 = Matrix::create(rows, shared, &d1).unwrap();
    let m2 = Matrix::create(shared, cols, &d2).unwrap();

    let host = multiply_host(&m1, &m2, 0.0f32, plus, times).unwrap();
    let naive = multiply_naive(&m1, &m2, 0.0f32, plus, times).unwrap();
    let tiled = multiply_tiled(&m1, &m2, 0.0f32, plus, times).unwrap();
    let coarse = multiply_coarsened(&m1, &m2, 0.0f32, plus, times).unwrap();

    assert!(approx_eq(&naive, &host));
    assert!(approx_eq(&tiled, &host));
    assert!(approx_eq(&coarse, &host));
    // The models fold in the same order, so they even agree exactly.
    assert_eq!(naive.data, host.data);
    assert_eq!(tiled.data, host.data);
    assert_eq!(coarse.data, host.data);
}

#[test]
fn fresh_basic_strategy_has_no_stat() {
    let basic = BasicMultiplier::default();
    assert!(basic.stat().is_none());
}

#[test]
fn basic_stat_reports_zero_accelerator_time() {
    let mut basic = BasicMultiplier::default();
    let m1 = Matrix::create(2, 2, &vec![1.0f32; 4]).unwrap();
    let m2 = Matrix::create(2, 2, &vec![1.0f32; 4]).unwrap();
    basic.multiply(&m1, &m2, 0.0f32, plus, times).unwrap();
    let stat = basic.stat().unwrap();
    assert_eq!(stat.gpu_time, 0);
}

#[test]
fn empty_operands_multiply_to_empty() {
    let m1 = Matrix::<f32>::create(0, 0, &vec![]).unwrap();
    let m2 = Matrix::<f32>::create(0, 0, &vec![]).unwrap();
    let res = multiply_host(&m1, &m2, 0.0f32, plus, times).unwrap();
    assert_eq!(res.rows, 0);
    assert_eq!(res.cols, 0);
    assert!(res.data.is_empty());
}
