//! Construction, padding and trimming of the matrix value type.

use matmul::error::{AccelStage, MulError};
use matmul::matrix::Matrix;

#[test]
fn create_accepts_matching_data() {
    let m = Matrix::create(2, 3, &vec![1.0f32, 2.0, 3.0, 4.0, 5.0, 6.0]).unwrap();
    assert_eq!(m.rows, 2);
    assert_eq!(m.cols, 3);
    assert_eq!(m.data, vec![1.0f32, 2.0, 3.0, 4.0, 5.0, 6.0]);
}

#[test]
fn create_rejects_wrong_length() {
    let res = Matrix::<f32>::create(2, 3, &vec![1.0f32, 2.0, 3.0]);
    assert!(matches!(res, Err(MulError::InvalidConstruction)));
}

#[test]
fn create_zero_dimension_needs_empty_data() {
    assert!(Matrix::<f32>::create(0, 5, &vec![]).is_ok());
    assert!(Matrix::<f32>::create(5, 0, &vec![]).is_ok());
    assert!(matches!(
        Matrix::<f32>::create(0, 5, &vec![1.0]),
        Err(MulError::InvalidConstruction)
    ));
}

#[test]
fn create_never_panics_on_huge_dimensions() {
    // The true product overflows usize; the data length cannot match it.
    let res = Matrix::<f32>::create(usize::MAX, 2, &vec![0.0; 4]);
    assert!(matches!(res, Err(MulError::InvalidConstruction)));
}

#[test]
fn create_empty_fills() {
    let m = Matrix::create_empty(3, 2, 7.5f32);
    assert_eq!(m.rows, 3);
    assert_eq!(m.cols, 2);
    assert_eq!(m.data, vec![7.5f32; 6]);
}

#[test]
fn get_and_set_are_row_major() {
    let mut m = Matrix::create(2, 2, &vec![1.0f32, 2.0, 3.0, 4.0]).unwrap();
    assert_eq!(m.get(0, 1), 2.0);
    assert_eq!(m.get(1, 0), 3.0);
    m.set(1, 0, 9.0);
    assert_eq!(m.get(1, 0), 9.0);
    assert_eq!(m.data, vec![1.0f32, 2.0, 9.0, 4.0]);
}

#[test]
fn zero_padding_rounds_both_dimensions_up() {
    let m = Matrix::create(2, 3, &vec![1.0f32, 2.0, 3.0, 4.0, 5.0, 6.0]).unwrap();
    let p = m.create_zero_padded(4, 0.0f32);
    assert_eq!(p.rows, 4);
    assert_eq!(p.cols, 4);
    for i in 0..4 {
        for j in 0..4 {
            let expected = if i < 2 && j < 3 { m.get(i, j) } else { 0.0 };
            assert_eq!(p.get(i, j), expected);
        }
    }
}

#[test]
fn zero_padding_copies_when_already_aligned() {
    // Both dimensions divide the tile evenly, so the size stays put.
    let m = Matrix::create(4, 4, &vec![1.0f32; 16]).unwrap();
    let p = m.create_zero_padded(4, 0.0f32);
    assert_eq!(p.rows, 4);
    assert_eq!(p.cols, 4);
    assert_eq!(p.data, m.data);
}

#[test]
fn zero_padding_pads_when_only_columns_misalign() {
    let m = Matrix::create(4, 3, &vec![2.0f32; 12]).unwrap();
    let p = m.create_zero_padded(4, 0.0f32);
    assert_eq!(p.rows, 4);
    assert_eq!(p.cols, 4);
    assert_eq!(p.get(0, 3), 0.0);
    assert_eq!(p.get(0, 2), 2.0);
}

#[test]
fn trimming_takes_the_top_left_block() {
    let m = Matrix::create(3, 3, &vec![1.0f32, 2.0, 3.0, 4.0, 5.0, 6.0, 7.0, 8.0, 9.0]).unwrap();
    let t = m.create_trimmed(2, 2);
    assert_eq!(t.rows, 2);
    assert_eq!(t.cols, 2);
    assert_eq!(t.data, vec![1.0f32, 2.0, 4.0, 5.0]);
}

#[test]
fn iter_exposes_the_raw_data() {
    let m = Matrix::create(2, 2, &vec![1.0f32, 2.0, 3.0, 4.0]).unwrap();
    let collected: Vec<f32> = m.iter().iter().copied().collect();
    assert_eq!(collected, vec![1.0f32, 2.0, 3.0, 4.0]);
}

#[test]
fn clone_is_independent() {
    let m = Matrix::create(2, 2, &vec![1.0f32, 2.0, 3.0, 4.0]).unwrap();
    let mut c = m.clone();
    c.set(0, 0, 8.0);
    assert_eq!(m.get(0, 0), 1.0);
    assert_eq!(c.get(0, 0), 8.0);
}

#[test]
fn error_values_carry_their_payloads() {
    let e = MulError::DeviceNotFound { index: 2, available: 1 };
    assert_eq!(e, MulError::DeviceNotFound { index: 2, available: 1 });
    assert_ne!(e, MulError::DeviceNotFound { index: 1, available: 1 });
    let a = MulError::AcceleratorError { stage: AccelStage::Compile, code: -11 };
    assert_ne!(a, MulError::AcceleratorError { stage: AccelStage::Read, code: -11 });
    assert_ne!(MulError::FormatError, MulError::InvalidConstruction);
}
