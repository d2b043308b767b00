use linalg::{Dot, LinalgError, Matrix, SqrMat, SquareMatrix, Vector};

fn mat(rows: &[&[i64]]) -> Matrix<i64> {
    let mut m = Matrix::from_row(&Vector::from(rows[0]));
    for r in &rows[1..] {
        m = m.push_row(&Vector::from(r)).unwrap();
    }
    m
}

#[test]
fn vector_from_copies_in_order() {
    let v = Vector::from(&[3i64, 1, 2]);
    assert_eq!(v.len(), 3);
    assert_eq!(v.data(), vec![3, 1, 2]);
    assert_eq!(*v.at(0), 3);
    assert_eq!(*v.at(2), 2);
}

#[test]
fn vector_from_vec_keeps_order_and_length() {
    let v = Vector::from_vec(vec![5i32, 4, 3, 2]);
    assert_eq!(v.data(), vec![5, 4, 3, 2]);
    let collected: Vec<i32> = v.iter().copied().collect();
    assert_eq!(collected, vec![5, 4, 3, 2]);
}

#[test]
fn vector_zeros_and_empty() {
    let v: Vector<u8> = Vector::zeros(4);
    assert_eq!(v.data(), vec![0, 0, 0, 0]);
    let e: Vector<u8> = Vector::zeros(0);
    assert_eq!(e.len(), 0);
}

#[test]
fn vector_set_and_mut_at() {
    let mut v = Vector::from(&[1i64, 2, 3]);
    v.set_at(1, 20);
    *v.mut_at(2) = 30;
    assert_eq!(v.data(), vec![1, 20, 30]);
}

#[test]
fn vector_plus_and_minus() {
    let a = Vector::from(&[1i64, 2, 3]);
    let b = Vector::from(&[10i64, 20, 30]);
    assert_eq!(a.plus(&b).unwrap().data(), vec![11, 22, 33]);
    assert_eq!(b.minus(&a).unwrap().data(), vec![9, 18, 27]);
}

#[test]
fn vector_elemwise_applies_op_per_position() {
    let a = Vector::from(&[1i64, 2, 3]);
    let b = Vector::from(&[4i64, 5, 6]);
    let r = a.elemwise(&b, |x: i64, y: i64| x * 10 + y).unwrap();
    assert_eq!(r.data(), vec![14, 25, 36]);
}

#[test]
fn vector_elemwise_length_mismatch() {
    let a = Vector::from(&[1i64, 2]);
    let b = Vector::from(&[1i64, 2, 3]);
    assert_eq!(a.plus(&b).unwrap_err(), LinalgError::IncompatibleDimensions);
    assert_eq!(a.minus(&b).unwrap_err(), LinalgError::IncompatibleDimensions);
    assert_eq!(a.assert_size(&b), Err(LinalgError::IncompatibleDimensions));
    assert_eq!(a.assert_size(&a), Ok(()));
}

#[test]
fn integer_elements_wrap() {
    let a = Vector::from(&[127i8, -128]);
    let b = Vector::from(&[1i8, 1]);
    assert_eq!(a.plus(&b).unwrap().data(), vec![-128, -127]);
    assert_eq!(b.minus(&a).unwrap().data(), vec![-126, -127]);
}

#[test]
fn vector_dot_value() {
    let a = Vector::from(&[1i64, 2, 3]);
    let b = Vector::from(&[4i64, 5, 6]);
    assert_eq!((&a).dot(&b), Ok(32));
    let e: Vector<i64> = Vector::from(&[]);
    assert_eq!((&e).dot(&e), Ok(0));
}

#[test]
fn vector_dot_commutes() {
    let a = Vector::from(&[3i64, -1, 7, 2]);
    let b = Vector::from(&[5i64, 4, -2, 9]);
    assert_eq!((&a).dot(&b), (&b).dot(&a));
    assert_eq!((&a).dot(&b), Ok(15 - 4 - 14 + 18));
}

#[test]
fn vector_dot_length_mismatch() {
    let a = Vector::from(&[1i64, 2]);
    let b = Vector::from(&[1i64, 2, 3]);
    assert_eq!((&a).dot(&b), Err(LinalgError::IncompatibleDimensions));
    assert_eq!((&b).dot(&a), Err(LinalgError::IncompatibleDimensions));
}

#[test]
fn vector_times_matrix() {
    let v = Vector::from(&[1i64, 2]);
    let m = mat(&[&[1, 2, 3], &[4, 5, 6]]);
    let r = (&v).dot(&m).unwrap();
    assert_eq!(r.data(), vec![9, 12, 15]);
}

#[test]
fn vector_times_matrix_mismatch() {
    let v = Vector::from(&[1i64, 2, 3]);
    let m = mat(&[&[1, 2, 3], &[4, 5, 6]]);
    assert_eq!((&v).dot(&m).unwrap_err(), LinalgError::IncompatibleDimensions);
}

#[test]
fn matrix_from_row_shape() {
    let m = Matrix::from_row(&Vector::from(&[1i64, 2, 3]));
    assert_eq!(m.row_len(), 3);
    assert_eq!(m.col_len(), 1);
    assert_eq!(m.size(), 3);
    assert_eq!(*m.data(), vec![1, 2, 3]);
}

#[test]
fn matrix_push_rows_round_trip() {
    let v = Vector::from(&[1i64, 2]);
    let m = Matrix::from_row(&v)
        .push_row(&Vector::from(&[3, 4]))
        .unwrap()
        .push_row(&Vector::from(&[5, 6]))
        .unwrap();
    assert_eq!(m.col_len(), 3);
    assert_eq!(m.row_len(), v.len());
    assert_eq!(*m.data(), vec![1, 2, 3, 4, 5, 6]);
    assert_eq!(*m.at(2, 1), 6);
}

#[test]
fn matrix_push_row_mismatch() {
    let m = Matrix::from_row(&Vector::from(&[1i64, 2]));
    let r = m.push_row(&Vector::from(&[1, 2, 3]));
    assert_eq!(r.unwrap_err(), LinalgError::IncompatibleDimensions);
}

#[test]
fn matrix_from_rows() {
    let rows = vec![Vector::from(&[1i64, 2]), Vector::from(&[3, 4]), Vector::from(&[5, 6])];
    let m = Matrix::from_rows(&rows).unwrap();
    assert_eq!(m.col_len(), 3);
    assert_eq!(m.row_len(), 2);
    assert_eq!(*m.data(), vec![1, 2, 3, 4, 5, 6]);
    let bad = vec![Vector::from(&[1i64, 2]), Vector::from(&[3])];
    assert_eq!(Matrix::from_rows(&bad).unwrap_err(), LinalgError::IncompatibleDimensions);
}

#[test]
fn matrix_push_col() {
    let m = mat(&[&[1, 2], &[3, 4], &[5, 6]]);
    let old_row_len = m.row_len();
    let r = m.push_col(&Vector::from(&[7, 8, 9])).unwrap();
    assert_eq!(r.row_len(), old_row_len + 1);
    assert_eq!(r.col_len(), 3);
    assert_eq!(*r.data(), vec![1, 2, 7, 3, 4, 8, 5, 6, 9]);
    for i in 0..3 {
        assert_eq!(*r.at(i, old_row_len), [7, 8, 9][i]);
    }
}

#[test]
fn matrix_push_col_mismatch() {
    let m = mat(&[&[1, 2], &[3, 4]]);
    let r = m.push_col(&Vector::from(&[7, 8, 9]));
    assert_eq!(r.unwrap_err(), LinalgError::IncompatibleDimensions);
}

#[test]
fn matrix_zeros_shape() {
    let m: Matrix<i32> = Matrix::zeros(2, 3);
    assert_eq!(m.col_len(), 2);
    assert_eq!(m.row_len(), 3);
    assert_eq!(*m.data(), vec![0; 6]);
    let empty: Matrix<i32> = Matrix::zeros(0, 3);
    assert_eq!(empty.col_len(), 0);
    assert_eq!(empty.size(), 0);
}

#[test]
fn matrix_set_data() {
    let m: Matrix<i64> = Matrix::zeros(2, 2);
    let m = m.set_data(vec![1, 2, 3, 4]).unwrap();
    assert_eq!(*m.at(1, 0), 3);
    let bad = m.set_data(vec![1, 2, 3]);
    assert_eq!(bad.unwrap_err(), LinalgError::LengthMismatch);
}

#[test]
fn matrix_size_checks() {
    let m = mat(&[&[1, 2, 3], &[4, 5, 6]]);
    assert_eq!(m.assert_row_size(&Vector::from(&[0, 0, 0])), Ok(()));
    assert_eq!(
        m.assert_row_size(&Vector::from(&[0, 0])),
        Err(LinalgError::IncompatibleDimensions)
    );
    assert_eq!(m.assert_col_size(&Vector::from(&[0, 0])), Ok(()));
    assert_eq!(
        m.assert_col_size(&Vector::from(&[0, 0, 0])),
        Err(LinalgError::IncompatibleDimensions)
    );
    assert!(!m.is_square());
    assert!(mat(&[&[1, 2], &[3, 4]]).is_square());
}

#[test]
fn matrix_product_value_and_shape() {
    let a = mat(&[&[1, 2, 3], &[4, 5, 6]]);
    let b = mat(&[&[7, 8, 9, 10], &[11, 12, 13, 14], &[15, 16, 17, 18]]);
    let c = (&a).dot(&b).unwrap();
    assert_eq!(c.col_len(), 2);
    assert_eq!(c.row_len(), 4);
    assert_eq!(*c.data(), vec![74, 80, 86, 92, 173, 188, 203, 218]);
}

#[test]
fn matrix_product_mismatch() {
    let a = mat(&[&[1, 2, 3], &[4, 5, 6]]);
    let b = mat(&[&[1, 2], &[3, 4]]);
    assert_eq!((&a).dot(&b).unwrap_err(), LinalgError::IncompatibleDimensions);
}

#[test]
fn matrix_identity_law() {
    let m = mat(&[&[1, 2, 3], &[4, 5, 6], &[7, 8, 9]]);
    let id: SqrMat<i64> = SquareMatrix::id(3).unwrap();
    let id = id.as_mat();
    assert_eq!(*(&m).dot(&id).unwrap().data(), *m.data());
    assert_eq!(*(&id).dot(&m).unwrap().data(), *m.data());
}

#[test]
fn identity_equals_zeros_with_unit_diagonal() {
    let mut m: Matrix<i64> = Matrix::zeros(2, 2);
    *m.mut_at(0, 0) = 1;
    *m.mut_at(1, 1) = 1;
    let id: SquareMatrix<i64> = SquareMatrix::id(2).unwrap();
    let id = id.as_mat();
    assert_eq!(*m.data(), *id.data());
    assert_eq!(m.row_len(), id.row_len());
    assert_eq!(*id.data(), vec![1, 0, 0, 1]);
}

#[test]
fn identity_of_order_zero_fails() {
    let r: Result<SquareMatrix<u32>, LinalgError> = SquareMatrix::id(0);
    assert_eq!(r.unwrap_err(), LinalgError::InvalidOrder);
}

#[test]
fn scalar_multiply() {
    let m = Matrix::from_row(&Vector::from(&[1i64, 2]));
    let r = m.mul_scalar(&2);
    assert_eq!(*r.data(), vec![2, 4]);
    assert_eq!(r.row_len(), 2);
}

#[test]
fn square_from_non_square_fails() {
    let m = Matrix::from_row(&Vector::from(&[1i64, 2]))
        .push_row(&Vector::from(&[3, 4]))
        .unwrap()
        .push_row(&Vector::from(&[5, 6]))
        .unwrap();
    assert_eq!(SquareMatrix::from(m.clone()).unwrap_err(), LinalgError::NotSquare);
    assert_eq!(m.to_sqrmat().unwrap_err(), LinalgError::NotSquare);
}

#[test]
fn square_matrix_accessors() {
    let m = mat(&[&[1, 2], &[3, 4]]);
    let mut s = m.to_sqrmat().unwrap();
    assert_eq!(s.order(), 2);
    assert_eq!(s.size(), 4);
    assert_eq!(*s.at(1, 0), 3);
    *s.mut_at(0, 1) = 20;
    assert_eq!(*s.as_mat().data(), vec![1, 20, 3, 4]);
    let z: SquareMatrix<u16> = SquareMatrix::zeros(3);
    assert_eq!(z.order(), 3);
    assert_eq!(*z.as_mat().data(), vec![0; 9]);
}
