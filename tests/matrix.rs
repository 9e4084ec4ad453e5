use vmar::basic_data_structures::matrix::Matrix;

#[test]
fn identity_matrix() {
    match Matrix::new_identity_matrix(3) {
        Some(m) => assert_eq!(*m.rows(), vec![vec![1, 0, 0], vec![0, 1, 0], vec![0, 0, 1]]),
        None => panic!(),
    }
}

#[test]
fn matrix_of_zero_width() {
    match Matrix::new(5, 0) {
        Some(_) => panic!(),
        None => (),
    }
}

#[test]
fn matrix_of_zero_height() {
    match Matrix::new(0, 5) {
        Some(_) => panic!(),
        None => (),
    }
}

#[test]
fn identity_matrix_of_zero_size() {
    match Matrix::new_identity_matrix(0) {
        Some(_) => panic!(),
        None => (),
    }
}

#[test]
fn zero_matrix_has_given_shape() {
    let m = Matrix::new(2, 3).unwrap();
    assert_eq!(*m.rows(), vec![vec![0, 0, 0], vec![0, 0, 0]]);
}

#[test]
fn transpose_swaps_rows_and_columns() {
    let m = Matrix::new(2, 3).unwrap().transpose();
    assert_eq!(*m.rows(), vec![vec![0, 0], vec![0, 0], vec![0, 0]]);
    let id = Matrix::new_identity_matrix(2).unwrap().transpose();
    assert_eq!(*id.rows(), vec![vec![1, 0], vec![0, 1]]);
}
