use matrix::matrix::Matrix;

#[test]
fn test_scalar_multiplication() {
    let matrix_to_be_multiplied = Matrix::new(vec![vec![4, 0], vec![1, -9]]).unwrap();
    let matrix_result = Matrix::new(vec![vec![8, 0], vec![2, -18]]).unwrap();

    assert_eq!(Matrix::scale(2, matrix_to_be_multiplied), matrix_result);
}
