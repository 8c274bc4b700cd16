use matrix::matrix::Matrix;

#[test]
fn test_substraction() {
    let matrix_a = Matrix::new(vec![vec![4, 5, 6], vec![2, 3, 4]]).unwrap();
    let matrix_b = Matrix::new(vec![vec![2, 4, 6], vec![1, 2, 3]]).unwrap();
    let matrix_result = Matrix::new(vec![vec![2, 1, 0], vec![1, 1, 1]]).unwrap();

    assert_eq!(matrix_a.subtract(matrix_b).unwrap(), matrix_result);
}
