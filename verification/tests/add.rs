use matrix::matrix::Matrix;

#[test]
fn test_addition() {
    let matrix_a = Matrix::new(vec![vec![1, 5], vec![-4, 3]]).unwrap();
    let matrix_b = Matrix::new(vec![vec![2, -1], vec![4, -1]]).unwrap();
    let matrix_result = Matrix::new(vec![vec![3, 4], vec![0, 2]]).unwrap();

    assert_eq!(matrix_a.add(matrix_b).unwrap(), matrix_result);
}
