use matrix::matrix::Matrix;

#[test]
fn test_matrix_multiplication() {
    let sample_a_matrix_a = Matrix::new(vec![vec![1, 2, 3], vec![4, 5, 6]]).unwrap();
    let sample_a_matrix_b = Matrix::new(vec![vec![7, 8], vec![9, 10], vec![11, 12]]).unwrap();
    let sample_a_matrix_result = Matrix::new(vec![vec![58, 64], vec![139, 154]]).unwrap();

    assert_eq!(
        sample_a_matrix_a.multiply(sample_a_matrix_b).unwrap(),
        sample_a_matrix_result
    );

    let sample_b1_matrix_a = Matrix::new(vec![vec![1, 2, 3]]).unwrap();
    let sample_b1_matrix_b = Matrix::new(vec![vec![4], vec![5], vec![6]]).unwrap();
    let sample_b1_matrix_result = Matrix::new(vec![vec![32]]).unwrap();

    assert_eq!(
        sample_b1_matrix_a.multiply(sample_b1_matrix_b).unwrap(),
        sample_b1_matrix_result
    );

    let sample_b2_matrix_a = Matrix::new(vec![vec![4], vec![5], vec![6]]).unwrap();
    let sample_b2_matrix_b = Matrix::new(vec![vec![1, 2, 3]]).unwrap();
    let sample_b2_matrix_result = Matrix::new(vec![
        vec![4, 8, 12],
        vec![5, 10, 15],
        vec![6, 12, 18],
    ])
    .unwrap();

    assert_eq!(
        sample_b2_matrix_a.multiply(sample_b2_matrix_b).unwrap(),
        sample_b2_matrix_result
    );

    let sample_c1_matrix_a = Matrix::new(vec![vec![1, 2], vec![3, 4]]).unwrap();
    let sample_c1_matrix_b = Matrix::new(vec![vec![2, 0], vec![1, 2]]).unwrap();
    let sample_c1_matrix_result = Matrix::new(vec![vec![4, 4], vec![10, 8]]).unwrap();

    assert_eq!(
        sample_c1_matrix_a.multiply(sample_c1_matrix_b).unwrap(),
        sample_c1_matrix_result
    );

    let sample_c2_matrix_a = Matrix::new(vec![vec![2, 0], vec![1, 2]]).unwrap();
    let sample_c2_matrix_b = Matrix::new(vec![vec![1, 2], vec![3, 4]]).unwrap();
    let sample_c2_matrix_result = Matrix::new(vec![vec![2, 4], vec![7, 10]]).unwrap();

    assert_eq!(
        sample_c2_matrix_a.multiply(sample_c2_matrix_b).unwrap(),
        sample_c2_matrix_result
    );

    let sample_d_matrix_a = Matrix::new(vec![
        vec![12, 8, 4],
        vec![3, 17, 14],
        vec![9, 8, 10],
    ])
    .unwrap();
    let sample_d_matrix_b = Matrix::new(vec![
        vec![5, 19, 3],
        vec![6, 15, 9],
        vec![7, 8, 16],
    ])
    .unwrap();
    let sample_d_matrix_result = Matrix::new(vec![
        vec![136, 380, 172],
        vec![215, 424, 386],
        vec![163, 371, 259],
    ])
    .unwrap();

    assert_eq!(
        sample_d_matrix_a.multiply(sample_d_matrix_b).unwrap(),
        sample_d_matrix_result
    );
}
