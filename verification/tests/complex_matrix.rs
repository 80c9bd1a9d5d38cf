use complex_algebra::{product_matrix_vector, Complex, ComplexMatrix, ComplexVector};

#[test]
fn test_vector_matrix() {
    let v = ComplexVector(vec![
        Complex::new(1.0, 0.0),
        Complex::new(0.0, 0.0),
        Complex::new(0.0, 0.0),
        Complex::new(1.0, 0.0),
    ]);
    let m = ComplexMatrix::new(
        vec![
            Complex::new(1.0, 0.0),
            Complex::new(0.0, 0.0),
            Complex::new(0.0, 0.0),
            Complex::new(1.0, 0.0),
        ],
        4,
        1,
    )
    .unwrap();
    assert_eq!(ComplexMatrix::from_vector(v), m);
}

#[test]
fn test_matrix_product_vector() {
    let m = ComplexMatrix::new(
        vec![
            Complex::new(1.0, 0.0),
            Complex::new(2.0, 0.0),
            Complex::new(3.0, 0.0),
            Complex::new(4.0, 0.0),
        ],
        2,
        2,
    )
    .unwrap();
    let v1 = ComplexVector(vec![Complex::new(1.0, 0.0), Complex::new(2.0, 0.0)]);
    let v2 = ComplexVector(vec![Complex::new(5.0, 0.0), Complex::new(11.0, 0.0)]);
    assert_eq!(product_matrix_vector(m, v1), Ok(v2));
}

#[test]
fn test_matrix_add() {
    let m1 = ComplexMatrix::new(
        vec![
            Complex::new(1.0, 0.0),
            Complex::new(0.0, 0.0),
            Complex::new(0.0, 0.0),
            Complex::new(1.0, 0.0),
        ],
        2,
        2,
    )
    .unwrap();
    let m2 = ComplexMatrix::new(
        vec![
            Complex::new(1.0, 0.0),
            Complex::new(0.0, 0.0),
            Complex::new(0.0, 0.0),
            Complex::new(1.0, 0.0),
        ],
        2,
        2,
    )
    .unwrap();
    let m3 = ComplexMatrix::new(
        vec![
            Complex::new(2.0, 0.0),
            Complex::new(0.0, 0.0),
            Complex::new(0.0, 0.0),
            Complex::new(2.0, 0.0),
        ],
        2,
        2,
    )
    .unwrap();
    assert_eq!(m1.add(m2), Ok(m3));
}

#[test]
fn test_matrix_product_scalar() {
    let m1 = ComplexMatrix::new(
        vec![
            Complex::new(0.0, 1.0),
            Complex::new(0.0, 0.0),
            Complex::new(0.0, 0.0),
            Complex::new(0.0, 1.0),
        ],
        2,
        2,
    )
    .unwrap();
    let m2 = ComplexMatrix::new(
        vec![
            Complex::new(-1.0, 0.0),
            Complex::new(0.0, 0.0),
            Complex::new(0.0, 0.0),
            Complex::new(-1.0, 0.0),
        ],
        2,
        2,
    )
    .unwrap();

    assert_eq!(m1.scalar_multiply(Complex::new(0.0, 1.0)), m2);
}

#[test]
fn test_matrix_inverse() {
    let m1 = ComplexMatrix::new(
        vec![
            Complex::new(6.0, -4.0),
            Complex::new(7.0, 3.0),
            Complex::new(4.2, -8.1),
            Complex::new(0.0, -3.0),
        ],
        2,
        2,
    )
    .unwrap();
    let m2 = ComplexMatrix::new(
        vec![
            Complex::new(-6.0, 4.0),
            Complex::new(-7.0, -3.0),
            Complex::new(-4.2, 8.1),
            Complex::new(0.0, 3.0),
        ],
        2,
        2,
    )
    .unwrap();

    assert_eq!(m1.negate(), m2);
}

#[test]
fn test_matrix_product() {
    let m1 = ComplexMatrix::new(
        vec![
            Complex::new(3.0, 2.0),
            Complex::new(0.0, 0.0),
            Complex::new(5.0, -6.0),
            Complex::new(1.0, 0.0),
            Complex::new(4.0, 2.0),
            Complex::new(0.0, 1.0),
            Complex::new(4.0, -1.0),
            Complex::new(0.0, 0.0),
            Complex::new(4.0, 0.0),
        ],
        3,
        3,
    )
    .unwrap();
    let m2 = ComplexMatrix::new(
        vec![
            Complex::new(5.0, 0.0),
            Complex::new(2.0, -1.0),
            Complex::new(6.0, -4.0),
            Complex::new(0.0, 0.0),
            Complex::new(4.0, 5.0),
            Complex::new(2.0, 0.0),
            Complex::new(7.0, -4.0),
            Complex::new(2.0, 7.0),
            Complex::new(0.0, 0.0),
        ],
        3,
        3,
    )
    .unwrap();
    let m3 = ComplexMatrix::new(
        vec![
            Complex::new(26.0, -52.0),
            Complex::new(60.0, 24.0),
            Complex::new(26.0, 0.0),
            Complex::new(9.0, 7.0),
            Complex::new(1.0, 29.0),
            Complex::new(14.0, 0.0),
            Complex::new(48.0, -21.0),
            Complex::new(15.0, 22.0),
            Complex::new(20.0, -22.0),
        ],
        3,
        3,
    )
    .unwrap();

    assert_eq!(m1.multiply(m2), Ok(m3));
}
