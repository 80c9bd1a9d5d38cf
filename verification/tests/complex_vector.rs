use complex_algebra::{Complex, ComplexVector};

#[test]
fn complex_vector_test_vector_add() {
    let v1 = ComplexVector(vec![
        Complex::new(6.0, -4.0),
        Complex::new(7.0, 3.0),
        Complex::new(4.2, -8.1),
        Complex::new(0.0, -3.0),
    ]);
    let v2 = ComplexVector(vec![
        Complex::new(16.0, 2.5),
        Complex::new(0.0, -7.0),
        Complex::new(6.0, 0.0),
        Complex::new(0.0, -4.0),
    ]);
    let v3 = ComplexVector(vec![
        Complex::new(22.0, -1.5),
        Complex::new(7.0, -4.0),
        Complex::new(10.2, -8.1),
        Complex::new(0.0, -7.0),
    ]);
    assert_eq!(v1.add(v2), Ok(v3));
}

#[test]
fn complex_vector_test_vector_product_scalar() {
    let v1 = ComplexVector(vec![
        Complex::new(6.0, 3.0),
        Complex::new(0.0, 0.0),
        Complex::new(5.0, 1.0),
        Complex::new(4.0, 0.0),
    ]);
    let v2 = ComplexVector(vec![
        Complex::new(12.0, 21.0),
        Complex::new(0.0, 0.0),
        Complex::new(13.0, 13.0),
        Complex::new(12.0, 8.0),
    ]);

    assert_eq!(v1.scalar_multiply(Complex::new(3.0, 2.0)), v2);
}

#[test]
fn complex_vector_test_vector_inverse() {
    let v1 = ComplexVector(vec![
        Complex::new(6.0, -4.0),
        Complex::new(7.0, 3.0),
        Complex::new(4.2, -8.1),
        Complex::new(0.0, -3.0),
    ]);
    let v2 = ComplexVector(vec![
        Complex::new(-6.0, 4.0),
        Complex::new(-7.0, -3.0),
        Complex::new(-4.2, 8.1),
        Complex::new(0.0, 3.0),
    ]);

    assert_eq!(v1.negate(), v2);
}

#[test]
fn test_inner_product() {
    let v1 = ComplexVector(vec![
        Complex::new(6.0, -4.0),
        Complex::new(7.0, 3.0),
        Complex::new(4.2, -8.1),
        Complex::new(0.0, -3.0),
    ]);
    let v2 = ComplexVector(vec![
        Complex::new(16.0, 2.5),
        Complex::new(0.0, -7.0),
        Complex::new(6.0, 0.0),
        Complex::new(0.0, -4.0),
    ]);

    assert_eq!(v1.inner_product(v2), Ok(Complex::new(102.2, 78.6)));
}

#[test]
fn test_distance() {
    let v1 = ComplexVector(vec![Complex::new(3.0, 0.0), Complex::new(1.0, 0.0), Complex::new(2.0, 0.0)]);
    let v2 = ComplexVector(vec![Complex::new(2.0, 0.0), Complex::new(2.0, 0.0), Complex::new(-1.0, 0.0)]);

    assert_eq!(
        v1.clone().distance_to(v2.clone(), f64::sqrt),
        v2.clone().distance_to(v1.clone(), f64::sqrt)
    );
    assert_eq!(v1.distance_to(v2, f64::sqrt), Ok(11f64.sqrt()));
}
