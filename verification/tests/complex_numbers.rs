use complex_algebra::{Cartesian, Complex, Polar};

#[test]
fn complex_numbers_test_add() {
    assert_eq!(Complex::new(-3.0, 1.0).add(Complex::new(2.0, -4.0)), Complex::new(-1.0, -3.0));
}

#[test]
fn complex_numbers_test_add_neutral() {
    let number1 = Complex::new(9.6, -3.4);
    let number2 = Complex::new(2.0, 8.0);
    assert_eq!(number1.add(Complex::new(0.0, 0.0)), number1);
    assert_eq!(number2.add(Complex::new(0.0, 0.0)), number2);
}

#[test]
fn complex_numbers_test_mul() {
    assert_eq!(Complex::new(-3.0, 1.0).multiply(Complex::new(2.0, -4.0)), Complex::new(-2.0, 14.0));
}

#[test]
fn complex_numbers_test_mul_identity() {
    let number1 = Complex::new(9.6, -3.4);
    let number2 = Complex::new(2.0, 8.0);
    assert_eq!(number1.multiply(Complex::new(1.0, 0.0)), number1);
    assert_eq!(number2.multiply(Complex::new(1.0, 0.0)), number2);
}

#[test]
fn complex_numbers_test_div() {
    assert_eq!(
        Complex::new(-2.0, 1.0).divide(Complex::new(1.0, 2.0)),
        Ok(Complex::new(0.0, 1.0))
    );
    assert_eq!(
        Complex::new(0.0, 3.0).divide(Complex::new(-1.0, -1.0)),
        Ok(Complex::new(-1.5, -1.5))
    );
}

#[test]
fn complex_numbers_test_neg() {
    assert_eq!(Complex::new(-3.0, 1.0).negate(), Complex::new(3.0, -1.0));
    assert_eq!(
        Complex::new(2.5, 4.8).negate(),
        Complex::new(2.5, 4.8).multiply(Complex::new(-1.0, 0.0))
    );
}

#[test]
fn complex_numbers_test_abs() {
    assert_eq!(Complex::new(4.0, -3.0).abs(f64::sqrt), 5.0);
}

#[test]
fn complex_numbers_test_conjugate() {
    assert_eq!(Complex::new(4.0, -3.0).conjugate(), Complex::new(4.0, 3.0));
    assert_eq!(Complex::new(0.0, 5.0).conjugate(), Complex::new(0.0, -5.0));
    assert_eq!(Complex::new(1.0, 0.0).conjugate(), Complex::new(1.0, 0.0));
}

#[test]
fn complex_numbers_test_cartesian_to_polar() {
    assert_eq!(
        Cartesian(1.0, 1.0).to_polar(f64::sqrt, f64::atan),
        Polar(f64::sqrt(2.0), f64::atan(1.0))
    );
}

#[test]
fn complex_numbers_test_polar_to_cartesian() {
    let Cartesian(x, y) = Polar(f64::sqrt(2.0), f64::atan(1.0)).to_cartesian(f64::cos, f64::sin);

    // Allow for some rounding errors.
    assert!(f64::abs(x - 1.0) < 0.01 && f64::abs(y - 1.0) < 0.01);
}
