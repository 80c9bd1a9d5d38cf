use complex_algebra::{AlgebraError, Cartesian, Complex, ComplexMatrix, ComplexVector, Polar};

#[test]
fn sum_and_product_of_two_numbers() {
    let a = Complex::new(-1.0, 3.0);
    let b = Complex::new(9.0, -5.0);
    assert_eq!(a.add(b), Complex::new(8.0, -2.0));
    assert_eq!(a.multiply(b), Complex::new(6.0, 32.0));
}

#[test]
fn difference_of_two_numbers() {
    let a = Complex::new(9.0, 3.0);
    let b = Complex::new(10.0, -5.0);
    assert_eq!(a.subtract(b), Complex::new(-1.0, 8.0));
    assert_eq!(a.subtract(b), a.add(b.negate()));
}

#[test]
fn quotient_and_absolute_value() {
    let q: Complex<f64> = Complex::new(9.0, 3.0).divide(Complex::new(10.0, -5.0)).unwrap();
    assert!(f64::abs(q.real - 0.6) < 1e-12);
    assert!(f64::abs(q.imaginary - 0.6) < 1e-12);
    assert_eq!(Complex::new(9.0, 3.0).abs(f64::sqrt), f64::sqrt(90.0));
}

#[test]
fn quotient_by_exact_formula() {
    // (1 + 2i) / (3 + 4i): (3 + 8) / 25 and (6 - 4) / 25.
    let q = Complex::new(1.0, 2.0).divide(Complex::new(3.0, 4.0)).unwrap();
    assert_eq!(q, Complex::new(11.0 / 25.0, 2.0 / 25.0));
}

#[test]
fn division_by_zero_is_refused() {
    let a = Complex::new(4.0, 2.0);
    assert_eq!(a.divide(Complex::new(0.0, 0.0)), Err(AlgebraError::DivisionByZero));
    assert_eq!(a.divide(Complex::new(-0.0, 0.0)), Err(AlgebraError::DivisionByZero));
    assert_eq!(a.divide(Complex::new(0.0, -0.0)), Err(AlgebraError::DivisionByZero));
}

#[test]
fn division_by_a_tiny_number_is_not_refused() {
    let a = Complex::new(4.0, 2.0);
    assert!(a.divide(Complex::new(0.0, 1e-300)).is_ok());
    assert!(a.divide(Complex::new(1e-300, 0.0)).is_ok());
    assert_eq!(a.divide(Complex::new(0.0, 2.0)), Ok(Complex::new(1.0, -2.0)));
}

#[test]
fn cartesian_is_the_two_parts() {
    let c = Complex::new(-2.5, 7.0);
    assert_eq!(c.to_cartesian(), Cartesian(-2.5, 7.0));
    assert_eq!(Complex::from_cartesian(Cartesian(-2.5, 7.0)), c);
}

#[test]
fn polar_and_back() {
    let polar = Cartesian(1.0, 1.0).to_polar(f64::sqrt, f64::atan);
    assert_eq!(polar, Polar(f64::sqrt(2.0), f64::atan(1.0)));
    let Cartesian(x, y) = polar.to_cartesian(f64::cos, f64::sin);
    assert!(f64::abs(x - 1.0) < 0.01 && f64::abs(y - 1.0) < 0.01);
}

#[test]
fn polar_of_a_complex_number() {
    let c = Complex::new(3.0, 4.0);
    assert_eq!(c.to_polar(f64::sqrt, f64::atan), Polar(5.0, f64::atan(4.0 / 3.0)));
    let back = Complex::from_polar(Polar(2.0, 0.0), f64::cos, f64::sin);
    assert_eq!(back, Complex::new(2.0, 0.0));
}

#[test]
fn phase_ignores_the_quadrant() {
    let first = Complex::new(1.0, 1.0).to_polar(f64::sqrt, f64::atan);
    let third = Complex::new(-1.0, -1.0).to_polar(f64::sqrt, f64::atan);
    assert_eq!(first, third);
}

#[test]
fn sum_of_a_list() {
    let none: Vec<Complex<f64>> = Vec::new();
    assert_eq!(Complex::sum(&none), Complex::new(0.0, 0.0));
    let some = vec![Complex::new(1.0, 2.0), Complex::new(3.0, -4.0), Complex::new(-0.5, 0.25)];
    assert_eq!(Complex::sum(&some), Complex::new(3.5, -1.75));
}

#[test]
fn add_assign_adds_in_place() {
    let mut total = Complex::new(1.0, 2.0);
    total.add_assign(Complex::new(3.0, -4.0));
    assert_eq!(total, Complex::new(4.0, -2.0));
}

#[test]
fn vector_difference_and_length() {
    let a = ComplexVector(vec![Complex::new(3.0, 0.0), Complex::new(1.0, 2.0)]);
    let b = ComplexVector(vec![Complex::new(2.0, 1.0), Complex::new(2.0, -2.0)]);
    assert_eq!(a.len(), 2);
    assert_eq!(
        a.subtract(b),
        Ok(ComplexVector(vec![Complex::new(1.0, -1.0), Complex::new(-1.0, 4.0)]))
    );
}

#[test]
fn vector_operations_refuse_unequal_lengths() {
    let two = ComplexVector(vec![Complex::new(1.0, 0.0), Complex::new(2.0, 0.0)]);
    let one = ComplexVector(vec![Complex::new(1.0, 0.0)]);
    assert_eq!(two.clone().subtract(one.clone()), Err(AlgebraError::DimensionMismatch));
    assert_eq!(two.clone().inner_product(one.clone()), Err(AlgebraError::DimensionMismatch));
    assert_eq!(two.distance_to(one, f64::sqrt), Err(AlgebraError::DimensionMismatch));
}

#[test]
fn inner_product_conjugates_the_first_argument() {
    let a = ComplexVector(vec![Complex::new(0.0, 1.0)]);
    let b = ComplexVector(vec![Complex::new(0.0, 1.0)]);
    // conjugate(i) * i = -i * i = 1
    assert_eq!(a.inner_product(b), Ok(Complex::new(1.0, 0.0)));
    let c = ComplexVector(vec![Complex::new(1.0, 2.0)]);
    let d = ComplexVector(vec![Complex::new(3.0, 4.0)]);
    // (1 - 2i)(3 + 4i) = 11 - 2i
    assert_eq!(c.inner_product(d), Ok(Complex::new(11.0, -2.0)));
}

#[test]
fn norm_and_distance_by_exact_values() {
    let v = ComplexVector(vec![Complex::new(3.0, 0.0), Complex::new(0.0, 4.0)]);
    assert_eq!(v.norm(f64::sqrt), 5.0);
    let a = ComplexVector(vec![Complex::new(4.0, 1.0), Complex::new(2.0, 2.0)]);
    let b = ComplexVector(vec![Complex::new(1.0, 1.0), Complex::new(2.0, -2.0)]);
    assert_eq!(a.distance_to(b, f64::sqrt), Ok(5.0));
}

#[test]
fn empty_vectors() {
    let none: ComplexVector<f64> = ComplexVector(Vec::new());
    assert_eq!(none.clone().add(none.clone()), Ok(ComplexVector(Vec::new())));
    assert_eq!(none.clone().negate(), ComplexVector(Vec::new()));
    assert_eq!(none.clone().inner_product(none.clone()), Ok(Complex::new(0.0, 0.0)));
    assert_eq!(none.norm(f64::sqrt), 0.0);
}

#[test]
fn matrix_needs_rows_times_columns_elements() {
    let two = vec![Complex::new(1.0, 0.0), Complex::new(2.0, 0.0)];
    assert_eq!(ComplexMatrix::new(two.clone(), 2, 2), Err(AlgebraError::ShapeMismatch));
    assert_eq!(ComplexMatrix::new(two.clone(), 3, 1), Err(AlgebraError::ShapeMismatch));
    assert_eq!(ComplexMatrix::new(two.clone(), 0, 0), Err(AlgebraError::ShapeMismatch));
    assert_eq!(ComplexMatrix::new(two.clone(), usize::MAX, 2), Err(AlgebraError::ShapeMismatch));
    assert_eq!(ComplexMatrix::new(two.clone(), 2, 1).unwrap().dimensions(), (2, 1));
    assert_eq!(ComplexMatrix::new(two, 1, 2).unwrap().dimensions(), (1, 2));
    let none: Vec<Complex<f64>> = Vec::new();
    assert_eq!(ComplexMatrix::new(none.clone(), 0, 5).unwrap().dimensions(), (0, 5));
    assert_eq!(ComplexMatrix::new(none, 5, 0).unwrap().dimensions(), (5, 0));
}

#[test]
fn cells_are_kept_row_after_row() {
    let m = ComplexMatrix::new(
        vec![
            Complex::new(0.0, 0.0),
            Complex::new(0.0, 1.0),
            Complex::new(0.0, 2.0),
            Complex::new(1.0, 0.0),
            Complex::new(1.0, 1.0),
            Complex::new(1.0, 2.0),
        ],
        2,
        3,
    )
    .unwrap();
    for row in 0..2 {
        for column in 0..3 {
            assert_eq!(m.at(row, column), Ok(Complex::new(row as f64, column as f64)));
        }
    }
    assert_eq!(m.at(2, 0), Err(AlgebraError::OutOfRange));
    assert_eq!(m.at(0, 3), Err(AlgebraError::OutOfRange));
    assert_eq!(m.at(2, 3), Err(AlgebraError::OutOfRange));
    assert_eq!(m.at(usize::MAX, usize::MAX), Err(AlgebraError::OutOfRange));
}

#[test]
fn writing_a_cell_changes_that_cell_only() {
    let mut m = ComplexMatrix::new(vec![Complex::new(0.0, 0.0); 6], 2, 3).unwrap();
    assert_eq!(m.set(1, 2, Complex::new(5.0, -5.0)), Ok(()));
    assert_eq!(m.set(0, 1, Complex::new(7.0, 7.0)), Ok(()));
    let expected = ComplexMatrix::new(
        vec![
            Complex::new(0.0, 0.0),
            Complex::new(7.0, 7.0),
            Complex::new(0.0, 0.0),
            Complex::new(0.0, 0.0),
            Complex::new(0.0, 0.0),
            Complex::new(5.0, -5.0),
        ],
        2,
        3,
    )
    .unwrap();
    assert_eq!(m, expected);
    assert_eq!(m.set(2, 0, Complex::new(1.0, 1.0)), Err(AlgebraError::OutOfRange));
    assert_eq!(m.set(0, 3, Complex::new(1.0, 1.0)), Err(AlgebraError::OutOfRange));
    assert_eq!(m, expected);
}

#[test]
fn matrices_of_different_shape_do_not_add() {
    let a = ComplexMatrix::new(vec![Complex::new(1.0, 0.0); 6], 2, 3).unwrap();
    let b = ComplexMatrix::new(vec![Complex::new(1.0, 0.0); 6], 3, 2).unwrap();
    assert_eq!(a.add(b), Err(AlgebraError::ShapeMismatch));
    let c = ComplexMatrix::new(vec![Complex::new(1.0, 0.0); 6], 2, 3).unwrap();
    let d = ComplexMatrix::new(vec![Complex::new(1.0, 0.0); 6], 1, 6).unwrap();
    assert_eq!(c.add(d), Err(AlgebraError::ShapeMismatch));
}

#[test]
fn product_has_outer_shape() {
    let a = ComplexMatrix::new(
        vec![Complex::new(1.0, 0.0), Complex::new(2.0, 0.0), Complex::new(3.0, 0.0)],
        1,
        3,
    )
    .unwrap();
    let b = ComplexMatrix::new(
        vec![
            Complex::new(1.0, 1.0),
            Complex::new(0.0, 0.0),
            Complex::new(0.0, 1.0),
            Complex::new(1.0, 0.0),
            Complex::new(2.0, 0.0),
            Complex::new(0.0, -1.0),
        ],
        3,
        2,
    )
    .unwrap();
    let product = a.multiply(b).unwrap();
    assert_eq!(product.dimensions(), (1, 2));
    assert_eq!(product.at(0, 0), Ok(Complex::new(7.0, 3.0)));
    assert_eq!(product.at(0, 1), Ok(Complex::new(2.0, -3.0)));
}

#[test]
fn product_over_no_inner_dimension_is_zero() {
    let none: Vec<Complex<f64>> = Vec::new();
    let a = ComplexMatrix::new(none.clone(), 2, 0).unwrap();
    let b = ComplexMatrix::new(none, 0, 3).unwrap();
    let zero = ComplexMatrix::new(vec![Complex::new(0.0, 0.0); 6], 2, 3).unwrap();
    assert_eq!(a.multiply(b), Ok(zero));
}

#[test]
fn matrix_and_vector_must_fit() {
    let m = ComplexMatrix::new(vec![Complex::new(1.0, 0.0); 6], 2, 3).unwrap();
    let v = ComplexVector(vec![Complex::new(1.0, 0.0), Complex::new(1.0, 0.0)]);
    assert_eq!(
        complex_algebra::product_matrix_vector(m, v),
        Err(AlgebraError::ShapeMismatch)
    );
}

#[test]
fn matrix_scaling_multiplies_from_the_left() {
    let m = ComplexMatrix::new(vec![Complex::new(1.0, 2.0), Complex::new(0.0, -1.0)], 1, 2).unwrap();
    let scaled = m.scalar_multiply(Complex::new(0.0, 2.0));
    let expected =
        ComplexMatrix::new(vec![Complex::new(-4.0, 2.0), Complex::new(2.0, 0.0)], 1, 2).unwrap();
    assert_eq!(scaled, expected);
}

#[test]
fn whole_number_scalars_work_too() {
    let a = Complex::<i64>::new(-1, 3);
    let b = Complex::<i64>::new(9, -5);
    assert_eq!(a.add(b), Complex::new(8, -2));
    assert_eq!(a.multiply(b), Complex::new(6, 32));
    assert_eq!(a.conjugate(), Complex::new(-1, -3));
    assert_eq!(a.divide(Complex::new(0, 0)), Err(AlgebraError::DivisionByZero));
    let m = ComplexMatrix::new(
        vec![Complex::new(1, 0), Complex::new(2, 0), Complex::new(3, 0), Complex::new(4, 0)],
        2,
        2,
    )
    .unwrap();
    let v = ComplexVector(vec![Complex::new(1, 0), Complex::new(2, 0)]);
    assert_eq!(
        complex_algebra::product_matrix_vector(m, v),
        Ok(ComplexVector(vec![Complex::new(5, 0), Complex::new(11, 0)]))
    );
}
