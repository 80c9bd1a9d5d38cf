//! The laws of complex algebra, for scalars that compute exactly.
//!
//! A scalar computes exactly where its values can be read as real numbers, no
//! two of them as the same number, so that whatever one of its operators
//! evaluates to reads as the result of that operation on the real numbers.
//! Such a scalar has no result to give where the true one is not among its
//! values. Arithmetic that rounds, wraps or saturates does not compute
//! exactly, and none of the laws below is claimed of it.

use vstd::prelude::*;
use crate::complex_number::Complex;
use crate::complex_vector::{each_adds_to, each_negates_to};
use crate::scalar;
use crate::scalar::Scalar;

verus! {

/// `x` and `y` read as the same real number.
pub open spec fn read_alike<R: Scalar>(value: spec_fn(R) -> real, x: R, y: R) -> bool {
    value(x) == value(y)
}

/// Under `value`, the scalar is an exact ring: `value` tells any two scalars
/// apart, the zero reads as `0`, the equality test tells whether its operands
/// are the same, and a sum, a difference, a product and a negation read as
/// the sum, the difference, the product and the negation of what their
/// operands read as.
pub open spec fn exact_ring<R: Scalar>(value: spec_fn(R) -> real) -> bool {
    &&& forall|x: R, y: R| #[trigger] read_alike(value, x, y) ==> x == y
    &&& forall|z: R| #[trigger] scalar::zero_value(z) ==> value(z) == 0real
    &&& forall|x: R, y: R, b: bool| #[trigger] scalar::equality_of(x, y, b) ==> b == (x == y)
    &&& forall|x: R, y: R, r: R| #[trigger]
        scalar::adds_to(x, y, r) ==> value(r) == value(x) + value(y)
    &&& forall|x: R, y: R, r: R| #[trigger]
        scalar::subtracts_to(x, y, r) ==> value(r) == value(x) - value(y)
    &&& forall|x: R, y: R, r: R| #[trigger]
        scalar::multiplies_to(x, y, r) ==> value(r) == value(x) * value(y)
    &&& forall|x: R, r: R| #[trigger] scalar::negates_to(x, r) ==> value(r) == -value(x)
}

/// Under `value`, the scalar is an exact field: an exact ring in which a
/// quotient by a divisor other than zero, times the divisor, reads as the
/// dividend.
pub open spec fn exact_field<R: Scalar>(value: spec_fn(R) -> real) -> bool {
    &&& exact_ring(value)
    &&& forall|x: R, y: R, r: R| #[trigger]
        scalar::divides_to(x, y, r) && value(y) != 0real ==> value(r) * value(y) == value(x)
}

/// `root` is a function: it takes one argument to one result.
pub open spec fn single_valued<R: Scalar, F: Fn(R) -> R>(root: F) -> bool {
    forall|x: R, r1: R, r2: R|
        #[trigger] call_ensures(root, (x,), r1) && #[trigger] call_ensures(root, (x,), r2) ==> r1
            == r2
}

/// What the real part of `c` reads as.
pub open spec fn re<R: Scalar>(value: spec_fn(R) -> real, c: Complex<R>) -> real {
    value(c.real)
}

/// What the imaginary part of `c` reads as.
pub open spec fn im<R: Scalar>(value: spec_fn(R) -> real, c: Complex<R>) -> real {
    value(c.imaginary)
}

/// Two complex numbers that read the same are the same.
pub proof fn same_reading_same_number<R: Scalar>(
    value: spec_fn(R) -> real,
    x: Complex<R>,
    y: Complex<R>,
)
    requires
        exact_ring(value),
        re(value, x) == re(value, y),
        im(value, x) == im(value, y),
    ensures
        x == y,
{
    assert(read_alike(value, x.real, y.real));
    assert(read_alike(value, x.imaginary, y.imaginary));
}

/// A product reads as `(ac - bd) + (ad + bc)i`.
pub proof fn product_reads_exactly<R: Scalar>(
    value: spec_fn(R) -> real,
    x: Complex<R>,
    y: Complex<R>,
    r: Complex<R>,
)
    requires
        exact_ring(value),
        x.multiplies_to(y, r),
    ensures
        re(value, r) == re(value, x) * re(value, y) - im(value, x) * im(value, y),
        im(value, r) == re(value, x) * im(value, y) + im(value, x) * re(value, y),
{
}

/// A difference reads as the difference of what its operands read as.
pub proof fn difference_reads_exactly<R: Scalar>(
    value: spec_fn(R) -> real,
    x: Complex<R>,
    y: Complex<R>,
    r: Complex<R>,
)
    requires
        exact_ring(value),
        x.subtracts_to(y, r),
    ensures
        re(value, r) == re(value, x) - re(value, y),
        im(value, r) == im(value, x) - im(value, y),
{
}

/// Additive identity: `x + 0` is `x`.
pub proof fn add_zero<R: Scalar>(
    value: spec_fn(R) -> real,
    x: Complex<R>,
    zero: Complex<R>,
    r: Complex<R>,
)
    requires
        exact_ring(value),
        zero.is_zero(),
        x.adds_to(zero, r),
    ensures
        r == x,
{
    same_reading_same_number(value, r, x);
}

/// Additive identity, coordinate by coordinate: of vectors, and of the cells
/// of matrices of one shape, `a + 0` is `a`.
pub proof fn each_add_zero<R: Scalar>(
    value: spec_fn(R) -> real,
    a: Seq<Complex<R>>,
    zero: Seq<Complex<R>>,
    r: Seq<Complex<R>>,
)
    requires
        exact_ring(value),
        zero.len() == a.len(),
        forall|i: int| 0 <= i < zero.len() ==> (#[trigger] zero[i]).is_zero(),
        each_adds_to(a, zero, r),
    ensures
        r == a,
{
    assert forall|i: int| 0 <= i < a.len() implies r[i] == a[i] by {
        add_zero(value, a[i], zero[i], r[i]);
    }
    assert(r =~= a);
}

/// Multiplicative identity: `x * 1` is `x`, for any `one` that reads as `1 + 0i`.
pub proof fn multiply_by_one<R: Scalar>(
    value: spec_fn(R) -> real,
    x: Complex<R>,
    one: Complex<R>,
    r: Complex<R>,
)
    requires
        exact_ring(value),
        re(value, one) == 1real,
        im(value, one) == 0real,
        x.multiplies_to(one, r),
    ensures
        r == x,
{
    product_reads_exactly(value, x, one, r);
    assert(re(value, r) == re(value, x)) by (nonlinear_arith)
        requires
            re(value, r) == re(value, x) * re(value, one) - im(value, x) * im(value, one),
            re(value, one) == 1real,
            im(value, one) == 0real,
    ;
    assert(im(value, r) == im(value, x)) by (nonlinear_arith)
        requires
            im(value, r) == re(value, x) * im(value, one) + im(value, x) * re(value, one),
            re(value, one) == 1real,
            im(value, one) == 0real,
    ;
    same_reading_same_number(value, r, x);
}

/// Negation is its own inverse: `-(-x)` is `x`.
pub proof fn negate_twice<R: Scalar>(
    value: spec_fn(R) -> real,
    x: Complex<R>,
    once: Complex<R>,
    twice: Complex<R>,
)
    requires
        exact_ring(value),
        x.negates_to(once),
        once.negates_to(twice),
    ensures
        twice == x,
{
    same_reading_same_number(value, twice, x);
}

/// Negation is its own inverse, coordinate by coordinate: of vectors, and of
/// the cells of matrices, `-(-a)` is `a`.
pub proof fn each_negate_twice<R: Scalar>(
    value: spec_fn(R) -> real,
    a: Seq<Complex<R>>,
    once: Seq<Complex<R>>,
    twice: Seq<Complex<R>>,
)
    requires
        exact_ring(value),
        each_negates_to(a, once),
        each_negates_to(once, twice),
    ensures
        twice == a,
{
    assert forall|i: int| 0 <= i < a.len() implies twice[i] == a[i] by {
        negate_twice(value, a[i], once[i], twice[i]);
    }
    assert(twice =~= a);
}

/// A number and its negation add up to zero: `x + (-x)` is zero.
pub proof fn add_negation<R: Scalar>(
    value: spec_fn(R) -> real,
    x: Complex<R>,
    negated: Complex<R>,
    r: Complex<R>,
    zero: Complex<R>,
)
    requires
        exact_ring(value),
        zero.is_zero(),
        x.negates_to(negated),
        x.adds_to(negated, r),
    ensures
        r == zero,
{
    same_reading_same_number(value, r, zero);
}

/// A vector and its negation, or the cells of a matrix and of its negation,
/// add up to zero in every place.
pub proof fn each_add_negation<R: Scalar>(
    value: spec_fn(R) -> real,
    a: Seq<Complex<R>>,
    negated: Seq<Complex<R>>,
    r: Seq<Complex<R>>,
    zero: Complex<R>,
)
    requires
        exact_ring(value),
        zero.is_zero(),
        each_negates_to(a, negated),
        each_adds_to(a, negated, r),
    ensures
        r.len() == a.len(),
        forall|i: int| 0 <= i < r.len() ==> #[trigger] r[i] == zero,
{
    assert forall|i: int| 0 <= i < r.len() implies #[trigger] r[i] == zero by {
        add_negation(value, a[i], negated[i], r[i], zero);
    }
}

/// Division and multiplication undo each other: `(a / b) * b` is `a`, for
/// every `b` that does not test as zero.
pub proof fn divide_then_multiply<R: Scalar>(
    value: spec_fn(R) -> real,
    a: Complex<R>,
    b: Complex<R>,
    q: Complex<R>,
    r: Complex<R>,
)
    requires
        exact_field(value),
        b.zero_test(false),
        a.divides_to(b, q),
        q.multiplies_to(b, r),
    ensures
        r == a,
{
    let (den, re_num, im_num) = choose|den: R, re_num: R, im_num: R|
        {
            &&& scalar::products_add_to(b.real, b.real, b.imaginary, b.imaginary, den)
            &&& scalar::products_add_to(a.real, b.real, a.imaginary, b.imaginary, re_num)
            &&& scalar::products_subtract_to(b.real, a.imaginary, a.real, b.imaginary, im_num)
            &&& #[trigger] scalar::divides_to(re_num, den, q.real)
            &&& #[trigger] scalar::divides_to(im_num, den, q.imaginary)
        };
    let ar = re(value, a);
    let ai = im(value, a);
    let br = re(value, b);
    let bi = im(value, b);
    let qr = re(value, q);
    let qi = im(value, q);
    let d = value(den);
    assert(d == br * br + bi * bi);
    assert(value(re_num) == ar * br + ai * bi);
    assert(value(im_num) == br * ai - ar * bi);
    assert(br != 0real || bi != 0real) by {
        let z = choose|z: R|
            (#[trigger] scalar::zero_value(z)) && (scalar::equality_of(b.real, z, false) || (
            scalar::equality_of(b.real, z, true) && scalar::equality_of(b.imaginary, z, false)));
        assert(read_alike(value, b.real, z) ==> b.real == z);
        assert(read_alike(value, b.imaginary, z) ==> b.imaginary == z);
    }
    assert(d > 0real) by (nonlinear_arith)
        requires
            d == br * br + bi * bi,
            br != 0real || bi != 0real,
    ;
    assert(qr * d == ar * br + ai * bi);
    assert(qi * d == br * ai - ar * bi);
    product_reads_exactly(value, q, b, r);
    let rr = re(value, r);
    let ri = im(value, r);
    assert(rr * d == ar * d) by (nonlinear_arith)
        requires
            rr == qr * br - qi * bi,
            qr * d == ar * br + ai * bi,
            qi * d == br * ai - ar * bi,
            d == br * br + bi * bi,
    ;
    assert(ri * d == ai * d) by (nonlinear_arith)
        requires
            ri == qr * bi + qi * br,
            qr * d == ar * br + ai * bi,
            qi * d == br * ai - ar * bi,
            d == br * br + bi * bi,
    ;
    assert(rr == ar) by (nonlinear_arith)
        requires
            rr * d == ar * d,
            d > 0real,
    ;
    assert(ri == ai) by (nonlinear_arith)
        requires
            ri * d == ai * d,
            d > 0real,
    ;
    same_reading_same_number(value, r, a);
}

} // verus!
