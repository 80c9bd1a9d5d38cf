//! The laws of the inner product and of the distance, for scalars that
//! compute exactly.

use vstd::prelude::*;
use crate::complex_number::{totals_to, Complex};
use crate::complex_vector::{
    distance_of,
    dot_product_of,
    each_conjugates_to,
    each_subtracts_to,
    inner_product_of,
    norm_of,
    product_terms,
};
use crate::laws::{
    difference_reads_exactly,
    exact_ring,
    im,
    product_reads_exactly,
    re,
    read_alike,
    same_reading_same_number,
    single_valued,
};
use crate::scalar::Scalar;

verus! {

/// The sum of a list of real numbers.
pub open spec fn sum_of(s: Seq<real>) -> real
    decreases s.len(),
{
    if s.len() == 0 {
        0real
    } else {
        sum_of(s.drop_last()) + s.last()
    }
}

/// What the real parts of `terms` read as, in order.
pub open spec fn re_readings<R: Scalar>(
    value: spec_fn(R) -> real,
    terms: Seq<Complex<R>>,
) -> Seq<real> {
    Seq::new(terms.len(), |i: int| re(value, terms[i]))
}

/// What the imaginary parts of `terms` read as, in order.
pub open spec fn im_readings<R: Scalar>(
    value: spec_fn(R) -> real,
    terms: Seq<Complex<R>>,
) -> Seq<real> {
    Seq::new(terms.len(), |i: int| im(value, terms[i]))
}

/// The sum of the negations is the negation of the sum.
pub proof fn sum_of_negated(s: Seq<real>, negated: Seq<real>)
    requires
        negated.len() == s.len(),
        forall|i: int| 0 <= i < s.len() ==> #[trigger] negated[i] == -s[i],
    ensures
        sum_of(negated) == -sum_of(s),
    decreases s.len(),
{
    if s.len() > 0 {
        sum_of_negated(s.drop_last(), negated.drop_last());
    }
}

/// A sum of numbers none of which is below zero is not below zero.
pub proof fn sum_of_none_below_zero(s: Seq<real>)
    requires
        forall|i: int| 0 <= i < s.len() ==> #[trigger] s[i] >= 0real,
    ensures
        sum_of(s) >= 0real,
    decreases s.len(),
{
    if s.len() > 0 {
        sum_of_none_below_zero(s.drop_last());
    }
}

/// A sum of zeros is zero.
pub proof fn sum_of_zeros(s: Seq<real>)
    requires
        forall|i: int| 0 <= i < s.len() ==> #[trigger] s[i] == 0real,
    ensures
        sum_of(s) == 0real,
    decreases s.len(),
{
    if s.len() > 0 {
        sum_of_zeros(s.drop_last());
    }
}

/// A total reads as the sum of what its terms read as.
pub proof fn total_reads_exactly<R: Scalar>(
    value: spec_fn(R) -> real,
    terms: Seq<Complex<R>>,
    total: Complex<R>,
)
    requires
        exact_ring(value),
        totals_to(terms, total),
    ensures
        re(value, total) == sum_of(re_readings(value, terms)),
        im(value, total) == sum_of(im_readings(value, terms)),
    decreases terms.len(),
{
    if terms.len() > 0 {
        let prev = choose|prev: Complex<R>|
            totals_to(terms.drop_last(), prev) && #[trigger] prev.adds_to(terms.last(), total);
        total_reads_exactly(value, terms.drop_last(), prev);
        assert(re_readings(value, terms).drop_last() =~= re_readings(value, terms.drop_last()));
        assert(im_readings(value, terms).drop_last() =~= im_readings(value, terms.drop_last()));
    }
}

/// What goes into an inner product: the conjugate of the first argument, the
/// products of it with the second, and that they total to the result.
pub open spec fn inner_product_steps<R: Scalar>(
    a: Seq<Complex<R>>,
    b: Seq<Complex<R>>,
    conjugate: Seq<Complex<R>>,
    terms: Seq<Complex<R>>,
    r: Complex<R>,
) -> bool {
    &&& each_conjugates_to(a, conjugate)
    &&& terms.len() == a.len()
    &&& product_terms(conjugate, b, terms)
    &&& totals_to(terms, r)
}

/// An inner product has its steps.
pub proof fn inner_product_has_steps<R: Scalar>(
    a: Seq<Complex<R>>,
    b: Seq<Complex<R>>,
    r: Complex<R>,
) -> (steps: (Seq<Complex<R>>, Seq<Complex<R>>))
    requires
        inner_product_of(a, b, r),
    ensures
        inner_product_steps(a, b, steps.0, steps.1, r),
{
    let conjugate = choose|c: Seq<Complex<R>>|
        each_conjugates_to(a, c) && #[trigger] dot_product_of(c, b, r);
    let terms = choose|terms: Seq<Complex<R>>|
        terms.len() == conjugate.len() && product_terms(conjugate, b, terms)
            && #[trigger] totals_to(terms, r);
    (conjugate, terms)
}

/// Term `i` of an inner product reads as `conjugate(a[i]) * b[i]`:
/// `(ac + bd) + (ad - bc)i` for `a[i] = a + bi` and `b[i] = c + di`.
pub proof fn inner_term_reads_exactly<R: Scalar>(
    value: spec_fn(R) -> real,
    a: Seq<Complex<R>>,
    b: Seq<Complex<R>>,
    conjugate: Seq<Complex<R>>,
    terms: Seq<Complex<R>>,
    r: Complex<R>,
    i: int,
)
    requires
        exact_ring(value),
        inner_product_steps(a, b, conjugate, terms, r),
        0 <= i < a.len(),
    ensures
        re(value, terms[i]) == re(value, a[i]) * re(value, b[i]) + im(value, a[i]) * im(
            value,
            b[i],
        ),
        im(value, terms[i]) == re(value, a[i]) * im(value, b[i]) - im(value, a[i]) * re(
            value,
            b[i],
        ),
{
    assert(a[i].conjugates_to(conjugate[i]));
    assert(conjugate[i].multiplies_to(b[i], terms[i]));
    product_reads_exactly(value, conjugate[i], b[i], terms[i]);
    let ar = re(value, a[i]);
    let ai = im(value, a[i]);
    let br = re(value, b[i]);
    let bi = im(value, b[i]);
    assert(re(value, conjugate[i]) == ar);
    assert(im(value, conjugate[i]) == -ai);
    assert(ar * br - (-ai) * bi == ar * br + ai * bi) by (nonlinear_arith);
    assert(ar * bi + (-ai) * br == ar * bi - ai * br) by (nonlinear_arith);
}

/// Conjugate symmetry of the inner product: `<a, b>` is the conjugate of
/// `<b, a>`.
pub proof fn inner_product_conjugate_symmetry<R: Scalar>(
    value: spec_fn(R) -> real,
    a: Seq<Complex<R>>,
    b: Seq<Complex<R>>,
    forth: Complex<R>,
    back: Complex<R>,
    conjugate_of_back: Complex<R>,
)
    requires
        exact_ring(value),
        a.len() == b.len(),
        inner_product_of(a, b, forth),
        inner_product_of(b, a, back),
        back.conjugates_to(conjugate_of_back),
    ensures
        forth == conjugate_of_back,
{
    let (ca, ta) = inner_product_has_steps(a, b, forth);
    let (cb, tb) = inner_product_has_steps(b, a, back);
    total_reads_exactly(value, ta, forth);
    total_reads_exactly(value, tb, back);
    assert forall|i: int| 0 <= i < a.len() implies re(value, ta[i]) == re(value, tb[i]) && im(
        value,
        ta[i],
    ) == -im(value, tb[i]) by {
        inner_term_reads_exactly(value, a, b, ca, ta, forth, i);
        inner_term_reads_exactly(value, b, a, cb, tb, back, i);
        let ar = re(value, a[i]);
        let ai = im(value, a[i]);
        let br = re(value, b[i]);
        let bi = im(value, b[i]);
        assert(ar * br + ai * bi == br * ar + bi * ai) by (nonlinear_arith);
        assert(ar * bi - ai * br == -(br * ai - bi * ar)) by (nonlinear_arith);
    }
    assert(re_readings(value, ta) =~= re_readings(value, tb));
    sum_of_negated(im_readings(value, tb), im_readings(value, ta));
    same_reading_same_number(value, forth, conjugate_of_back);
}

/// The inner product of a vector with itself is real and not below zero.
pub proof fn inner_product_with_itself<R: Scalar>(
    value: spec_fn(R) -> real,
    v: Seq<Complex<R>>,
    p: Complex<R>,
)
    requires
        exact_ring(value),
        inner_product_of(v, v, p),
    ensures
        im(value, p) == 0real,
        re(value, p) >= 0real,
{
    let (c, terms) = inner_product_has_steps(v, v, p);
    total_reads_exactly(value, terms, p);
    let res = re_readings(value, terms);
    let ims = im_readings(value, terms);
    assert forall|i: int| 0 <= i < res.len() implies #[trigger] res[i] >= 0real by {
        inner_term_reads_exactly(value, v, v, c, terms, p, i);
        let x = re(value, v[i]);
        let y = im(value, v[i]);
        assert(x * x + y * y >= 0real) by (nonlinear_arith);
    }
    assert forall|i: int| 0 <= i < ims.len() implies #[trigger] ims[i] == 0real by {
        inner_term_reads_exactly(value, v, v, c, terms, p, i);
        let x = re(value, v[i]);
        let y = im(value, v[i]);
        assert(x * y - y * x == 0real) by (nonlinear_arith);
    }
    sum_of_none_below_zero(res);
    sum_of_zeros(ims);
}

/// Symmetry of the distance: from `a` to `b` it is as far as from `b` to `a`,
/// whatever function takes the square root.
pub proof fn distance_symmetry<R: Scalar, F: Fn(R) -> R>(
    value: spec_fn(R) -> real,
    root: F,
    a: Seq<Complex<R>>,
    b: Seq<Complex<R>>,
    forth: R,
    back: R,
)
    requires
        exact_ring(value),
        single_valued(root),
        a.len() == b.len(),
        distance_of(a, b, root, forth),
        distance_of(b, a, root, back),
    ensures
        forth == back,
{
    let x = choose|d: Seq<Complex<R>>| #[trigger]
        each_subtracts_to(a, b, d) && norm_of(d, root, forth);
    let y = choose|d: Seq<Complex<R>>| #[trigger]
        each_subtracts_to(b, a, d) && norm_of(d, root, back);
    let p = choose|p: Complex<R>| #[trigger]
        inner_product_of(x, x, p) && call_ensures(root, (p.real,), forth);
    let q = choose|q: Complex<R>| #[trigger]
        inner_product_of(y, y, q) && call_ensures(root, (q.real,), back);
    let (cx, tx) = inner_product_has_steps(x, x, p);
    let (cy, ty) = inner_product_has_steps(y, y, q);
    total_reads_exactly(value, tx, p);
    total_reads_exactly(value, ty, q);
    assert forall|i: int| 0 <= i < a.len() implies re(value, tx[i]) == re(value, ty[i]) by {
        difference_reads_exactly(value, a[i], b[i], x[i]);
        difference_reads_exactly(value, b[i], a[i], y[i]);
        inner_term_reads_exactly(value, x, x, cx, tx, p, i);
        inner_term_reads_exactly(value, y, y, cy, ty, q, i);
        let xr = re(value, x[i]);
        let xi = im(value, x[i]);
        let yr = re(value, y[i]);
        let yi = im(value, y[i]);
        assert(yr == -xr);
        assert(yi == -xi);
        assert(yr * yr + yi * yi == xr * xr + xi * xi) by (nonlinear_arith)
            requires
                yr == -xr,
                yi == -xi,
        ;
    }
    assert(re_readings(value, tx) =~= re_readings(value, ty));
    assert(read_alike(value, p.real, q.real));
}

} // verus!
