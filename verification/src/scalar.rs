use vstd::prelude::*;
use core::ops::{Add, Div, Mul, Neg, Sub};

verus! {

/// What a type needs to serve as the real line under a complex number: it is
/// copied freely, has the four arithmetic operators and negation, can be tested
/// for equality, and its default value is its zero (as it is for every numeric
/// primitive). Every type with these abilities is a `Scalar`.
pub trait Scalar: Copy + PartialEq + Default + Add<Output = Self> + Sub<Output = Self> + Mul<
    Output = Self,
> + Div<Output = Self> + Neg<Output = Self> {

}

impl<T> Scalar for T where
    T: Copy + PartialEq + Default + Add<Output = T> + Sub<Output = T> + Mul<Output = T> + Div<
        Output = T,
    > + Neg<Output = T>,
 {
}

/// `x + y` may be evaluated.
pub open spec fn may_add<R: Scalar>(x: R, y: R) -> bool {
    call_requires(R::add, (x, y))
}

/// `x - y` may be evaluated.
pub open spec fn may_subtract<R: Scalar>(x: R, y: R) -> bool {
    call_requires(R::sub, (x, y))
}

/// `x * y` may be evaluated.
pub open spec fn may_multiply<R: Scalar>(x: R, y: R) -> bool {
    call_requires(R::mul, (x, y))
}

/// `x / y` may be evaluated.
pub open spec fn may_divide<R: Scalar>(x: R, y: R) -> bool {
    call_requires(R::div, (x, y))
}

/// `-x` may be evaluated.
pub open spec fn may_negate<R: Scalar>(x: R) -> bool {
    call_requires(R::neg, (x,))
}

/// `r` is a value that `x + y` can evaluate to.
pub open spec fn adds_to<R: Scalar>(x: R, y: R, r: R) -> bool {
    call_ensures(R::add, (x, y), r)
}

/// `r` is a value that `x - y` can evaluate to.
pub open spec fn subtracts_to<R: Scalar>(x: R, y: R, r: R) -> bool {
    call_ensures(R::sub, (x, y), r)
}

/// `r` is a value that `x * y` can evaluate to.
pub open spec fn multiplies_to<R: Scalar>(x: R, y: R, r: R) -> bool {
    call_ensures(R::mul, (x, y), r)
}

/// `r` is a value that `x / y` can evaluate to.
pub open spec fn divides_to<R: Scalar>(x: R, y: R, r: R) -> bool {
    call_ensures(R::div, (x, y), r)
}

/// `r` is a value that `-x` can evaluate to.
pub open spec fn negates_to<R: Scalar>(x: R, r: R) -> bool {
    call_ensures(R::neg, (x,), r)
}

/// `r` is a value that the scalar's zero, `R::default()`, can evaluate to.
pub open spec fn zero_value<R: Scalar>(r: R) -> bool {
    call_ensures(R::default, (), r)
}

/// `b` is an answer that the test `x == y` can give.
pub open spec fn equality_of<R: Scalar>(x: R, y: R, b: bool) -> bool {
    call_ensures(R::eq, (&x, &y), b)
}

/// `w * x + y * z` may be evaluated: both products, and the sum of whatever
/// they come to.
pub open spec fn may_add_products<R: Scalar>(w: R, x: R, y: R, z: R) -> bool {
    &&& may_multiply(w, x)
    &&& may_multiply(y, z)
    &&& forall|p: R, q: R|
        multiplies_to(w, x, p) && multiplies_to(y, z, q) ==> #[trigger] may_add(p, q)
}

/// `w * x - y * z` may be evaluated.
pub open spec fn may_subtract_products<R: Scalar>(w: R, x: R, y: R, z: R) -> bool {
    &&& may_multiply(w, x)
    &&& may_multiply(y, z)
    &&& forall|p: R, q: R|
        multiplies_to(w, x, p) && multiplies_to(y, z, q) ==> #[trigger] may_subtract(p, q)
}

/// `r` is a value that `w * x + y * z` can evaluate to.
pub open spec fn products_add_to<R: Scalar>(w: R, x: R, y: R, z: R, r: R) -> bool {
    exists|p: R, q: R|
        multiplies_to(w, x, p) && multiplies_to(y, z, q) && #[trigger] adds_to(p, q, r)
}

/// `r` is a value that `w * x - y * z` can evaluate to.
pub open spec fn products_subtract_to<R: Scalar>(w: R, x: R, y: R, z: R, r: R) -> bool {
    exists|p: R, q: R|
        multiplies_to(w, x, p) && multiplies_to(y, z, q) && #[trigger] subtracts_to(p, q, r)
}

/// Evaluates `w * x + y * z`, left product first.
pub(crate) fn add_products<R: Scalar>(w: R, x: R, y: R, z: R) -> (r: R)
    requires
        may_add_products(w, x, y, z),
    ensures
        products_add_to(w, x, y, z, r),
{
    let p = w * x;
    let q = y * z;
    assert(may_add(p, q));
    let r = p + q;
    assert(adds_to(p, q, r));
    r
}

/// Evaluates `w * x - y * z`, left product first.
pub(crate) fn subtract_products<R: Scalar>(w: R, x: R, y: R, z: R) -> (r: R)
    requires
        may_subtract_products(w, x, y, z),
    ensures
        products_subtract_to(w, x, y, z, r),
{
    let p = w * x;
    let q = y * z;
    assert(may_subtract(p, q));
    let r = p - q;
    assert(subtracts_to(p, q, r));
    r
}

} // verus!
