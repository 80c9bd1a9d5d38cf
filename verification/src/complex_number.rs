use vstd::prelude::*;
use core::fmt::Display;
use core::ops::Neg;
use crate::error::AlgebraError;
use crate::scalar;
use crate::scalar::Scalar;
use crate::text::{shows_as, sign_test};

verus! {

/// A complex number `real + imaginary·i`.
#[derive(Debug, Copy, PartialEq)]
pub struct Complex<R> {
    /// The real part.
    pub real: R,
    /// The imaginary part.
    pub imaginary: R,
}

impl<R: Copy> Clone for Complex<R> {
    fn clone(&self) -> (r: Self)
        ensures
            r == *self,
    {
        *self
    }
}

impl<R: Scalar> Complex<R> {
    /// Both parts are values of the scalar's zero.
    pub open spec fn is_zero(self) -> bool {
        scalar::zero_value(self.real) && scalar::zero_value(self.imaginary)
    }

    /// `self + other` may be evaluated: part by part.
    pub open spec fn may_add(self, other: Self) -> bool {
        scalar::may_add(self.real, other.real) && scalar::may_add(self.imaginary, other.imaginary)
    }

    /// `r` is a value of `self + other`: `(a + c) + (b + d)i`.
    pub open spec fn adds_to(self, other: Self, r: Self) -> bool {
        scalar::adds_to(self.real, other.real, r.real) && scalar::adds_to(
            self.imaginary,
            other.imaginary,
            r.imaginary,
        )
    }

    /// `-self` may be evaluated.
    pub open spec fn may_negate(self) -> bool {
        scalar::may_negate(self.real) && scalar::may_negate(self.imaginary)
    }

    /// `r` is a value of `-self`: `(-a) + (-b)i`.
    pub open spec fn negates_to(self, r: Self) -> bool {
        scalar::negates_to(self.real, r.real) && scalar::negates_to(self.imaginary, r.imaginary)
    }

    /// The conjugate of `self` may be evaluated.
    pub open spec fn may_conjugate(self) -> bool {
        scalar::may_negate(self.imaginary)
    }

    /// `r` is a value of the conjugate of `self`: `a + (-b)i`, the real part untouched.
    pub open spec fn conjugates_to(self, r: Self) -> bool {
        r.real == self.real && scalar::negates_to(self.imaginary, r.imaginary)
    }

    /// `self - other` may be evaluated, as `self + (-other)`.
    pub open spec fn may_subtract(self, other: Self) -> bool {
        &&& other.may_negate()
        &&& forall|n: Self| other.negates_to(n) ==> #[trigger] self.may_add(n)
    }

    /// `r` is a value of `self - other`, evaluated as `self + (-other)`.
    pub open spec fn subtracts_to(self, other: Self, r: Self) -> bool {
        exists|n: Self| other.negates_to(n) && #[trigger] self.adds_to(n, r)
    }

    /// `self * other` may be evaluated.
    pub open spec fn may_multiply(self, other: Self) -> bool {
        &&& scalar::may_subtract_products(self.real, other.real, self.imaginary, other.imaginary)
        &&& scalar::may_add_products(self.real, other.imaginary, self.imaginary, other.real)
    }

    /// `r` is a value of `self * other`: `(ac - bd) + (ad + bc)i`.
    pub open spec fn multiplies_to(self, other: Self, r: Self) -> bool {
        &&& scalar::products_subtract_to(
            self.real,
            other.real,
            self.imaginary,
            other.imaginary,
            r.real,
        )
        &&& scalar::products_add_to(
            self.real,
            other.imaginary,
            self.imaginary,
            other.real,
            r.imaginary,
        )
    }

    /// `b` is an answer that the test "both parts of `self` equal zero" can
    /// give. The imaginary part is only looked at when the real part has
    /// compared equal.
    pub open spec fn zero_test(self, b: bool) -> bool {
        exists|z: R|
            (#[trigger] scalar::zero_value(z)) && if b {
                scalar::equality_of(self.real, z, true) && scalar::equality_of(
                    self.imaginary,
                    z,
                    true,
                )
            } else {
                scalar::equality_of(self.real, z, false) || (scalar::equality_of(
                    self.real,
                    z,
                    true,
                ) && scalar::equality_of(self.imaginary, z, false))
            }
    }

    /// The quotient `self / other` may be evaluated (the zero test aside).
    pub open spec fn may_divide(self, other: Self) -> bool {
        &&& scalar::may_add_products(other.real, other.real, other.imaginary, other.imaginary)
        &&& scalar::may_add_products(self.real, other.real, self.imaginary, other.imaginary)
        &&& scalar::may_subtract_products(other.real, self.imaginary, self.real, other.imaginary)
        &&& forall|den: R, num: R|
            scalar::products_add_to(other.real, other.real, other.imaginary, other.imaginary, den)
                && (scalar::products_add_to(
                self.real,
                other.real,
                self.imaginary,
                other.imaginary,
                num,
            ) || scalar::products_subtract_to(
                other.real,
                self.imaginary,
                self.real,
                other.imaginary,
                num,
            )) ==> #[trigger] scalar::may_divide(num, den)
    }

    /// `r` is a value of `self / other`, with `self = a + bi` and
    /// `other = c + di`: `(ac + bd) / (cc + dd)` for the real part and
    /// `(cb - ad) / (cc + dd)` for the imaginary part, over one evaluation of
    /// the denominator.
    pub open spec fn divides_to(self, other: Self, r: Self) -> bool {
        exists|den: R, re_num: R, im_num: R|
            {
                &&& scalar::products_add_to(
                    other.real,
                    other.real,
                    other.imaginary,
                    other.imaginary,
                    den,
                )
                &&& scalar::products_add_to(
                    self.real,
                    other.real,
                    self.imaginary,
                    other.imaginary,
                    re_num,
                )
                &&& scalar::products_subtract_to(
                    other.real,
                    self.imaginary,
                    self.real,
                    other.imaginary,
                    im_num,
                )
                &&& #[trigger] scalar::divides_to(re_num, den, r.real)
                &&& #[trigger] scalar::divides_to(im_num, den, r.imaginary)
            }
    }

    /// The number `re + im·i`.
    pub fn new(re: R, im: R) -> (r: Self)
        ensures
            r.real == re,
            r.imaginary == im,
    {
        Complex { real: re, imaginary: im }
    }

    /// Zero: both parts are the scalar's zero.
    pub fn zero() -> (r: Self)
        ensures
            r.is_zero(),
    {
        Complex { real: R::default(), imaginary: R::default() }
    }

    /// `self + other`.
    pub fn add(self, other: Self) -> (r: Self)
        requires
            self.may_add(other),
        ensures
            self.adds_to(other, r),
    {
        Complex { real: self.real + other.real, imaginary: self.imaginary + other.imaginary }
    }

    /// Replaces `self` by `self + other`.
    pub fn add_assign(&mut self, other: Self)
        requires
            old(self).may_add(other),
        ensures
            old(self).adds_to(other, *final(self)),
    {
        *self = Complex {
            real: self.real + other.real,
            imaginary: self.imaginary + other.imaginary,
        };
    }

    /// `-self`, the additive inverse.
    pub fn negate(self) -> (r: Self)
        requires
            self.may_negate(),
        ensures
            self.negates_to(r),
    {
        Complex { real: self.real.neg(), imaginary: self.imaginary.neg() }
    }

    /// `self - other`, as the sum of `self` and the negation of `other`.
    pub fn subtract(self, other: Self) -> (r: Self)
        requires
            self.may_subtract(other),
        ensures
            self.subtracts_to(other, r),
    {
        let n = other.negate();
        assert(self.may_add(n));
        let r = self.add(n);
        assert(self.adds_to(n, r));
        r
    }

    /// `self * other`.
    pub fn multiply(self, other: Self) -> (r: Self)
        requires
            self.may_multiply(other),
        ensures
            self.multiplies_to(other, r),
    {
        let re = scalar::subtract_products(self.real, other.real, self.imaginary, other.imaginary);
        let im = scalar::add_products(self.real, other.imaginary, self.imaginary, other.real);
        Complex { real: re, imaginary: im }
    }

    /// The conjugate of `self`.
    pub fn conjugate(self) -> (r: Self)
        requires
            self.may_conjugate(),
        ensures
            self.conjugates_to(r),
    {
        Complex { real: self.real, imaginary: self.imaginary.neg() }
    }

    /// `self / other`, or `DivisionByZero` when both parts of `other` compare
    /// equal to zero.
    pub fn divide(self, other: Self) -> (r: Result<Self, AlgebraError>)
        requires
            other.zero_test(false) ==> self.may_divide(other),
        ensures
            match r {
                Ok(q) => other.zero_test(false) && self.divides_to(other, q),
                Err(e) => e == AlgebraError::DivisionByZero && other.zero_test(true),
            },
    {
        let z = R::default();
        if other.real == z && other.imaginary == z {
            assert(scalar::zero_value(z));
            return Err(AlgebraError::DivisionByZero);
        }
        assert(scalar::zero_value(z));
        assert(other.zero_test(false));
        let den = scalar::add_products(other.real, other.real, other.imaginary, other.imaginary);
        let re_num = scalar::add_products(self.real, other.real, self.imaginary, other.imaginary);
        let im_num = scalar::subtract_products(
            other.real,
            self.imaginary,
            self.real,
            other.imaginary,
        );
        assert(scalar::may_divide(re_num, den));
        assert(scalar::may_divide(im_num, den));
        let re = re_num / den;
        let im = im_num / den;
        let q = Complex { real: re, imaginary: im };
        assert(scalar::divides_to(re_num, den, q.real));
        assert(scalar::divides_to(im_num, den, q.imaginary));
        Ok(q)
    }

}

impl<R: Scalar + PartialOrd + Display> Complex<R> {
    /// `t` is a text of `self`: the real part, then `+` where the imaginary
    /// part tests as not below zero (a negative one brings its own sign), then
    /// the imaginary part, then `i`.
    pub open spec fn text_of(self, t: Seq<char>) -> bool {
        exists|re: Seq<char>, im: Seq<char>, plus: bool|
            {
                &&& #[trigger] shows_as(self.real, re)
                &&& #[trigger] shows_as(self.imaginary, im)
                &&& #[trigger] sign_test(self.imaginary, plus)
                &&& t == re + (if plus {
                    seq!['+']
                } else {
                    Seq::empty()
                }) + im + seq!['i']
            }
    }

    /// The text of `self`, such as `3+2i`, `3-2i` or `0+0i`.
    pub fn to_text(&self) -> (t: String)
        ensures
            self.text_of(t@),
    {
        proof {
            reveal_strlit("+");
            reveal_strlit("i");
        }
        let zero = R::default();
        let plus = self.imaginary >= zero;
        assert(sign_test(self.imaginary, plus)) by {
            assert(scalar::zero_value(zero));
        }
        let re = self.real.to_string();
        let im = self.imaginary.to_string();
        assert(shows_as(self.real, re@));
        assert(shows_as(self.imaginary, im@));
        let mut out = String::new();
        out.append(re.as_str());
        if plus {
            out.append("+");
        }
        out.append(im.as_str());
        out.append("i");
        assert(out@ =~= re@ + (if plus {
            seq!['+']
        } else {
            Seq::empty()
        }) + im@ + seq!['i']);
        out
    }
}

/// `total` is a value of the sum of `terms`, added up from zero in their
/// order: `((0 + t0) + t1) + ...`. Of no terms, the sum is zero.
pub open spec fn totals_to<R: Scalar>(terms: Seq<Complex<R>>, total: Complex<R>) -> bool
    decreases terms.len(),
{
    if terms.len() == 0 {
        total.is_zero()
    } else {
        exists|prev: Complex<R>|
            totals_to(terms.drop_last(), prev) && #[trigger] prev.adds_to(terms.last(), total)
    }
}

/// The sum of `terms` may be evaluated: each term may be added to whatever
/// the terms before it have come to.
pub open spec fn may_total<R: Scalar>(terms: Seq<Complex<R>>) -> bool {
    forall|n: int, prev: Complex<R>|
        0 <= n < terms.len() && (#[trigger] totals_to(terms.take(n), prev)) ==> prev.may_add(
            terms[n],
        )
}

/// Appending one term to a sum: from a total of `terms` and its sum with
/// `term`, a total of `terms.push(term)`.
pub proof fn totals_to_push<R: Scalar>(
    terms: Seq<Complex<R>>,
    prev: Complex<R>,
    term: Complex<R>,
    total: Complex<R>,
)
    requires
        totals_to(terms, prev),
        prev.adds_to(term, total),
    ensures
        totals_to(terms.push(term), total),
{
    let longer = terms.push(term);
    assert(longer.drop_last() =~= terms);
    assert(longer.last() == term);
    assert(totals_to(longer.drop_last(), prev) && prev.adds_to(longer.last(), total));
}

impl<R: Scalar> Complex<R> {
    /// The sum of `items`, added up from zero in their order; zero for none.
    pub fn sum(items: &Vec<Complex<R>>) -> (total: Complex<R>)
        requires
            may_total(items@),
        ensures
            totals_to(items@, total),
    {
        let mut total = Complex::<R>::zero();
        let mut i: usize = 0;
        assert(items@.take(0) =~= Seq::empty());
        while i < items.len()
            invariant
                i <= items.len(),
                may_total(items@),
                totals_to(items@.take(i as int), total),
            decreases items.len() - i,
        {
            let item = items[i];
            let next = total.add(item);
            proof {
                totals_to_push(items@.take(i as int), total, item, next);
                assert(items@.take(i as int).push(item) =~= items@.take(i + 1));
            }
            total = next;
            i += 1;
        }
        assert(items@.take(i as int) =~= items@);
        total
    }
}

} // verus!
