use vstd::prelude::*;
use core::fmt::Display;
use crate::complex_number::{totals_to, totals_to_push, Complex};
use crate::error::AlgebraError;
use crate::scalar::Scalar;
use crate::text::{bracket, bracketed, item_separator, join, joined, texts};

verus! {

/// A complex vector: its coordinates in order. Its length is fixed when it is
/// made; every operation returns a new vector.
#[derive(Debug, PartialEq)]
pub struct ComplexVector<R>(pub Vec<Complex<R>>);

impl<R: Copy> Clone for ComplexVector<R> {
    fn clone(&self) -> (r: Self)
        ensures
            r.0@ == self.0@,
    {
        let coordinates = self.0.clone();
        assert(coordinates@ =~= self.0@);
        ComplexVector(coordinates)
    }
}

impl<R: Scalar> View for ComplexVector<R> {
    type V = Seq<Complex<R>>;

    /// The coordinates, first to last.
    open spec fn view(&self) -> Seq<Complex<R>> {
        self.0@
    }
}

/// Each `a[i] + b[i]` may be evaluated.
pub open spec fn each_may_add<R: Scalar>(a: Seq<Complex<R>>, b: Seq<Complex<R>>) -> bool {
    forall|i: int| 0 <= i < a.len() ==> #[trigger] a[i].may_add(b[i])
}

/// `r` is a value of the coordinate-wise sum: `r[i]` of `a[i] + b[i]`.
pub open spec fn each_adds_to<R: Scalar>(
    a: Seq<Complex<R>>,
    b: Seq<Complex<R>>,
    r: Seq<Complex<R>>,
) -> bool {
    &&& r.len() == a.len()
    &&& forall|i: int| 0 <= i < a.len() ==> a[i].adds_to(b[i], #[trigger] r[i])
}

/// Each `-a[i]` may be evaluated.
pub open spec fn each_may_negate<R: Scalar>(a: Seq<Complex<R>>) -> bool {
    forall|i: int| 0 <= i < a.len() ==> (#[trigger] a[i]).may_negate()
}

/// `r` is a value of the coordinate-wise negation: `r[i]` of `-a[i]`.
pub open spec fn each_negates_to<R: Scalar>(a: Seq<Complex<R>>, r: Seq<Complex<R>>) -> bool {
    &&& r.len() == a.len()
    &&& forall|i: int| 0 <= i < a.len() ==> a[i].negates_to(#[trigger] r[i])
}

/// Each conjugate of `a[i]` may be evaluated.
pub open spec fn each_may_conjugate<R: Scalar>(a: Seq<Complex<R>>) -> bool {
    forall|i: int| 0 <= i < a.len() ==> (#[trigger] a[i]).may_conjugate()
}

/// `r` is a value of the coordinate-wise conjugate: `r[i]` of the conjugate of `a[i]`.
pub open spec fn each_conjugates_to<R: Scalar>(a: Seq<Complex<R>>, r: Seq<Complex<R>>) -> bool {
    &&& r.len() == a.len()
    &&& forall|i: int| 0 <= i < a.len() ==> a[i].conjugates_to(#[trigger] r[i])
}

/// Each `a[i] * c` may be evaluated.
pub open spec fn each_may_scale<R: Scalar>(a: Seq<Complex<R>>, c: Complex<R>) -> bool {
    forall|i: int| 0 <= i < a.len() ==> (#[trigger] a[i]).may_multiply(c)
}

/// `r` is a value of `a` scaled by `c` on the right: `r[i]` of `a[i] * c`.
pub open spec fn each_scales_to<R: Scalar>(
    a: Seq<Complex<R>>,
    c: Complex<R>,
    r: Seq<Complex<R>>,
) -> bool {
    &&& r.len() == a.len()
    &&& forall|i: int| 0 <= i < a.len() ==> a[i].multiplies_to(c, #[trigger] r[i])
}

/// The difference `a - b` may be evaluated, as `a + (-b)`.
pub open spec fn each_may_subtract<R: Scalar>(a: Seq<Complex<R>>, b: Seq<Complex<R>>) -> bool {
    &&& each_may_negate(b)
    &&& forall|n: Seq<Complex<R>>| #[trigger] each_negates_to(b, n) ==> each_may_add(a, n)
}

/// `r` is a value of the coordinate-wise difference: `r[i]` of `a[i] - b[i]`,
/// which is `a[i] + (-b[i])`.
pub open spec fn each_subtracts_to<R: Scalar>(
    a: Seq<Complex<R>>,
    b: Seq<Complex<R>>,
    r: Seq<Complex<R>>,
) -> bool {
    &&& r.len() == a.len()
    &&& forall|i: int| 0 <= i < a.len() ==> a[i].subtracts_to(b[i], #[trigger] r[i])
}

/// `terms` holds values of the first products `a[i] * b[i]`, in order.
pub open spec fn product_terms<R: Scalar>(
    a: Seq<Complex<R>>,
    b: Seq<Complex<R>>,
    terms: Seq<Complex<R>>,
) -> bool {
    &&& terms.len() <= a.len()
    &&& forall|i: int| 0 <= i < terms.len() ==> a[i].multiplies_to(b[i], #[trigger] terms[i])
}

/// `r` is a value of the dot product `Σ a[i] * b[i]`: the products are taken
/// in order and added up from zero, `((0 + a0·b0) + a1·b1) + ...`.
pub open spec fn dot_product_of<R: Scalar>(
    a: Seq<Complex<R>>,
    b: Seq<Complex<R>>,
    r: Complex<R>,
) -> bool {
    exists|terms: Seq<Complex<R>>|
        terms.len() == a.len() && product_terms(a, b, terms) && #[trigger] totals_to(terms, r)
}

/// The dot product `Σ a[i] * b[i]` may be evaluated: each product, and each
/// addition of a product to whatever the products before it have come to.
pub open spec fn may_dot<R: Scalar>(a: Seq<Complex<R>>, b: Seq<Complex<R>>) -> bool {
    &&& forall|i: int| 0 <= i < a.len() ==> #[trigger] a[i].may_multiply(b[i])
    &&& forall|n: int, terms: Seq<Complex<R>>, prev: Complex<R>, term: Complex<R>|
        0 <= n < a.len() && terms.len() == n && product_terms(a, b, terms) && #[trigger] totals_to(
            terms,
            prev,
        ) && #[trigger] a[n].multiplies_to(b[n], term) ==> prev.may_add(term)
}

/// `r` is a value of the inner product `Σ conjugate(a[i]) * b[i]`: the dot
/// product of the conjugate of `a` with `b`.
pub open spec fn inner_product_of<R: Scalar>(
    a: Seq<Complex<R>>,
    b: Seq<Complex<R>>,
    r: Complex<R>,
) -> bool {
    exists|c: Seq<Complex<R>>| each_conjugates_to(a, c) && #[trigger] dot_product_of(c, b, r)
}

/// The inner product of `a` and `b` may be evaluated.
pub open spec fn may_inner_product<R: Scalar>(a: Seq<Complex<R>>, b: Seq<Complex<R>>) -> bool {
    &&& each_may_conjugate(a)
    &&& forall|c: Seq<Complex<R>>| #[trigger] each_conjugates_to(a, c) ==> may_dot(c, b)
}

/// The norm of `v` may be evaluated: its inner product with itself, and the
/// square root of the real part of whatever that comes to.
pub open spec fn may_take_norm<R: Scalar, F: Fn(R) -> R>(v: Seq<Complex<R>>, root: F) -> bool {
    &&& may_inner_product(v, v)
    &&& forall|p: Complex<R>|
        #[trigger] inner_product_of(v, v, p) ==> call_requires(root, (p.real,))
}

/// `r` is a value of the norm of `v`: the square root of the real part of the
/// inner product of `v` with itself. The imaginary part plays no role.
pub open spec fn norm_of<R: Scalar, F: Fn(R) -> R>(v: Seq<Complex<R>>, root: F, r: R) -> bool {
    exists|p: Complex<R>| #[trigger] inner_product_of(v, v, p) && call_ensures(root, (p.real,), r)
}

/// The distance between `a` and `b` may be evaluated: their difference, and
/// the norm of whatever that comes to.
pub open spec fn may_take_distance<R: Scalar, F: Fn(R) -> R>(
    a: Seq<Complex<R>>,
    b: Seq<Complex<R>>,
    root: F,
) -> bool {
    &&& each_may_subtract(a, b)
    &&& forall|d: Seq<Complex<R>>| #[trigger] each_subtracts_to(a, b, d) ==> may_take_norm(d, root)
}

/// `r` is a value of the distance between `a` and `b`: the norm of `a - b`.
pub open spec fn distance_of<R: Scalar, F: Fn(R) -> R>(
    a: Seq<Complex<R>>,
    b: Seq<Complex<R>>,
    root: F,
    r: R,
) -> bool {
    exists|d: Seq<Complex<R>>| #[trigger] each_subtracts_to(a, b, d) && norm_of(d, root, r)
}

/// The coordinate-wise sum of two lists of one length.
pub(crate) fn add_each<R: Scalar>(a: &Vec<Complex<R>>, b: &Vec<Complex<R>>) -> (r: Vec<
    Complex<R>,
>)
    requires
        a@.len() == b@.len(),
        each_may_add(a@, b@),
    ensures
        each_adds_to(a@, b@, r@),
{
    let n = a.len();
    let mut out: Vec<Complex<R>> = Vec::new();
    let mut i: usize = 0;
    while i < n
        invariant
            n == a@.len(),
            n == b@.len(),
            i <= n,
            out@.len() == i,
            each_may_add(a@, b@),
            forall|k: int| 0 <= k < i ==> a@[k].adds_to(b@[k], #[trigger] out@[k]),
        decreases n - i,
    {
        let x = a[i];
        let y = b[i];
        assert(a@[i as int].may_add(b@[i as int]));
        out.push(x.add(y));
        i += 1;
    }
    out
}

/// The coordinate-wise negation of a list.
pub(crate) fn negate_each<R: Scalar>(a: &Vec<Complex<R>>) -> (r: Vec<Complex<R>>)
    requires
        each_may_negate(a@),
    ensures
        each_negates_to(a@, r@),
{
    let n = a.len();
    let mut out: Vec<Complex<R>> = Vec::new();
    let mut i: usize = 0;
    while i < n
        invariant
            n == a@.len(),
            i <= n,
            out@.len() == i,
            each_may_negate(a@),
            forall|k: int| 0 <= k < i ==> a@[k].negates_to(#[trigger] out@[k]),
        decreases n - i,
    {
        let x = a[i];
        assert(a@[i as int].may_negate());
        out.push(x.negate());
        i += 1;
    }
    out
}

/// The coordinate-wise conjugate of a list.
pub(crate) fn conjugate_each<R: Scalar>(a: &Vec<Complex<R>>) -> (r: Vec<Complex<R>>)
    requires
        each_may_conjugate(a@),
    ensures
        each_conjugates_to(a@, r@),
{
    let n = a.len();
    let mut out: Vec<Complex<R>> = Vec::new();
    let mut i: usize = 0;
    while i < n
        invariant
            n == a@.len(),
            i <= n,
            out@.len() == i,
            each_may_conjugate(a@),
            forall|k: int| 0 <= k < i ==> a@[k].conjugates_to(#[trigger] out@[k]),
        decreases n - i,
    {
        let x = a[i];
        assert(a@[i as int].may_conjugate());
        out.push(x.conjugate());
        i += 1;
    }
    out
}

/// The dot product of two lists of one length.
pub(crate) fn dot<R: Scalar>(a: &Vec<Complex<R>>, b: &Vec<Complex<R>>) -> (r: Complex<R>)
    requires
        a@.len() == b@.len(),
        may_dot(a@, b@),
    ensures
        dot_product_of(a@, b@, r),
{
    let n = a.len();
    let mut total = Complex::<R>::zero();
    let ghost mut terms: Seq<Complex<R>> = Seq::empty();
    let mut i: usize = 0;
    while i < n
        invariant
            n == a@.len(),
            n == b@.len(),
            i <= n,
            may_dot(a@, b@),
            terms.len() == i,
            product_terms(a@, b@, terms),
            totals_to(terms, total),
        decreases n - i,
    {
        let x = a[i];
        let y = b[i];
        assert(a@[i as int].may_multiply(b@[i as int]));
        let term = x.multiply(y);
        assert(a@[i as int].multiplies_to(b@[i as int], term));
        let next = total.add(term);
        proof {
            totals_to_push(terms, total, term, next);
            terms = terms.push(term);
        }
        total = next;
        i += 1;
    }
    total
}

impl<R: Scalar> ComplexVector<R> {
    /// The number of coordinates.
    pub fn len(&self) -> (n: usize)
        ensures
            n == self@.len(),
    {
        self.0.len()
    }

    /// `self + other`, coordinate by coordinate; `DimensionMismatch` when the
    /// lengths differ.
    pub fn add(self, other: Self) -> (r: Result<Self, AlgebraError>)
        requires
            self@.len() == other@.len() ==> each_may_add(self@, other@),
        ensures
            match r {
                Ok(v) => self@.len() == other@.len() && each_adds_to(self@, other@, v@),
                Err(e) => e == AlgebraError::DimensionMismatch && self@.len() != other@.len(),
            },
    {
        if self.0.len() != other.0.len() {
            return Err(AlgebraError::DimensionMismatch);
        }
        Ok(ComplexVector(add_each(&self.0, &other.0)))
    }

    /// `self * scalar`: each coordinate multiplied by `scalar` on the right.
    pub fn scalar_multiply(self, scalar: Complex<R>) -> (r: Self)
        requires
            each_may_scale(self@, scalar),
        ensures
            each_scales_to(self@, scalar, r@),
    {
        let n = self.0.len();
        let mut out: Vec<Complex<R>> = Vec::new();
        let mut i: usize = 0;
        while i < n
            invariant
                n == self@.len(),
                i <= n,
                out@.len() == i,
                each_may_scale(self@, scalar),
                forall|k: int| 0 <= k < i ==> self@[k].multiplies_to(scalar, #[trigger] out@[k]),
            decreases n - i,
        {
            let x = self.0[i];
            assert(self@[i as int].may_multiply(scalar));
            out.push(x.multiply(scalar));
            i += 1;
        }
        ComplexVector(out)
    }

    /// `-self`, the additive inverse: each coordinate negated.
    pub fn negate(self) -> (r: Self)
        requires
            each_may_negate(self@),
        ensures
            each_negates_to(self@, r@),
    {
        ComplexVector(negate_each(&self.0))
    }

    /// `self - other`, as `self + (-other)`; `DimensionMismatch` when the
    /// lengths differ.
    pub fn subtract(self, other: Self) -> (r: Result<Self, AlgebraError>)
        requires
            self@.len() == other@.len() ==> each_may_subtract(self@, other@),
        ensures
            match r {
                Ok(v) => self@.len() == other@.len() && each_subtracts_to(self@, other@, v@),
                Err(e) => e == AlgebraError::DimensionMismatch && self@.len() != other@.len(),
            },
    {
        if self.0.len() != other.0.len() {
            return Err(AlgebraError::DimensionMismatch);
        }
        let negated = negate_each(&other.0);
        assert(each_negates_to(other@, negated@));
        let out = add_each(&self.0, &negated);
        assert forall|i: int| 0 <= i < self@.len() implies self@[i].subtracts_to(
            other@[i],
            #[trigger] out@[i],
        ) by {
            assert(other@[i].negates_to(negated@[i]));
            assert(self@[i].adds_to(negated@[i], out@[i]));
        }
        Ok(ComplexVector(out))
    }

    /// The inner product `Σ conjugate(self[i]) * other[i]`, conjugate-linear
    /// in `self` and linear in `other`; `DimensionMismatch` when the lengths
    /// differ.
    pub fn inner_product(self, other: Self) -> (r: Result<Complex<R>, AlgebraError>)
        requires
            self@.len() == other@.len() ==> may_inner_product(self@, other@),
        ensures
            match r {
                Ok(p) => self@.len() == other@.len() && inner_product_of(self@, other@, p),
                Err(e) => e == AlgebraError::DimensionMismatch && self@.len() != other@.len(),
            },
    {
        if self.0.len() != other.0.len() {
            return Err(AlgebraError::DimensionMismatch);
        }
        let conjugated = conjugate_each(&self.0);
        assert(each_conjugates_to(self@, conjugated@));
        let p = dot(&conjugated, &other.0);
        assert(dot_product_of(conjugated@, other@, p));
        Ok(p)
    }

    /// The norm of `self`: the square root of the real part of the inner
    /// product of `self` with itself, with the square root that the caller
    /// supplies for the scalar.
    pub fn norm<F: Fn(R) -> R>(self, root: F) -> (r: R)
        requires
            may_take_norm(self@, root),
        ensures
            norm_of(self@, root, r),
    {
        let conjugated = conjugate_each(&self.0);
        assert(each_conjugates_to(self@, conjugated@));
        let p = dot(&conjugated, &self.0);
        assert(dot_product_of(conjugated@, self@, p));
        assert(inner_product_of(self@, self@, p));
        root(p.real)
    }

    /// The distance from `self` to `rhs`: the norm of `self - rhs`;
    /// `DimensionMismatch` when the lengths differ.
    pub fn distance_to<F: Fn(R) -> R>(self, rhs: Self, root: F) -> (r: Result<R, AlgebraError>)
        requires
            self@.len() == rhs@.len() ==> may_take_distance(self@, rhs@, root),
        ensures
            match r {
                Ok(d) => self@.len() == rhs@.len() && distance_of(self@, rhs@, root, d),
                Err(e) => e == AlgebraError::DimensionMismatch && self@.len() != rhs@.len(),
            },
    {
        let ghost a = self@;
        let ghost b = rhs@;
        match self.subtract(rhs) {
            Ok(diff) => {
                assert(each_subtracts_to(a, b, diff@));
                let d = diff.norm(root);
                Ok(d)
            },
            Err(e) => Err(e),
        }
    }
}

/// `parts` holds a text of each of `items`, in order.
pub open spec fn each_text_of<R: Scalar + PartialOrd + Display>(
    items: Seq<Complex<R>>,
    parts: Seq<Seq<char>>,
) -> bool {
    &&& parts.len() == items.len()
    &&& forall|i: int| 0 <= i < items.len() ==> items[i].text_of(#[trigger] parts[i])
}

/// `t` is a text of the list `items`: the texts of the items, a comma and a
/// space between neighbours, in square brackets. Of no items, `[]`.
pub open spec fn list_text_of<R: Scalar + PartialOrd + Display>(
    items: Seq<Complex<R>>,
    t: Seq<char>,
) -> bool {
    exists|parts: Seq<Seq<char>>| #[trigger]
        each_text_of(items, parts) && t == bracketed(joined(parts, item_separator()))
}

/// The text of the items `from .. from + count` of `items` as a list.
pub(crate) fn list_text<R: Scalar + PartialOrd + Display>(
    items: &Vec<Complex<R>>,
    from: usize,
    count: usize,
) -> (t: String)
    requires
        from + count <= items@.len(),
    ensures
        list_text_of(items@.subrange(from as int, from + count), t@),
{
    let ghost shown = items@.subrange(from as int, from + count);
    assert(items@.len() == items.len());
    let mut parts: Vec<String> = Vec::new();
    let mut i: usize = 0;
    while i < count
        invariant
            from + count <= items@.len() <= usize::MAX,
            shown == items@.subrange(from as int, from + count),
            i <= count,
            parts@.len() == i,
            forall|k: int| 0 <= k < i ==> shown[k].text_of(#[trigger] parts@[k]@),
        decreases count - i,
    {
        let item = items[from + i];
        assert(item == shown[i as int]);
        let part = item.to_text();
        parts.push(part);
        i += 1;
    }
    proof {
        reveal_strlit(", ");
        assert(", "@ =~= item_separator());
    }
    let inner = join(&parts, ", ");
    let out = bracket(inner.as_str());
    assert(each_text_of(shown, texts(parts@)));
    out
}

impl<R: Scalar + PartialOrd + Display> ComplexVector<R> {
    /// The text of `self`, such as `[6-4i, 7+3i]`.
    pub fn to_text(&self) -> (t: String)
        ensures
            list_text_of(self@, t@),
    {
        assert(self@.subrange(0, self@.len() as int) =~= self@);
        list_text(&self.0, 0, self.0.len())
    }
}

} // verus!
