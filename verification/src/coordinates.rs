use vstd::prelude::*;
use core::fmt::Display;
use crate::complex_number::Complex;
use crate::scalar;
use crate::scalar::Scalar;
use crate::text::shows_as;

verus! {

/// A point of the plane by its two coordinates, `x` first.
#[derive(Debug, Copy, PartialEq)]
pub struct Cartesian<R>(pub R, pub R);

/// A point of the plane by its magnitude and its phase, magnitude first.
#[derive(Debug, Copy, PartialEq)]
pub struct Polar<R>(pub R, pub R);

impl<R: Copy> Clone for Cartesian<R> {
    fn clone(&self) -> (r: Self)
        ensures
            r == *self,
    {
        *self
    }
}

impl<R: Copy> Clone for Polar<R> {
    fn clone(&self) -> (r: Self)
        ensures
            r == *self,
    {
        *self
    }
}

/// The magnitude `root(x * x + y * y)` may be evaluated.
pub open spec fn may_take_magnitude<R: Scalar, F: Fn(R) -> R>(x: R, y: R, root: F) -> bool {
    &&& scalar::may_add_products(x, x, y, y)
    &&& forall|s: R| #[trigger] scalar::products_add_to(x, x, y, y, s) ==> call_requires(root, (s,))
}

/// `r` is a value of the magnitude `root(x * x + y * y)`.
pub open spec fn magnitude_of<R: Scalar, F: Fn(R) -> R>(x: R, y: R, root: F, r: R) -> bool {
    exists|s: R| #[trigger] scalar::products_add_to(x, x, y, y, s) && call_ensures(root, (s,), r)
}

/// The phase `arctangent(y / x)` may be evaluated.
pub open spec fn may_take_phase<R: Scalar, G: Fn(R) -> R>(x: R, y: R, arctangent: G) -> bool {
    &&& scalar::may_divide(y, x)
    &&& forall|q: R| #[trigger] scalar::divides_to(y, x, q) ==> call_requires(arctangent, (q,))
}

/// `r` is a value of the phase `arctangent(y / x)`: the arctangent of the one
/// quotient, with no regard to the quadrant that `(x, y)` lies in.
pub open spec fn phase_of<R: Scalar, G: Fn(R) -> R>(x: R, y: R, arctangent: G, r: R) -> bool {
    exists|q: R| #[trigger] scalar::divides_to(y, x, q) && call_ensures(arctangent, (q,), r)
}

/// The magnitude of `(x, y)`, `root(x * x + y * y)`.
pub(crate) fn magnitude<R: Scalar, F: Fn(R) -> R>(x: R, y: R, root: F) -> (r: R)
    requires
        may_take_magnitude(x, y, root),
    ensures
        magnitude_of(x, y, root, r),
{
    let s = scalar::add_products(x, x, y, y);
    root(s)
}

impl<R: Scalar> Cartesian<R> {
    /// `p` is a value of `self` in polar form: the magnitude
    /// `root(x * x + y * y)` and the phase `arctangent(y / x)`.
    pub open spec fn polar_of<F: Fn(R) -> R, G: Fn(R) -> R>(
        self,
        root: F,
        arctangent: G,
        p: Polar<R>,
    ) -> bool {
        magnitude_of(self.0, self.1, root, p.0) && phase_of(self.0, self.1, arctangent, p.1)
    }

    /// `self` in polar form, with the square root and the arctangent that the
    /// caller supplies for the scalar.
    pub fn to_polar<F: Fn(R) -> R, G: Fn(R) -> R>(self, root: F, arctangent: G) -> (p: Polar<R>)
        requires
            may_take_magnitude(self.0, self.1, root),
            may_take_phase(self.0, self.1, arctangent),
        ensures
            self.polar_of(root, arctangent, p),
    {
        let m = magnitude(self.0, self.1, root);
        let q = self.1 / self.0;
        assert(scalar::divides_to(self.1, self.0, q));
        let phase = arctangent(q);
        Polar(m, phase)
    }
}

impl<R: Scalar> Polar<R> {
    /// `magnitude * cosine(phase)` and `magnitude * sine(phase)` may be evaluated.
    pub open spec fn may_turn_cartesian<F: Fn(R) -> R, G: Fn(R) -> R>(
        self,
        cosine: F,
        sine: G,
    ) -> bool {
        &&& call_requires(cosine, (self.1,))
        &&& call_requires(sine, (self.1,))
        &&& forall|c: R|
            call_ensures(cosine, (self.1,), c) ==> #[trigger] scalar::may_multiply(self.0, c)
        &&& forall|s: R|
            call_ensures(sine, (self.1,), s) ==> #[trigger] scalar::may_multiply(self.0, s)
    }

    /// `c` is a value of `self` in Cartesian form:
    /// `(magnitude * cosine(phase), magnitude * sine(phase))`.
    pub open spec fn cartesian_of<F: Fn(R) -> R, G: Fn(R) -> R>(
        self,
        cosine: F,
        sine: G,
        c: Cartesian<R>,
    ) -> bool {
        &&& exists|u: R|
            call_ensures(cosine, (self.1,), u) && #[trigger] scalar::multiplies_to(self.0, u, c.0)
        &&& exists|v: R|
            call_ensures(sine, (self.1,), v) && #[trigger] scalar::multiplies_to(self.0, v, c.1)
    }

    /// `self` in Cartesian form, with the cosine and the sine that the caller
    /// supplies for the scalar.
    pub fn to_cartesian<F: Fn(R) -> R, G: Fn(R) -> R>(self, cosine: F, sine: G) -> (c: Cartesian<R>)
        requires
            self.may_turn_cartesian(cosine, sine),
        ensures
            self.cartesian_of(cosine, sine, c),
    {
        let u = cosine(self.1);
        assert(scalar::may_multiply(self.0, u));
        let x = self.0 * u;
        let v = sine(self.1);
        assert(scalar::may_multiply(self.0, v));
        let y = self.0 * v;
        let c = Cartesian(x, y);
        assert(scalar::multiplies_to(self.0, u, c.0));
        assert(scalar::multiplies_to(self.0, v, c.1));
        c
    }
}

impl<R: Scalar> Complex<R> {
    /// The absolute value `root(real * real + imaginary * imaginary)`, with
    /// the square root that the caller supplies for the scalar.
    pub fn abs<F: Fn(R) -> R>(self, root: F) -> (r: R)
        requires
            may_take_magnitude(self.real, self.imaginary, root),
        ensures
            magnitude_of(self.real, self.imaginary, root, r),
    {
        magnitude(self.real, self.imaginary, root)
    }

    /// `self` in polar form: the absolute value and `arctangent(imaginary / real)`.
    pub fn to_polar<F: Fn(R) -> R, G: Fn(R) -> R>(self, root: F, arctangent: G) -> (p: Polar<R>)
        requires
            may_take_magnitude(self.real, self.imaginary, root),
            may_take_phase(self.real, self.imaginary, arctangent),
        ensures
            Cartesian(self.real, self.imaginary).polar_of(root, arctangent, p),
    {
        self.to_cartesian().to_polar(root, arctangent)
    }

    /// The complex number at the point `p`:
    /// `magnitude * cosine(phase) + magnitude * sine(phase)·i`.
    pub fn from_polar<F: Fn(R) -> R, G: Fn(R) -> R>(p: Polar<R>, cosine: F, sine: G) -> (r: Self)
        requires
            p.may_turn_cartesian(cosine, sine),
        ensures
            p.cartesian_of(cosine, sine, Cartesian(r.real, r.imaginary)),
    {
        Complex::from_cartesian(p.to_cartesian(cosine, sine))
    }

    /// The point of the plane that `self` is: `(real, imaginary)`.
    pub fn to_cartesian(self) -> (p: Cartesian<R>)
        ensures
            p.0 == self.real,
            p.1 == self.imaginary,
    {
        Cartesian(self.real, self.imaginary)
    }

    /// The complex number that the point `p` is: `p.0 + p.1·i`.
    pub fn from_cartesian(p: Cartesian<R>) -> (r: Self)
        ensures
            r.real == p.0,
            r.imaginary == p.1,
    {
        Complex { real: p.0, imaginary: p.1 }
    }
}

/// `t` is a text of the pair `(a, b)`: the two in round brackets, a comma and
/// a space between them.
pub open spec fn pair_text_of<R: Display>(a: R, b: R, t: Seq<char>) -> bool {
    exists|first: Seq<char>, second: Seq<char>|
        {
            &&& #[trigger] shows_as(a, first)
            &&& #[trigger] shows_as(b, second)
            &&& t == seq!['('] + first + seq![',', ' '] + second + seq![')']
        }
}

/// The text of the pair `(a, b)`.
pub(crate) fn pair_text<R: Display>(a: &R, b: &R) -> (t: String)
    ensures
        pair_text_of(*a, *b, t@),
{
    proof {
        reveal_strlit("(");
        reveal_strlit(", ");
        reveal_strlit(")");
    }
    let first = a.to_string();
    let second = b.to_string();
    assert(shows_as(*a, first@));
    assert(shows_as(*b, second@));
    let mut out = String::new();
    out.append("(");
    out.append(first.as_str());
    out.append(", ");
    out.append(second.as_str());
    out.append(")");
    assert(out@ =~= seq!['('] + first@ + seq![',', ' '] + second@ + seq![')']);
    out
}

impl<R: Display> Cartesian<R> {
    /// The text of `self`, such as `(1, -1)`.
    pub fn to_text(&self) -> (t: String)
        ensures
            pair_text_of(self.0, self.1, t@),
    {
        pair_text(&self.0, &self.1)
    }
}

impl<R: Display> Polar<R> {
    /// The text of `self`, such as `(2, 0.5)`: magnitude, then phase.
    pub fn to_text(&self) -> (t: String)
        ensures
            pair_text_of(self.0, self.1, t@),
    {
        pair_text(&self.0, &self.1)
    }
}

} // verus!
