use vstd::prelude::*;
use vstd::string::to_string_from_display_ensures;
use core::fmt::Display;
use crate::scalar;
use crate::scalar::Scalar;

verus! {

/// `t` is a text that the scalar's own formatting can give for `x`.
pub open spec fn shows_as<R: Display>(x: R, t: Seq<char>) -> bool {
    exists|s: String| #[trigger] to_string_from_display_ensures::<R>(&x, s) && s@ == t
}

/// `b` is an answer that the test `x >= 0` can give, zero being the
/// scalar's zero.
pub open spec fn sign_test<R: Scalar + PartialOrd>(x: R, b: bool) -> bool {
    exists|z: R| scalar::zero_value(z) && #[trigger] call_ensures(R::ge, (&x, &z), b)
}

/// The texts `parts` in order, with `separator` between each two neighbours.
pub open spec fn joined(parts: Seq<Seq<char>>, separator: Seq<char>) -> Seq<char>
    decreases parts.len(),
{
    if parts.len() == 0 {
        Seq::empty()
    } else if parts.len() == 1 {
        parts[0]
    } else {
        joined(parts.drop_last(), separator) + separator + parts.last()
    }
}

/// `inner` between square brackets.
pub open spec fn bracketed(inner: Seq<char>) -> Seq<char> {
    seq!['['] + inner + seq![']']
}

/// The separator between the items of a list: a comma and a space.
pub open spec fn item_separator() -> Seq<char> {
    seq![',', ' ']
}

/// The separator between the rows of a table: a comma.
pub open spec fn row_separator() -> Seq<char> {
    seq![',']
}

/// What each of `parts` reads, in order.
pub open spec fn texts(parts: Seq<String>) -> Seq<Seq<char>> {
    Seq::new(parts.len(), |i: int| parts[i]@)
}

/// Joins `parts` with `separator` between neighbours.
pub(crate) fn join(parts: &Vec<String>, separator: &str) -> (t: String)
    ensures
        t@ == joined(texts(parts@), separator@),
{
    let ghost all = texts(parts@);
    let mut out = String::new();
    let mut i: usize = 0;
    assert(all.take(0) =~= Seq::empty());
    while i < parts.len()
        invariant
            i <= parts.len(),
            all == texts(parts@),
            out@ == joined(all.take(i as int), separator@),
        decreases parts.len() - i,
    {
        proof {
            let longer = all.take(i + 1);
            assert(longer.drop_last() =~= all.take(i as int));
            assert(longer.last() == parts@[i as int]@);
        }
        if i > 0 {
            out.append(separator);
        }
        out.append(parts[i].as_str());
        assert(out@ =~= joined(all.take(i + 1), separator@));
        i += 1;
    }
    assert(all.take(i as int) =~= all);
    out
}

/// Puts `inner` between square brackets.
pub(crate) fn bracket(inner: &str) -> (t: String)
    ensures
        t@ == bracketed(inner@),
{
    proof {
        reveal_strlit("[");
        reveal_strlit("]");
    }
    let mut out = String::new();
    out.append("[");
    out.append(inner);
    out.append("]");
    assert(out@ =~= bracketed(inner@));
    out
}

} // verus!
