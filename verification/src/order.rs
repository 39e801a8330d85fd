//! The lexicographic order of strings by code point, which is the order of
//! `String`'s `Ord` (UTF-8 byte order coincides with code point order).
use vstd::prelude::*;
use crate::text::chars_of;

verus! {

/// `a` sorts strictly before `b`.
pub open spec fn precedes(a: Seq<char>, b: Seq<char>) -> bool
    decreases a.len(),
{
    if a.len() == 0 {
        b.len() > 0
    } else if b.len() == 0 {
        false
    } else if a[0] != b[0] {
        (a[0] as int) < (b[0] as int)
    } else {
        precedes(a.skip(1), b.skip(1))
    }
}

/// No string sorts before itself.
pub proof fn lemma_precedes_irreflexive(a: Seq<char>)
    ensures
        !precedes(a, a),
    decreases a.len(),
{
    if a.len() > 0 {
        lemma_precedes_irreflexive(a.skip(1));
    }
}

/// The order is transitive.
pub proof fn lemma_precedes_transitive(a: Seq<char>, b: Seq<char>, c: Seq<char>)
    requires
        precedes(a, b),
        precedes(b, c),
    ensures
        precedes(a, c),
    decreases a.len(),
{
    if a.len() > 0 && b.len() > 0 && c.len() > 0 && a[0] == b[0] && b[0] == c[0] {
        lemma_precedes_transitive(a.skip(1), b.skip(1), c.skip(1));
    }
}

/// Any two distinct strings are ordered one way or the other.
pub proof fn lemma_precedes_total(a: Seq<char>, b: Seq<char>)
    ensures
        a == b || precedes(a, b) || precedes(b, a),
    decreases a.len(),
{
    if a.len() == 0 && b.len() == 0 {
        assert(a =~= b);
    } else if a.len() > 0 && b.len() > 0 && a[0] == b[0] {
        lemma_precedes_total(a.skip(1), b.skip(1));
        if a.skip(1) == b.skip(1) {
            assert(a =~= seq![a[0]] + a.skip(1));
            assert(b =~= seq![b[0]] + b.skip(1));
        }
    } else if a.len() > 0 && b.len() > 0 {
        assert((a[0] as int) != (b[0] as int));
    }
}

/// The order is asymmetric.
pub proof fn lemma_precedes_asymmetric(a: Seq<char>, b: Seq<char>)
    requires
        precedes(a, b),
    ensures
        !precedes(b, a),
    decreases a.len(),
{
    if a.len() > 0 && b.len() > 0 && a[0] == b[0] {
        lemma_precedes_asymmetric(a.skip(1), b.skip(1));
    }
}

/// The first character that differs decides the order, whatever the
/// lengths of the texts.
pub proof fn law_first_difference_decides(c: char, d: char, a: Seq<char>, b: Seq<char>)
    requires
        (c as int) < (d as int),
    ensures
        precedes(seq![c] + a, seq![d] + b),
        !precedes(seq![d] + b, seq![c] + a),
{
    let x = seq![c] + a;
    let y = seq![d] + b;
    assert(x[0] == c && y[0] == d);
    assert(x.len() > 0 && y.len() > 0);
}

/// A common beginning does not change the order.
pub proof fn law_common_prefix(p: Seq<char>, a: Seq<char>, b: Seq<char>)
    ensures
        precedes(p + a, p + b) == precedes(a, b),
    decreases p.len(),
{
    if p.len() == 0 {
        assert(p + a =~= a);
        assert(p + b =~= b);
    } else {
        let x = p + a;
        let y = p + b;
        assert(x[0] == p[0] && y[0] == p[0]);
        assert(x.skip(1) =~= p.skip(1) + a);
        assert(y.skip(1) =~= p.skip(1) + b);
        law_common_prefix(p.skip(1), a, b);
    }
}

/// A text sorts before every longer text that begins with it.
pub proof fn law_prefix_precedes(a: Seq<char>, b: Seq<char>)
    requires
        b.len() > 0,
    ensures
        precedes(a, a + b),
        !precedes(a + b, a),
{
    law_common_prefix(a, Seq::empty(), b);
    law_common_prefix(a, b, Seq::empty());
    assert(a + Seq::<char>::empty() =~= a);
}

/// Whether `a` sorts strictly before `b`.
pub fn str_precedes(a: &str, b: &str) -> (r: bool)
    ensures
        r == precedes(a@, b@),
{
    let x = chars_of(a);
    let y = chars_of(b);
    let xn = x.len();
    let yn = y.len();
    let mut k: usize = 0;
    assert(x@.skip(0) =~= x@);
    assert(y@.skip(0) =~= y@);
    loop
        invariant
            xn == x@.len(),
            yn == y@.len(),
            x@ == a@,
            y@ == b@,
            k <= xn,
            k <= yn,
            precedes(a@, b@) == precedes(x@.skip(k as int), y@.skip(k as int)),
        decreases xn - k,
    {
        if k == xn {
            return k < yn;
        }
        if k == yn {
            return false;
        }
        if x[k] != y[k] {
            return x[k] < y[k];
        }
        assert(x@.skip(k as int).skip(1) =~= x@.skip(k + 1));
        assert(y@.skip(k as int).skip(1) =~= y@.skip(k + 1));
        k = k + 1;
    }
}

} // verus!
