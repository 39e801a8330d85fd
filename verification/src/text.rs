//! Character-level string helpers with exact specifications.
//!
//! Every string operation the detection rules need (placeholder
//! interpolation, space encoding, substring search, equality and the
//! lexicographic order that sorts site names) is stated here over the
//! `Seq<char>` view of a string.
use vstd::prelude::*;
use vstd::string::StringExecFns;

verus! {

broadcast use vstd::string::group_string_axioms;

/// `String::push` appends one character to the end of the string, as std
/// documents it.
pub assume_specification[ std::string::String::push ](s: &mut std::string::String, ch: char)
    ensures
        final(s)@ == old(s)@.push(ch),
;

/// The characters of `s`, in order.
pub fn chars_of(s: &str) -> (v: Vec<char>)
    ensures
        v@ == s@,
{
    let mut v: Vec<char> = Vec::new();
    for c in it: s.chars()
        invariant
            v@ == it.seq().take(it.index() as int),
    {
        v.push(c);
    }
    v
}

/// `t` holds the two-character placeholder `{}` starting at index `i`.
pub open spec fn placeholder_at(t: Seq<char>, i: int) -> bool {
    &&& 0 <= i
    &&& i + 1 < t.len()
    &&& t[i] == '{'
    &&& t[i + 1] == '}'
}

/// `t` with every placeholder `{}` replaced by `v`, scanning left to right
/// (the placeholder cannot overlap itself, so this is exactly "replace all").
pub open spec fn interpolated(t: Seq<char>, v: Seq<char>) -> Seq<char>
    decreases t.len(),
{
    if t.len() == 0 {
        Seq::empty()
    } else if placeholder_at(t, 0) {
        v + interpolated(t.skip(2), v)
    } else {
        seq![t[0]] + interpolated(t.skip(1), v)
    }
}

/// `u` with every space replaced by `%20`.
pub open spec fn spaces_encoded(u: Seq<char>) -> Seq<char>
    decreases u.len(),
{
    if u.len() == 0 {
        Seq::empty()
    } else if u[0] == ' ' {
        seq!['%', '2', '0'] + spaces_encoded(u.skip(1))
    } else {
        seq![u[0]] + spaces_encoded(u.skip(1))
    }
}

/// Replace every `{}` in `template` with `value`.
pub fn interpolate(template: &str, value: &str) -> (r: String)
    ensures
        r@ == interpolated(template@, value@),
{
    let t = chars_of(template);
    let n = t.len();
    let mut out = String::new();
    let mut i: usize = 0;
    assert(t@.skip(0) =~= t@);
    while i < n
        invariant
            t@ == template@,
            n == t@.len(),
            i <= n,
            out@ + interpolated(t@.skip(i as int), value@) == interpolated(template@, value@),
        decreases n - i,
    {
        let ghost rest = t@.skip(i as int);
        if i + 1 < n && t[i] == '{' && t[i + 1] == '}' {
            assert(placeholder_at(rest, 0));
            assert(rest.skip(2) =~= t@.skip(i + 2));
            let ghost before = out@;
            out.append(value);
            assert(before + (value@ + interpolated(rest.skip(2), value@)) =~= out@
                + interpolated(t@.skip(i + 2), value@));
            i = i + 2;
        } else {
            assert(!placeholder_at(rest, 0));
            assert(rest.skip(1) =~= t@.skip(i + 1));
            let ghost before = out@;
            out.push(t[i]);
            assert(before + (seq![rest[0]] + interpolated(rest.skip(1), value@)) =~= out@
                + interpolated(t@.skip(i + 1), value@));
            i = i + 1;
        }
    }
    assert(t@.skip(n as int) =~= Seq::<char>::empty());
    assert(out@ + Seq::<char>::empty() =~= out@);
    out
}

/// Replace every space in `u` with `%20`.
pub fn encode_spaces(u: &str) -> (r: String)
    ensures
        r@ == spaces_encoded(u@),
{
    let cs = chars_of(u);
    let n = cs.len();
    let mut out = String::new();
    let mut i: usize = 0;
    assert(cs@.skip(0) =~= cs@);
    while i < n
        invariant
            cs@ == u@,
            n == cs@.len(),
            i <= n,
            out@ + spaces_encoded(cs@.skip(i as int)) == spaces_encoded(u@),
        decreases n - i,
    {
        let ghost rest = cs@.skip(i as int);
        assert(rest.skip(1) =~= cs@.skip(i + 1));
        let ghost before = out@;
        if cs[i] == ' ' {
            out.push('%');
            out.push('2');
            out.push('0');
            assert(before + (seq!['%', '2', '0'] + spaces_encoded(rest.skip(1))) =~= out@
                + spaces_encoded(cs@.skip(i + 1)));
        } else {
            out.push(cs[i]);
            assert(before + (seq![rest[0]] + spaces_encoded(rest.skip(1))) =~= out@
                + spaces_encoded(cs@.skip(i + 1)));
        }
        i = i + 1;
    }
    assert(cs@.skip(n as int) =~= Seq::<char>::empty());
    assert(out@ + Seq::<char>::empty() =~= out@);
    out
}

/// A template without placeholders is left as it is.
pub proof fn law_interpolation_without_placeholder(t: Seq<char>, v: Seq<char>)
    requires
        forall|i: int| !placeholder_at(t, i),
    ensures
        interpolated(t, v) == t,
    decreases t.len(),
{
    if t.len() > 0 {
        assert(!placeholder_at(t, 0));
        assert forall|i: int| !placeholder_at(t.skip(1), i) by {
            if placeholder_at(t.skip(1), i) {
                assert(placeholder_at(t, i + 1));
            }
        }
        law_interpolation_without_placeholder(t.skip(1), v);
        assert(t =~= seq![t[0]] + t.skip(1));
    }
}

/// A template with one placeholder between two parts that hold none gives
/// the first part, the value, then the second part.
pub proof fn law_interpolation_single_placeholder(a: Seq<char>, b: Seq<char>, v: Seq<char>)
    requires
        forall|i: int| !placeholder_at(a, i),
        forall|i: int| !placeholder_at(b, i),
    ensures
        interpolated(a + seq!['{', '}'] + b, v) == a + v + b,
    decreases a.len(),
{
    let t = a + seq!['{', '}'] + b;
    if a.len() == 0 {
        assert(t =~= seq!['{', '}'] + b);
        assert(placeholder_at(t, 0));
        assert(t.skip(2) =~= b);
        law_interpolation_without_placeholder(b, v);
        assert(a + v + b =~= v + b);
    } else {
        if a.len() == 1 {
            assert(t[1] == '{');
        } else {
            assert(!placeholder_at(a, 0));
        }
        assert(!placeholder_at(t, 0));
        assert forall|i: int| !placeholder_at(a.skip(1), i) by {
            if placeholder_at(a.skip(1), i) {
                assert(placeholder_at(a, i + 1));
            }
        }
        law_interpolation_single_placeholder(a.skip(1), b, v);
        assert(t.skip(1) =~= a.skip(1) + seq!['{', '}'] + b);
        assert(a + v + b =~= seq![a[0]] + (a.skip(1) + v + b));
    }
}

/// Encoded usernames hold no space.
pub proof fn law_encoded_has_no_space(u: Seq<char>)
    ensures
        !spaces_encoded(u).contains(' '),
    decreases u.len(),
{
    if u.len() > 0 {
        law_encoded_has_no_space(u.skip(1));
        let rest = spaces_encoded(u.skip(1));
        if u[0] == ' ' {
            let head = seq!['%', '2', '0'];
            assert forall|i: int| 0 <= i < (head + rest).len() implies (head + rest)[i] != ' ' by {
                if i >= 3 {
                    assert((head + rest)[i] == rest[i - 3]);
                }
            }
        } else {
            let head = seq![u[0]];
            assert forall|i: int| 0 <= i < (head + rest).len() implies (head + rest)[i] != ' ' by {
                if i >= 1 {
                    assert((head + rest)[i] == rest[i - 1]);
                }
            }
        }
    }
}

/// Encoding leaves every character but the space as it is: a username
/// without spaces is unchanged.
pub proof fn law_encoding_keeps_other_characters(u: Seq<char>)
    requires
        !u.contains(' '),
    ensures
        spaces_encoded(u) == u,
    decreases u.len(),
{
    if u.len() > 0 {
        assert(u[0] != ' ') by {
            assert(u.contains(u[0]) || u[0] != ' ');
        }
        assert forall|i: int| 0 <= i < u.skip(1).len() implies u.skip(1)[i] != ' ' by {
            assert(u.skip(1)[i] == u[i + 1]);
        }
        law_encoding_keeps_other_characters(u.skip(1));
        assert(u =~= seq![u[0]] + u.skip(1));
    }
}

/// A space becomes `%20`.
pub proof fn law_encoding_of_a_space()
    ensures
        spaces_encoded(seq![' ']) == seq!['%', '2', '0'],
{
    let sp: Seq<char> = seq![' '];
    assert(sp[0] == ' ');
    assert(sp.skip(1) =~= Seq::<char>::empty());
    assert(spaces_encoded(Seq::<char>::empty()) == Seq::<char>::empty());
    assert(spaces_encoded(sp) == seq!['%', '2', '0'] + spaces_encoded(sp.skip(1)));
    assert(seq!['%', '2', '0'] + Seq::<char>::empty() =~= seq!['%', '2', '0']);
}

/// Encoding works character by character: the encoding of two texts put
/// together is the two encodings put together.
pub proof fn law_encoding_distributes(a: Seq<char>, b: Seq<char>)
    ensures
        spaces_encoded(a + b) == spaces_encoded(a) + spaces_encoded(b),
    decreases a.len(),
{
    if a.len() == 0 {
        assert(a + b =~= b);
        assert(spaces_encoded(a) + spaces_encoded(b) =~= spaces_encoded(b));
    } else {
        law_encoding_distributes(a.skip(1), b);
        assert((a + b).skip(1) =~= a.skip(1) + b);
        assert((a + b)[0] == a[0]);
        let head: Seq<char> = if a[0] == ' ' { seq!['%', '2', '0'] } else { seq![a[0]] };
        assert(spaces_encoded(a + b) == head + spaces_encoded(a.skip(1) + b));
        assert(spaces_encoded(a) == head + spaces_encoded(a.skip(1)));
        assert(head + (spaces_encoded(a.skip(1)) + spaces_encoded(b)) =~= (head + spaces_encoded(
            a.skip(1),
        )) + spaces_encoded(b));
    }
}

/// Interpolating a value without spaces into a template without spaces
/// gives a text without spaces.
pub proof fn law_interpolation_keeps_out_spaces(t: Seq<char>, v: Seq<char>)
    requires
        !t.contains(' '),
        !v.contains(' '),
    ensures
        !interpolated(t, v).contains(' '),
    decreases t.len(),
{
    if t.len() > 0 {
        let n: int = if placeholder_at(t, 0) { 2 } else { 1 };
        assert forall|i: int| 0 <= i < t.skip(n).len() implies t.skip(n)[i] != ' ' by {
            assert(t.skip(n)[i] == t[i + n]);
        }
        law_interpolation_keeps_out_spaces(t.skip(n), v);
        let rest = interpolated(t.skip(n), v);
        let head = if placeholder_at(t, 0) { v } else { seq![t[0]] };
        assert(interpolated(t, v) == head + rest);
        assert forall|i: int| 0 <= i < (head + rest).len() implies (head + rest)[i] != ' ' by {
            if i >= head.len() {
                assert((head + rest)[i] == rest[i - head.len()]);
            } else {
                assert((head + rest)[i] == head[i]);
                if !placeholder_at(t, 0) {
                    assert(head[i] == t[0]);
                }
            }
        }
    }
}

/// `needle` occurs in `hay` starting at index `i`.
pub open spec fn occurs_at(hay: Seq<char>, needle: Seq<char>, i: int) -> bool {
    &&& 0 <= i
    &&& i + needle.len() <= hay.len()
    &&& hay.subrange(i, i + needle.len()) == needle
}

/// `needle` is a substring of `hay` (the empty string is a substring of
/// every string).
pub open spec fn contains_text(hay: Seq<char>, needle: Seq<char>) -> bool {
    exists|i: int| occurs_at(hay, needle, i)
}

/// A text is found inside any text that holds it, wherever it stands.
pub proof fn law_found_wherever_it_stands(a: Seq<char>, needle: Seq<char>, b: Seq<char>)
    ensures
        contains_text(a + needle + b, needle),
{
    let hay = a + needle + b;
    assert(hay.subrange(a.len() as int, (a.len() + needle.len()) as int) =~= needle);
    assert(occurs_at(hay, needle, a.len() as int));
}

/// A text is never found inside a shorter one.
pub proof fn law_longer_text_not_found(hay: Seq<char>, needle: Seq<char>)
    requires
        needle.len() > hay.len(),
    ensures
        !contains_text(hay, needle),
{
}

fn occurs_at_exec(hay: &Vec<char>, needle: &Vec<char>, i: usize) -> (r: bool)
    requires
        i + needle@.len() <= hay@.len(),
    ensures
        r == occurs_at(hay@, needle@, i as int),
{
    let m = needle.len();
    let hn = hay.len();
    let mut k: usize = 0;
    while k < m
        invariant
            m == needle@.len(),
            hn == hay@.len(),
            i + m <= hay@.len(),
            k <= m,
            forall|l: int| 0 <= l < k ==> hay@[i + l] == needle@[l],
        decreases m - k,
    {
        if hay[i + k] != needle[k] {
            assert(hay@.subrange(i as int, i + m)[k as int] != needle@[k as int]);
            return false;
        }
        k = k + 1;
    }
    assert(hay@.subrange(i as int, i + m) =~= needle@);
    true
}

/// Substring search over character vectors.
pub fn contains_chars(hay: &Vec<char>, needle: &Vec<char>) -> (r: bool)
    ensures
        r == contains_text(hay@, needle@),
{
    let n = hay.len();
    let m = needle.len();
    if m == 0 {
        assert(hay@.subrange(0, 0) =~= needle@);
        assert(occurs_at(hay@, needle@, 0));
        return true;
    }
    let mut i: usize = 0;
    while i <= n && m <= n - i
        invariant
            n == hay@.len(),
            m == needle@.len(),
            m > 0,
            i <= n,
            forall|j: int| 0 <= j < i ==> !occurs_at(hay@, needle@, j),
        decreases n - i,
    {
        if occurs_at_exec(hay, needle, i) {
            return true;
        }
        i = i + 1;
    }
    assert forall|j: int| !occurs_at(hay@, needle@, j) by {
        if 0 <= j < i {
        } else if j >= i {
            assert(j + m > n);
        }
    }
    false
}

/// Equality of two character vectors.
pub fn chars_equal(a: &Vec<char>, b: &Vec<char>) -> (r: bool)
    ensures
        r == (a@ == b@),
{
    if a.len() != b.len() {
        return false;
    }
    let n = a.len();
    let mut k: usize = 0;
    while k < n
        invariant
            n == a@.len(),
            n == b@.len(),
            k <= n,
            forall|l: int| 0 <= l < k ==> a@[l] == b@[l],
        decreases n - k,
    {
        if a[k] != b[k] {
            return false;
        }
        k = k + 1;
    }
    assert(a@ =~= b@);
    true
}

/// Equality of two strings, character by character.
pub fn str_equals(a: &str, b: &str) -> (r: bool)
    ensures
        r == (a@ == b@),
{
    let x = chars_of(a);
    let y = chars_of(b);
    chars_equal(&x, &y)
}

/// `s` is non-empty and starts with `c`.
pub fn starts_with_char(s: &str, c: char) -> (r: bool)
    ensures
        r == (s@.len() > 0 && s@[0] == c),
{
    let cs = chars_of(s);
    cs.len() > 0 && cs[0] == c
}

/// What Rust's `Debug` formatting of a string writes: the string in double
/// quotes, with escapes.
pub uninterp spec fn debug_text(s: Seq<char>) -> Seq<char>;

/// Calls `<str as Debug>::fmt` (through `format!("{:?}")`); the result is
/// named, not described: it depends on `s` alone.
#[verifier::external_body]
pub(crate) fn debug_quoted(s: &str) -> (r: String)
    ensures
        r@ == debug_text(s@),
{
    format!("{:?}", s)
}

/// What `str::to_lowercase` returns for `s` (the Unicode lowercase mapping,
/// final-sigma rule included).
pub uninterp spec fn lowercase(s: Seq<char>) -> Seq<char>;

/// Calls `str::to_lowercase`; the result is named, not described: it depends
/// on `s` alone.
#[verifier::external_body]
pub(crate) fn lowercase_of(s: &str) -> (r: String)
    ensures
        r@ == lowercase(s@),
{
    s.to_lowercase()
}

} // verus!
