//! A JSON value as the library holds it, so that request payloads can be
//! inspected and rewritten by verified code.
//!
//! Numbers are held as their JSON text: the detection rules never read a
//! number, they only carry it through unchanged.
use vstd::prelude::*;
use crate::text::{interpolate, interpolated};
use crate::order::precedes;

verus! {

/// A JSON document. Object members keep the order in which they were read.
#[derive(Debug)]
pub enum JsonValue {
    Null,
    Bool(bool),
    Number(String),
    String(String),
    Array(Vec<JsonValue>),
    Object(Vec<(String, JsonValue)>),
}

/// `r` is `v` with `{}` replaced by `u` inside every string value (object
/// keys, numbers, booleans and nulls are kept as they are, and so is the
/// shape of every array and object).
pub open spec fn interpolated_json(v: JsonValue, u: Seq<char>, r: JsonValue) -> bool
    decreases v,
{
    match v {
        JsonValue::Null => r is Null,
        JsonValue::Bool(b) => r == JsonValue::Bool(b),
        JsonValue::Number(n) => r matches JsonValue::Number(m) && m@ == n@,
        JsonValue::String(s) => r matches JsonValue::String(t) && t@ == interpolated(s@, u),
        JsonValue::Array(items) => r matches JsonValue::Array(out) && out@.len() == items@.len()
            && forall|i: int|
            0 <= i < items@.len() ==> interpolated_json(#[trigger] items@[i], u, out@[i]),
        JsonValue::Object(members) => r matches JsonValue::Object(out) && out@.len()
            == members@.len() && forall|i: int|
            0 <= i < members@.len() ==> {
                &&& out@[i].0@ == (#[trigger] members@[i]).0@
                &&& interpolated_json(members@[i].1, u, out@[i].1)
            },
    }
}

/// Replace `{}` with `username` in every string value of `v`.
pub fn interpolate_value(v: &JsonValue, username: &str) -> (r: JsonValue)
    ensures
        interpolated_json(*v, username@, r),
        json_well_formed(*v) ==> json_well_formed(r),
    decreases v,
{
    let r = interpolate_value_shape(v, username);
    proof {
        if json_well_formed(*v) {
            lemma_interpolated_json_well_formed(*v, username@, r);
        }
    }
    r
}

fn interpolate_value_shape(v: &JsonValue, username: &str) -> (r: JsonValue)
    ensures
        interpolated_json(*v, username@, r),
    decreases v,
{
    match v {
        JsonValue::Null => JsonValue::Null,
        JsonValue::Bool(b) => JsonValue::Bool(*b),
        JsonValue::Number(n) => JsonValue::Number(n.clone()),
        JsonValue::String(s) => JsonValue::String(interpolate(s.as_str(), username)),
        JsonValue::Array(items) => {
            let mut out: Vec<JsonValue> = Vec::new();
            let n = items.len();
            let mut i: usize = 0;
            while i < n
                invariant
                    *v == JsonValue::Array(*items),
                    n == items@.len(),
                    i <= n,
                    out@.len() == i,
                    forall|j: int| 0 <= j < i ==> interpolated_json(#[trigger] items@[j], username@, out@[j]),
                decreases n - i,
            {
                assert(decreases_to!(*v => (*v)->Array_0));
                assert(decreases_to!(*items => items@));
                assert(decreases_to!(items@ => items@[i as int]));
                out.push(interpolate_value_shape(&items[i], username));
                i = i + 1;
            }
            JsonValue::Array(out)
        },
        JsonValue::Object(members) => {
            let mut out: Vec<(String, JsonValue)> = Vec::new();
            let n = members.len();
            let mut i: usize = 0;
            while i < n
                invariant
                    *v == JsonValue::Object(*members),
                    n == members@.len(),
                    i <= n,
                    out@.len() == i,
                    forall|j: int| 0 <= j < i ==> {
                        &&& out@[j].0@ == (#[trigger] members@[j]).0@
                        &&& interpolated_json(members@[j].1, username@, out@[j].1)
                    },
                decreases n - i,
            {
                assert(decreases_to!(*v => (*v)->Object_0));
                assert(decreases_to!(*members => members@));
                assert(decreases_to!(members@ => members@[i as int]));
                assert(decreases_to!(members@[i as int] => members@[i as int].1));
                let key = members[i].0.clone();
                let value = interpolate_value_shape(&members[i].1, username);
                out.push((key, value));
                i = i + 1;
            }
            JsonValue::Object(out)
        },
    }
}

/// Member names in strictly ascending order (so no name twice), as in a
/// JSON object read into a name-ordered map.
pub open spec fn members_ascending(m: Seq<(String, JsonValue)>) -> bool {
    forall|i: int, j: int| 0 <= i < j < m.len() ==> precedes(#[trigger] m[i].0@, #[trigger] m[j].0@)
}

/// Every object in `v`, however deep, lists its members in ascending name
/// order with no name twice.
pub open spec fn json_well_formed(v: JsonValue) -> bool
    decreases v,
{
    match v {
        JsonValue::Array(items) => forall|i: int|
            0 <= i < items@.len() ==> json_well_formed(#[trigger] items@[i]),
        JsonValue::Object(members) => members_ascending(members@) && forall|i: int|
            0 <= i < members@.len() ==> json_well_formed((#[trigger] members@[i]).1),
        _ => true,
    }
}

/// Interpolation keeps a document well formed.
pub proof fn lemma_interpolated_json_well_formed(v: JsonValue, u: Seq<char>, r: JsonValue)
    requires
        interpolated_json(v, u, r),
        json_well_formed(v),
    ensures
        json_well_formed(r),
    decreases v,
{
    match v {
        JsonValue::Array(items) => {
            let out = r->Array_0;
            assert forall|i: int| 0 <= i < out@.len() implies json_well_formed(#[trigger] out@[i]) by {
                assert(decreases_to!(v => v->Array_0));
                assert(decreases_to!(items => items@));
                assert(decreases_to!(items@ => items@[i]));
                lemma_interpolated_json_well_formed(items@[i], u, out@[i]);
            }
        },
        JsonValue::Object(members) => {
            let out = r->Object_0;
            assert forall|i: int, j: int| 0 <= i < j < out@.len() implies precedes(
                #[trigger] out@[i].0@,
                #[trigger] out@[j].0@,
            ) by {
                assert(out@[i].0@ == members@[i].0@);
                assert(out@[j].0@ == members@[j].0@);
            }
            assert forall|i: int| 0 <= i < out@.len() implies json_well_formed(
                (#[trigger] out@[i]).1,
            ) by {
                assert(decreases_to!(v => v->Object_0));
                assert(decreases_to!(members => members@));
                assert(decreases_to!(members@ => members@[i]));
                assert(decreases_to!(members@[i] => members@[i].1));
                assert(interpolated_json(members@[i].1, u, out@[i].1));
                lemma_interpolated_json_well_formed(members@[i].1, u, out@[i].1);
            }
        },
        _ => {},
    }
}

/// Two JSON values hold the same document.
pub open spec fn same_json(a: JsonValue, b: JsonValue) -> bool
    decreases a,
{
    match a {
        JsonValue::Null => b is Null,
        JsonValue::Bool(x) => b == JsonValue::Bool(x),
        JsonValue::Number(n) => b matches JsonValue::Number(m) && m@ == n@,
        JsonValue::String(s) => b matches JsonValue::String(t) && t@ == s@,
        JsonValue::Array(items) => b matches JsonValue::Array(out) && out@.len() == items@.len()
            && forall|i: int| 0 <= i < items@.len() ==> same_json(#[trigger] items@[i], out@[i]),
        JsonValue::Object(members) => b matches JsonValue::Object(out) && out@.len()
            == members@.len() && forall|i: int|
            0 <= i < members@.len() ==> {
                &&& out@[i].0@ == (#[trigger] members@[i]).0@
                &&& same_json(members@[i].1, out@[i].1)
            },
    }
}

/// Two optional JSON values hold the same document, or are both absent.
pub open spec fn same_opt_json(a: Option<JsonValue>, b: Option<JsonValue>) -> bool {
    match a {
        Some(x) => b matches Some(y) && same_json(x, y),
        None => b is None,
    }
}

impl Clone for JsonValue {
    fn clone(&self) -> (r: Self)
        ensures
            same_json(*self, r),
        decreases self,
    {
        match self {
            JsonValue::Null => JsonValue::Null,
            JsonValue::Bool(b) => JsonValue::Bool(*b),
            JsonValue::Number(n) => JsonValue::Number(n.clone()),
            JsonValue::String(s) => JsonValue::String(s.clone()),
            JsonValue::Array(items) => {
                let mut out: Vec<JsonValue> = Vec::new();
                let n = items.len();
                let mut i: usize = 0;
                while i < n
                    invariant
                        *self == JsonValue::Array(*items),
                        n == items@.len(),
                        i <= n,
                        out@.len() == i,
                        forall|j: int| 0 <= j < i ==> same_json(#[trigger] items@[j], out@[j]),
                    decreases n - i,
                {
                    assert(decreases_to!(*self => (*self)->Array_0));
                    assert(decreases_to!(*items => items@));
                    assert(decreases_to!(items@ => items@[i as int]));
                    out.push(items[i].clone());
                    i = i + 1;
                }
                JsonValue::Array(out)
            },
            JsonValue::Object(members) => {
                let mut out: Vec<(String, JsonValue)> = Vec::new();
                let n = members.len();
                let mut i: usize = 0;
                while i < n
                    invariant
                        *self == JsonValue::Object(*members),
                        n == members@.len(),
                        i <= n,
                        out@.len() == i,
                        forall|j: int| 0 <= j < i ==> {
                            &&& out@[j].0@ == (#[trigger] members@[j]).0@
                            &&& same_json(members@[j].1, out@[j].1)
                        },
                    decreases n - i,
                {
                    assert(decreases_to!(*self => (*self)->Object_0));
                    assert(decreases_to!(*members => members@));
                    assert(decreases_to!(members@ => members@[i as int]));
                    assert(decreases_to!(members@[i as int] => members@[i as int].1));
                    let key = members[i].0.clone();
                    let value = members[i].1.clone();
                    out.push((key, value));
                    i = i + 1;
                }
                JsonValue::Object(out)
            },
        }
    }
}

/// A document that holds the same data as a well-formed one is well formed.
pub proof fn lemma_same_json_well_formed(a: JsonValue, b: JsonValue)
    requires
        same_json(a, b),
        json_well_formed(a),
    ensures
        json_well_formed(b),
    decreases a,
{
    match a {
        JsonValue::Array(items) => {
            let out = b->Array_0;
            assert forall|i: int| 0 <= i < out@.len() implies json_well_formed(#[trigger] out@[i]) by {
                assert(decreases_to!(a => a->Array_0));
                assert(decreases_to!(items => items@));
                assert(decreases_to!(items@ => items@[i]));
                lemma_same_json_well_formed(items@[i], out@[i]);
            }
        },
        JsonValue::Object(members) => {
            let out = b->Object_0;
            assert forall|i: int, j: int| 0 <= i < j < out@.len() implies precedes(
                #[trigger] out@[i].0@,
                #[trigger] out@[j].0@,
            ) by {
                assert(out@[i].0@ == members@[i].0@);
                assert(out@[j].0@ == members@[j].0@);
            }
            assert forall|i: int| 0 <= i < out@.len() implies json_well_formed(
                (#[trigger] out@[i]).1,
            ) by {
                assert(decreases_to!(a => a->Object_0));
                assert(decreases_to!(members => members@));
                assert(decreases_to!(members@ => members@[i]));
                assert(decreases_to!(members@[i] => members@[i].1));
                assert(same_json(members@[i].1, out@[i].1));
                lemma_same_json_well_formed(members@[i].1, out@[i].1);
            }
        },
        _ => {},
    }
}

/// The `i`-th element of an array, or the value of the `i`-th member of an
/// object.
pub open spec fn child(v: JsonValue, i: int) -> Option<JsonValue> {
    match v {
        JsonValue::Array(items) => if 0 <= i < items@.len() {
            Some(items@[i])
        } else {
            None
        },
        JsonValue::Object(members) => if 0 <= i < members@.len() {
            Some(members@[i].1)
        } else {
            None
        },
        _ => None,
    }
}

/// The value reached from `v` by following `path`, one array element or
/// member value at each step.
pub open spec fn at_path(v: JsonValue, path: Seq<int>) -> Option<JsonValue>
    decreases path.len(),
{
    if path.len() == 0 {
        Some(v)
    } else {
        match child(v, path[0]) {
            Some(c) => at_path(c, path.skip(1)),
            None => None,
        }
    }
}

/// Every string of a payload, however deep in arrays and objects, has the
/// username put in: where `v` holds the string `s`, the interpolated
/// document holds, at the same place, `s` with `{}` replaced by `u`.
pub proof fn law_every_string_is_interpolated(
    v: JsonValue,
    u: Seq<char>,
    r: JsonValue,
    path: Seq<int>,
)
    requires
        interpolated_json(v, u, r),
        at_path(v, path) matches Some(JsonValue::String(_)),
    ensures
        at_path(r, path) matches Some(JsonValue::String(t)) && t@ == interpolated(
            at_path(v, path)->0->String_0@,
            u,
        ),
    decreases path.len(),
{
    if path.len() > 0 {
        let i = path[0];
        let c = child(v, i)->0;
        match v {
            JsonValue::Array(items) => {
                assert(interpolated_json(items@[i], u, r->Array_0@[i]));
            },
            JsonValue::Object(members) => {
                assert(interpolated_json(members@[i].1, u, r->Object_0@[i].1));
            },
            _ => {},
        }
        law_every_string_is_interpolated(c, u, child(r, i)->0, path.skip(1));
    }
}

/// Objects keep their member names at every depth: where `v` has an object,
/// the interpolated document has one with the same names in the same order.
pub proof fn law_member_names_kept(v: JsonValue, u: Seq<char>, r: JsonValue, path: Seq<int>)
    requires
        interpolated_json(v, u, r),
        at_path(v, path) matches Some(JsonValue::Object(_)),
    ensures
        at_path(r, path) matches Some(JsonValue::Object(out)) && out@.len()
            == at_path(v, path)->0->Object_0@.len() && forall|i: int|
            0 <= i < out@.len() ==> (#[trigger] out@[i]).0@ == at_path(
                v,
                path,
            )->0->Object_0@[i].0@,
    decreases path.len(),
{
    if path.len() > 0 {
        let i = path[0];
        let c = child(v, i)->0;
        match v {
            JsonValue::Array(items) => {
                assert(interpolated_json(items@[i], u, r->Array_0@[i]));
            },
            JsonValue::Object(members) => {
                assert(interpolated_json(members@[i].1, u, r->Object_0@[i].1));
            },
            _ => {},
        }
        law_member_names_kept(c, u, child(r, i)->0, path.skip(1));
    }
}

} // verus!
