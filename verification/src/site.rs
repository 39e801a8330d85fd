//! One site's detection recipe, as the manifest describes it.
use vstd::prelude::*;
use crate::json::{
    JsonValue, same_opt_json, json_well_formed, lemma_same_json_well_formed,
};
use crate::order::precedes;

verus! {

/// A field that may appear in the manifest as a single value or a list of them.
#[derive(Debug)]
pub enum OneOrMany<T> {
    One(T),
    Many(Vec<T>),
}

impl<T> OneOrMany<T> {
    /// The values held, in order.
    pub open spec fn items(&self) -> Seq<T> {
        match self {
            OneOrMany::One(v) => seq![*v],
            OneOrMany::Many(v) => v@,
        }
    }
}

impl<T: Clone> OneOrMany<T> {
    /// Normalize to a `Vec`, whichever shape the field had.
    pub fn to_vec(&self) -> (r: Vec<T>)
        ensures
            r@.len() == self.items().len(),
            forall|i: int| 0 <= i < r@.len() ==> cloned::<T>(self.items()[i], #[trigger] r@[i]),
    {
        match self {
            OneOrMany::One(v) => {
                let mut r = Vec::new();
                r.push(v.clone());
                r
            },
            OneOrMany::Many(v) => v.clone(),
        }
    }
}

impl<T: Clone> Clone for OneOrMany<T> {
    fn clone(&self) -> (r: Self)
        ensures
            (r is One) == (self is One),
            r.items().len() == self.items().len(),
            forall|i: int|
                0 <= i < r.items().len() ==> cloned::<T>(self.items()[i], #[trigger] r.items()[i]),
    {
        match self {
            OneOrMany::One(v) => OneOrMany::One(v.clone()),
            OneOrMany::Many(v) => OneOrMany::Many(v.clone()),
        }
    }
}

/// How a site signals "this username does not exist".
#[derive(Debug, Clone, Copy, PartialEq, Eq, Structural)]
pub enum ErrorType {
    StatusCode,
    Message,
    ResponseUrl,
}

/// One site's detection recipe (one entry of the manifest).
#[derive(Debug)]
pub struct Site {
    pub url: String,
    pub url_main: String,
    pub error_type: ErrorType,
    pub username_claimed: Option<String>,
    pub error_msg: Option<OneOrMany<String>>,
    pub error_code: Option<OneOrMany<i64>>,
    pub error_url: Option<String>,
    pub regex_check: Option<String>,
    pub url_probe: Option<String>,
    pub request_method: Option<String>,
    pub request_payload: Option<JsonValue>,
    /// Header overrides, in ascending name order.
    pub headers: Option<Vec<(String, String)>>,
    pub is_nsfw: bool,
}

/// The characters of an optional string.
pub open spec fn opt_text(o: Option<String>) -> Option<Seq<char>> {
    match o {
        Some(s) => Some(s@),
        None => None,
    }
}

/// The characters of each of a list of strings.
pub open spec fn texts(s: Seq<String>) -> Seq<Seq<char>> {
    s.map_values(|x: String| x@)
}

/// The characters of each string of an optional list of strings.
pub open spec fn opt_texts(o: Option<OneOrMany<String>>) -> Option<Seq<Seq<char>>> {
    match o {
        Some(m) => Some(texts(m.items())),
        None => None,
    }
}

/// The codes of an optional list of codes.
pub open spec fn opt_codes(o: Option<OneOrMany<i64>>) -> Option<Seq<i64>> {
    match o {
        Some(m) => Some(m.items()),
        None => None,
    }
}

/// The characters of each name and value of a list of headers.
pub open spec fn header_texts(h: Seq<(String, String)>) -> Seq<(Seq<char>, Seq<char>)> {
    h.map_values(|p: (String, String)| (p.0@, p.1@))
}

/// The characters of an optional list of headers.
pub open spec fn opt_headers(o: Option<Vec<(String, String)>>) -> Option<Seq<(Seq<char>, Seq<char>)>> {
    match o {
        Some(h) => Some(header_texts(h@)),
        None => None,
    }
}

/// Header names in strictly ascending order (so no name twice), as in a
/// name-ordered map of headers.
pub open spec fn header_names_ascending(h: Seq<(String, String)>) -> bool {
    forall|i: int, j: int| 0 <= i < j < h.len() ==> precedes(#[trigger] h[i].0@, #[trigger] h[j].0@)
}

/// A recipe as the manifest file gives it: its headers are listed in
/// ascending name order with no name twice, and every object of its
/// payload lists its members likewise.
pub open spec fn site_well_formed(site: Site) -> bool {
    &&& site.headers matches Some(h) ==> header_names_ascending(h@)
    &&& site.request_payload matches Some(p) ==> json_well_formed(p)
}

/// Two recipes hold the same data.
pub open spec fn same_site(a: Site, b: Site) -> bool {
    &&& a.url@ == b.url@
    &&& a.url_main@ == b.url_main@
    &&& a.error_type == b.error_type
    &&& opt_text(a.username_claimed) == opt_text(b.username_claimed)
    &&& opt_texts(a.error_msg) == opt_texts(b.error_msg)
    &&& opt_codes(a.error_code) == opt_codes(b.error_code)
    &&& opt_text(a.error_url) == opt_text(b.error_url)
    &&& opt_text(a.regex_check) == opt_text(b.regex_check)
    &&& opt_text(a.url_probe) == opt_text(b.url_probe)
    &&& opt_text(a.request_method) == opt_text(b.request_method)
    &&& same_opt_json(a.request_payload, b.request_payload)
    &&& opt_headers(a.headers) == opt_headers(b.headers)
    &&& a.is_nsfw == b.is_nsfw
}

fn clone_opt_text(o: &Option<String>) -> (r: Option<String>)
    ensures
        opt_text(r) == opt_text(*o),
{
    match o {
        Some(s) => Some(s.clone()),
        None => None,
    }
}

fn clone_messages(o: &Option<OneOrMany<String>>) -> (r: Option<OneOrMany<String>>)
    ensures
        opt_texts(r) == opt_texts(*o),
{
    match o {
        Some(m) => {
            let c = m.clone();
            assert(texts(c.items()) =~= texts(m.items()));
            Some(c)
        },
        None => None,
    }
}

fn clone_codes(o: &Option<OneOrMany<i64>>) -> (r: Option<OneOrMany<i64>>)
    ensures
        opt_codes(r) == opt_codes(*o),
{
    match o {
        Some(m) => {
            let c = m.clone();
            assert(c.items() =~= m.items());
            Some(c)
        },
        None => None,
    }
}

fn clone_payload(o: &Option<JsonValue>) -> (r: Option<JsonValue>)
    ensures
        same_opt_json(*o, r),
{
    match o {
        Some(v) => Some(v.clone()),
        None => None,
    }
}

fn clone_headers(o: &Option<Vec<(String, String)>>) -> (r: Option<Vec<(String, String)>>)
    ensures
        opt_headers(r) == opt_headers(*o),
{
    match o {
        Some(h) => {
            let mut out: Vec<(String, String)> = Vec::new();
            let n = h.len();
            let mut i: usize = 0;
            while i < n
                invariant
                    n == h@.len(),
                    i <= n,
                    out@.len() == i,
                    forall|j: int|
                        0 <= j < i ==> (#[trigger] out@[j]).0@ == h@[j].0@ && out@[j].1@ == h@[j].1@,
                decreases n - i,
            {
                let k = h[i].0.clone();
                let v = h[i].1.clone();
                out.push((k, v));
                i = i + 1;
            }
            assert(header_texts(out@) =~= header_texts(h@));
            Some(out)
        },
        None => None,
    }
}

impl Clone for Site {
    fn clone(&self) -> (r: Self)
        ensures
            same_site(*self, r),
    {
        Site {
            url: self.url.clone(),
            url_main: self.url_main.clone(),
            error_type: self.error_type,
            username_claimed: clone_opt_text(&self.username_claimed),
            error_msg: clone_messages(&self.error_msg),
            error_code: clone_codes(&self.error_code),
            error_url: clone_opt_text(&self.error_url),
            regex_check: clone_opt_text(&self.regex_check),
            url_probe: clone_opt_text(&self.url_probe),
            request_method: clone_opt_text(&self.request_method),
            request_payload: clone_payload(&self.request_payload),
            headers: clone_headers(&self.headers),
            is_nsfw: self.is_nsfw,
        }
    }
}

/// Lists of headers with the same names and values are ordered alike.
pub proof fn lemma_same_headers_ascending(a: Seq<(String, String)>, b: Seq<(String, String)>)
    requires
        header_texts(a) == header_texts(b),
        header_names_ascending(a),
    ensures
        header_names_ascending(b),
{
    assert(a.len() == header_texts(a).len());
    assert forall|i: int, j: int| 0 <= i < j < b.len() implies precedes(
        #[trigger] b[i].0@,
        #[trigger] b[j].0@,
    ) by {
        assert(header_texts(b)[i] == header_texts(a)[i]);
        assert(header_texts(b)[j] == header_texts(a)[j]);
        assert(precedes(a[i].0@, a[j].0@));
    }
}

/// A recipe that holds the same data as a well-formed one is well formed:
/// copies of recipes keep their headers and payloads in order.
pub proof fn law_same_site_keeps_well_formed(a: Site, b: Site)
    requires
        same_site(a, b),
        site_well_formed(a),
    ensures
        site_well_formed(b),
{
    if let Some(h) = b.headers {
        lemma_same_headers_ascending(a.headers->0@, h@);
    }
    if let Some(p) = b.request_payload {
        lemma_same_json_well_formed(a.request_payload->0, p);
    }
}

} // verus!
