//! The whole manifest: site name -> recipe, kept in ascending name order so
//! that output and results are the same from run to run.
use vstd::prelude::*;
use crate::order::{
    lemma_precedes_asymmetric, precedes, str_precedes, lemma_precedes_irreflexive, lemma_precedes_transitive,
    lemma_precedes_total,
};
use crate::site::{
    Site, same_site, texts, site_well_formed, law_same_site_keeps_well_formed,
};
use crate::text::{
    str_equals, starts_with_char, debug_quoted, debug_text, lowercase, lowercase_of,
};
use vstd::string::StringExecFns;

verus! {

/// Every name sorts strictly before the names that follow it (so no name
/// occurs twice).
pub open spec fn names_ascending(s: Seq<(String, Site)>) -> bool {
    forall|i: int, j: int| 0 <= i < j < s.len() ==> precedes(#[trigger] s[i].0@, #[trigger] s[j].0@)
}

/// Some entry of `s` is named `k`.
pub open spec fn has_name(s: Seq<(String, Site)>, k: Seq<char>) -> bool {
    exists|i: int| 0 <= i < s.len() && (#[trigger] s[i]).0@ == k
}

/// An index of `s` at which the name `k` stands (meaningful when there is one).
pub open spec fn name_index(s: Seq<(String, Site)>, k: Seq<char>) -> int {
    choose|i: int| 0 <= i < s.len() && (#[trigger] s[i]).0@ == k
}

/// The recipe that `s` holds under the name `k`, if any.
pub open spec fn site_named(s: Seq<(String, Site)>, k: Seq<char>) -> Option<Site> {
    if has_name(s, k) {
        Some(s[name_index(s, k)].1)
    } else {
        None
    }
}

/// In an ascending sequence, the entry at `i` is the one found under its name.
pub proof fn lemma_site_at(s: Seq<(String, Site)>, idx: int)
    requires
        names_ascending(s),
        0 <= idx < s.len(),
    ensures
        has_name(s, s[idx].0@),
        site_named(s, s[idx].0@) == Some(s[idx].1),
{
    let k = s[idx].0@;
    assert(0 <= idx < s.len() && s[idx].0@ == k);
    assert(has_name(s, k));
    let c = name_index(s, k);
    assert(0 <= c < s.len() && s[c].0@ == k);
    if c < idx {
        assert(precedes(s[c].0@, s[idx].0@));
        lemma_precedes_irreflexive(k);
    } else if c > idx {
        assert(precedes(s[idx].0@, s[c].0@));
        lemma_precedes_irreflexive(k);
    }
}

/// Site name -> recipe, in ascending name order.
pub struct Manifest {
    entries: Vec<(String, Site)>,
}

impl View for Manifest {
    type V = Seq<(String, Site)>;

    closed spec fn view(&self) -> Seq<(String, Site)> {
        self.entries@
    }
}

impl Manifest {
    #[verifier::type_invariant]
    spec fn well_formed(&self) -> bool {
        names_ascending(self.entries@)
    }

    /// An empty manifest.
    pub fn new() -> (m: Manifest)
        ensures
            m@.len() == 0,
    {
        Manifest { entries: Vec::new() }
    }

    /// The number of sites.
    pub fn len(&self) -> (n: usize)
        ensures
            n == self@.len(),
    {
        self.entries.len()
    }

    /// Whether the manifest holds no site.
    pub fn is_empty(&self) -> (b: bool)
        ensures
            b == (self@.len() == 0),
    {
        self.entries.len() == 0
    }

    /// The entries, in ascending name order.
    pub fn entries(&self) -> (r: &Vec<(String, Site)>)
        ensures
            r@ == self@,
            names_ascending(self@),
    {
        proof {
            use_type_invariant(self);
        }
        &self.entries
    }

    /// The recipe stored under `name`, if any.
    pub fn get(&self, name: &str) -> (r: Option<&Site>)
        ensures
            names_ascending(self@),
            match r {
                Some(s) => site_named(self@, name@) == Some(*s),
                None => site_named(self@, name@) is None,
            },
    {
        proof {
            use_type_invariant(self);
        }
        let n = self.entries.len();
        let mut i: usize = 0;
        while i < n
            invariant
                n == self@.len(),
                names_ascending(self@),
                i <= n,
                forall|j: int| 0 <= j < i ==> (#[trigger] self@[j]).0@ != name@,
            decreases n - i,
        {
            if str_equals(self.entries[i].0.as_str(), name) {
                proof {
                    lemma_site_at(self@, i as int);
                }
                return Some(&self.entries[i].1);
            }
            i = i + 1;
        }
        None
    }

    /// Store `site` under `name`, replacing (and returning) any recipe that
    /// was stored under that name before.
    pub fn insert(&mut self, name: String, site: Site) -> (previous: Option<Site>)
        ensures
            names_ascending(final(self)@),
            previous == site_named(old(self)@, name@),
            forall|k: Seq<char>|
                #![trigger site_named(final(self)@, k)]
                site_named(final(self)@, k) == if k == name@ {
                    Some(site)
                } else {
                    site_named(old(self)@, k)
                },
            final(self)@.len() == old(self)@.len() + if has_name(old(self)@, name@) {
                0int
            } else {
                1int
            },
    {
        proof {
            use_type_invariant(&*self);
        }
        let mut entries: Vec<(String, Site)> = Vec::new();
        std::mem::swap(&mut entries, &mut self.entries);
        let ghost s = entries@;
        assert(s == old(self)@);
        let n = entries.len();
        let mut p: usize = 0;
        while p < n && str_precedes(entries[p].0.as_str(), name.as_str())
            invariant
                entries@ == s,
                n == s.len(),
                p <= n,
                forall|i: int| 0 <= i < p ==> precedes((#[trigger] s[i]).0@, name@),
            decreases n - p,
        {
            p = p + 1;
        }
        if p < n && str_equals(entries[p].0.as_str(), name.as_str()) {
            let ghost x = (name, site);
            let removed = entries.remove(p);
            entries.insert(p, (name, site));
            let ghost t = entries@;
            proof {
                assert(t =~= s.update(p as int, x));
                assert(names_ascending(t)) by {
                    assert forall|i: int, j: int| 0 <= i < j < t.len() implies precedes(
                        #[trigger] t[i].0@,
                        #[trigger] t[j].0@,
                    ) by {
                        assert(precedes(s[i].0@, s[j].0@));
                    }
                }
                lemma_site_at(s, p as int);
                lemma_site_at(t, p as int);
                assert forall|k: Seq<char>| #![trigger site_named(t, k)]
                    site_named(t, k) == if k == name@ {
                        Some(site)
                    } else {
                        site_named(s, k)
                    } by {
                    if k != name@ {
                        if has_name(s, k) {
                            let i = choose|i: int| 0 <= i < s.len() && (#[trigger] s[i]).0@ == k;
                            lemma_site_at(s, i);
                            lemma_site_at(t, i);
                        } else {
                            assert(!has_name(t, k)) by {
                                if has_name(t, k) {
                                    let i = choose|i: int|
                                        0 <= i < t.len() && (#[trigger] t[i]).0@ == k;
                                    assert(s[i].0@ == k);
                                }
                            }
                        }
                    }
                }
            }
            self.entries = entries;
            Some(removed.1)
        } else {
            let ghost x = (name, site);
            entries.insert(p, (name, site));
            let ghost t = entries@;
            proof {
                assert(t =~= s.insert(p as int, x));
                // every name from position `p` on sorts after the new one
                assert forall|i: int| p <= i < s.len() implies precedes(
                    name@,
                    #[trigger] s[i].0@,
                ) by {
                    lemma_precedes_total(s[p as int].0@, name@);
                    if i > p {
                        assert(precedes(s[p as int].0@, s[i].0@));
                        lemma_precedes_transitive(name@, s[p as int].0@, s[i].0@);
                    }
                }
                assert(names_ascending(t)) by {
                    assert forall|i: int, j: int| 0 <= i < j < t.len() implies precedes(
                        #[trigger] t[i].0@,
                        #[trigger] t[j].0@,
                    ) by {
                        if j < p {
                            assert(precedes(s[i].0@, s[j].0@));
                        } else if j == p {
                        } else if i < p {
                            lemma_precedes_transitive(s[i].0@, name@, s[j - 1].0@);
                        } else if i == p {
                        } else {
                            assert(precedes(s[i - 1].0@, s[j - 1].0@));
                        }
                    }
                }
                assert(!has_name(s, name@)) by {
                    if has_name(s, name@) {
                        let i = choose|i: int| 0 <= i < s.len() && (#[trigger] s[i]).0@ == name@;
                        lemma_precedes_irreflexive(name@);
                    }
                }
                lemma_site_at(t, p as int);
                assert forall|k: Seq<char>| #![trigger site_named(t, k)]
                    site_named(t, k) == if k == name@ {
                        Some(site)
                    } else {
                        site_named(s, k)
                    } by {
                    if k != name@ {
                        if has_name(s, k) {
                            let i = choose|i: int| 0 <= i < s.len() && (#[trigger] s[i]).0@ == k;
                            lemma_site_at(s, i);
                            if i < p {
                                lemma_site_at(t, i);
                            } else {
                                assert(t[i + 1] == s[i]);
                                lemma_site_at(t, i + 1);
                            }
                        } else {
                            assert(!has_name(t, k)) by {
                                if has_name(t, k) {
                                    let i = choose|i: int|
                                        0 <= i < t.len() && (#[trigger] t[i]).0@ == k;
                                    if i < p {
                                        assert(s[i].0@ == k);
                                    } else if i > p {
                                        assert(s[i - 1].0@ == k);
                                    }
                                }
                            }
                        }
                    }
                }
            }
            self.entries = entries;
            None
        }
    }
}

} // verus!

verus! {

/// The name of a metadata member of the manifest file (such as `$schema`),
/// which holds no site.
pub open spec fn is_metadata_name(k: Seq<char>) -> bool {
    k.len() > 0 && k[0] == '$'
}

/// An entry of the manifest file that is a site and could not be read as one.
pub open spec fn rejected(e: (String, Result<Site, String>)) -> bool {
    !is_metadata_name(e.0@) && e.1 is Err
}

/// The recipe that reading `raw` in order stores under the name `k`: the
/// last readable site of that name, metadata members skipped.
pub open spec fn site_from_entries(raw: Seq<(String, Result<Site, String>)>, k: Seq<char>) -> Option<
    Site,
>
    decreases raw.len(),
{
    if raw.len() == 0 {
        None
    } else if raw.last().0@ == k && !is_metadata_name(k) && raw.last().1 is Ok {
        Some(raw.last().1->Ok_0)
    } else {
        site_from_entries(raw.drop_last(), k)
    }
}

/// Why a manifest could not be built.
#[derive(Debug)]
pub enum ManifestError {
    /// The member `name` is not a valid site recipe; `detail` says why.
    SiteInvalid { name: String, detail: String },
}

impl ManifestError {
    /// The error as a line of text: `site "<name>": <detail>`.
    pub fn message(&self) -> (r: String)
        ensures
            match self {
                ManifestError::SiteInvalid { name, detail } => r@ == "site "@ + debug_text(name@)
                    + ": "@ + detail@,
            },
    {
        match self {
            ManifestError::SiteInvalid { name, detail } => {
                let mut r = String::from_str("site ");
                let q = debug_quoted(name.as_str());
                r.append(q.as_str());
                r.append(": ");
                r.append(detail.as_str());
                r
            },
        }
    }
}

/// Build a manifest from the members of a manifest file, in file order: each
/// member's name with its recipe, or with why it could not be read as one.
/// Members whose name starts with `$` are metadata and are skipped; the
/// first other member that could not be read makes the whole manifest fail.
pub fn manifest_from_entries(raw: Vec<(String, Result<Site, String>)>) -> (r: Result<
    Manifest,
    ManifestError,
>)
    ensures
        r is Err <==> exists|i: int| 0 <= i < raw@.len() && rejected(#[trigger] raw@[i]),
        match r {
            Ok(m) => {
                &&& names_ascending(m@)
                &&& forall|k: Seq<char>|
                    #![trigger site_named(m@, k)]
                    site_named(m@, k) == site_from_entries(raw@, k)
            },
            Err(ManifestError::SiteInvalid { name, detail }) => exists|i: int|
                0 <= i < raw@.len() && rejected(#[trigger] raw@[i]) && (forall|j: int|
                    0 <= j < i ==> !rejected(#[trigger] raw@[j])) && name@ == raw@[i].0@
                    && detail@ == raw@[i].1->Err_0@,
        },
{
    let mut m = Manifest::new();
    let ghost all = raw@;
    for entry in it: raw
        invariant
            it.seq() == all,
            names_ascending(m@),
            forall|k: Seq<char>|
                #![trigger site_named(m@, k)]
                site_named(m@, k) == site_from_entries(all.take(it.index() as int), k),
            forall|j: int| 0 <= j < it.index() ==> !rejected(#[trigger] all[j]),
    {
        let ghost i = it.index() as int;
        let ghost before = m@;
        assert(all.take(i + 1).drop_last() =~= all.take(i));
        assert(all.take(i + 1).last() == all[i]);
        let (name, parsed) = entry;
        let metadata = starts_with_char(name.as_str(), '$');
        if !metadata {
            match parsed {
                Ok(site) => {
                    m.insert(name, site);
                },
                Err(detail) => {
                    assert(rejected(all[i]));
                    return Err(ManifestError::SiteInvalid { name, detail });
                },
            }
        }
        assert forall|k: Seq<char>| #![trigger site_named(m@, k)]
            site_named(m@, k) == site_from_entries(all.take(i + 1), k) by {
            assert(site_from_entries(all.take(i + 1), k) == if all[i].0@ == k && !is_metadata_name(
                k,
            ) && all[i].1 is Ok {
                Some(all[i].1->Ok_0)
            } else {
                site_from_entries(all.take(i), k)
            });
        }
    }
    assert(all.take(all.len() as int) =~= all);
    Ok(m)
}

/// `site` is kept when the search is narrowed to the names `wanted`
/// (compared case-insensitively; an empty list keeps every name) and to
/// safe-for-work sites unless `nsfw` is set.
pub open spec fn selected(wanted: Seq<Seq<char>>, nsfw: bool, name: Seq<char>, site: Site) -> bool {
    &&& nsfw || !site.is_nsfw
    &&& wanted.len() == 0 || exists|t: int|
        0 <= t < wanted.len() && lowercase(#[trigger] wanted[t]) == lowercase(name)
}

/// The sites of `manifest` that the search covers: those named in
/// `wanted` (case-insensitively; all of them when `wanted` is empty), and,
/// unless `nsfw` is set, only those not marked NSFW.
pub fn select_sites(manifest: &Manifest, wanted: &Vec<String>, nsfw: bool) -> (r: Manifest)
    ensures
        names_ascending(r@),
        forall|k: Seq<char>|
            #![trigger has_name(r@, k)]
            has_name(r@, k) == (has_name(manifest@, k) && selected(
                texts(wanted@),
                nsfw,
                k,
                site_named(manifest@, k)->0,
            )),
        forall|k: Seq<char>|
            #![trigger site_named(r@, k)]
            has_name(r@, k) ==> same_site(site_named(manifest@, k)->0, site_named(r@, k)->0),
        forall|k: Seq<char>|
            #![trigger site_named(r@, k)]
            has_name(r@, k) && site_well_formed(site_named(manifest@, k)->0) ==> site_well_formed(
                site_named(r@, k)->0,
            ),
{
    let ghost w = texts(wanted@);
    let wn = wanted.len();
    let mut lowered: Vec<String> = Vec::new();
    let mut t: usize = 0;
    while t < wn
        invariant
            wn == wanted@.len(),
            t <= wn,
            lowered@.len() == t,
            forall|j: int| 0 <= j < t ==> (#[trigger] lowered@[j])@ == lowercase(wanted@[j]@),
        decreases wn - t,
    {
        lowered.push(lowercase_of(wanted[t].as_str()));
        t = t + 1;
    }
    let entries = manifest.entries();
    let ghost s = manifest@;
    let n = entries.len();
    let mut out: Vec<(String, Site)> = Vec::new();
    let ghost mut idx: Seq<int> = Seq::empty();
    let mut i: usize = 0;
    while i < n
        invariant
            entries@ == s,
            n == s.len(),
            names_ascending(s),
            w == texts(wanted@),
            wn == wanted@.len(),
            lowered@.len() == wn,
            forall|j: int| 0 <= j < wn ==> (#[trigger] lowered@[j])@ == lowercase(wanted@[j]@),
            i <= n,
            out@.len() == idx.len(),
            forall|j: int| 0 <= j < idx.len() ==> 0 <= #[trigger] idx[j] < i,
            forall|a: int, b: int| 0 <= a < b < idx.len() ==> #[trigger] idx[a] < #[trigger] idx[b],
            forall|j: int|
                0 <= j < idx.len() ==> {
                    &&& (#[trigger] out@[j]).0@ == s[idx[j]].0@
                    &&& same_site(s[idx[j]].1, out@[j].1)
                    &&& selected(w, nsfw, s[idx[j]].0@, s[idx[j]].1)
                },
            forall|c: int|
                0 <= c < i && selected(w, nsfw, (#[trigger] s[c]).0@, s[c].1) ==> exists|j: int|
                    0 <= j < idx.len() && idx[j] == c,
        decreases n - i,
    {
        let ghost idx0 = idx;
        let name = &entries[i].0;
        let site = &entries[i].1;
        let mut keep = nsfw || !site.is_nsfw;
        if keep && wn > 0 {
            let ln = lowercase_of(name.as_str());
            let mut found = false;
            let mut u: usize = 0;
            while u < wn
                invariant
                    wn == lowered@.len(),
                    u <= wn,
                    found == exists|q: int| 0 <= q < u && (#[trigger] lowered@[q])@ == ln@,
                decreases wn - u,
            {
                if str_equals(lowered[u].as_str(), ln.as_str()) {
                    found = true;
                }
                u = u + 1;
            }
            proof {
                if found {
                    let q = choose|q: int| 0 <= q < wn && (#[trigger] lowered@[q])@ == ln@;
                    assert(lowercase(w[q]) == lowercase(name@));
                } else {
                    assert forall|q: int| 0 <= q < w.len() implies lowercase(#[trigger] w[q])
                        != lowercase(name@) by {
                        assert(lowered@[q]@ == lowercase(w[q]));
                    }
                }
            }
            keep = found;
        }
        assert(keep == selected(w, nsfw, s[i as int].0@, s[i as int].1));
        if keep {
            let copy = (name.clone(), site.clone());
            out.push(copy);
            proof {
                idx = idx.push(i as int);
                assert(idx[idx.len() - 1] == i);
            }
        }
        proof {
            assert forall|c: int|
                0 <= c < i + 1 && selected(w, nsfw, (#[trigger] s[c]).0@, s[c].1) implies exists|j: int|
                0 <= j < idx.len() && idx[j] == c by {
                if c < i {
                    let j = choose|j: int| 0 <= j < idx0.len() && idx0[j] == c;
                    assert(idx[j] == c);
                } else {
                    assert(idx[idx.len() - 1] == c);
                }
            }
        }
        i = i + 1;
    }
    proof {
        let t = out@;
        assert(names_ascending(t)) by {
            assert forall|a: int, b: int| 0 <= a < b < t.len() implies precedes(
                #[trigger] t[a].0@,
                #[trigger] t[b].0@,
            ) by {
                assert(idx[a] < idx[b]);
                assert(precedes(s[idx[a]].0@, s[idx[b]].0@));
            }
        }
        assert forall|k: Seq<char>| #![trigger has_name(t, k)]
            has_name(t, k) == (has_name(s, k) && selected(w, nsfw, k, site_named(s, k)->0)) by {
            if has_name(t, k) {
                let j = name_index(t, k);
                assert(0 <= j < t.len() && t[j].0@ == k);
                lemma_site_at(s, idx[j]);
            }
            if has_name(s, k) && selected(w, nsfw, k, site_named(s, k)->0) {
                let c = name_index(s, k);
                assert(0 <= c < s.len() && s[c].0@ == k);
                lemma_site_at(s, c);
                let j = choose|j: int| 0 <= j < idx.len() && idx[j] == c;
                assert(t[j].0@ == k);
            }
        }
        assert forall|k: Seq<char>| #![trigger site_named(t, k)]
            has_name(t, k) implies same_site(site_named(s, k)->0, site_named(t, k)->0) by {
            let j = name_index(t, k);
            assert(0 <= j < t.len() && t[j].0@ == k);
            lemma_site_at(t, j);
            lemma_site_at(s, idx[j]);
        }
        assert forall|k: Seq<char>| #![trigger site_named(t, k)]
            has_name(t, k) && site_well_formed(site_named(s, k)->0) implies site_well_formed(
            site_named(t, k)->0,
        ) by {
            law_same_site_keeps_well_formed(site_named(s, k)->0, site_named(t, k)->0);
        }
    }
    Manifest { entries: out }
}

/// Members named like metadata (`$schema` and the like) never become sites.
pub proof fn law_metadata_never_stored(raw: Seq<(String, Result<Site, String>)>, k: Seq<char>)
    requires
        is_metadata_name(k),
    ensures
        site_from_entries(raw, k) is None,
    decreases raw.len(),
{
    if raw.len() > 0 {
        law_metadata_never_stored(raw.drop_last(), k);
    }
}

/// Dropping the first entry of an ascending sequence forgets its name and
/// keeps every other.
pub proof fn lemma_drop_first_name(s: Seq<(String, Site)>, k: Seq<char>)
    requires
        names_ascending(s),
        s.len() > 0,
    ensures
        names_ascending(s.skip(1)),
        site_named(s.skip(1), k) == if k == s[0].0@ {
            None
        } else {
            site_named(s, k)
        },
{
    let r = s.skip(1);
    assert forall|i: int, j: int| 0 <= i < j < r.len() implies precedes(
        #[trigger] r[i].0@,
        #[trigger] r[j].0@,
    ) by {
        assert(precedes(s[i + 1].0@, s[j + 1].0@));
    }
    if has_name(r, k) {
        let i = name_index(r, k);
        assert(0 <= i < r.len() && r[i].0@ == k);
        lemma_site_at(r, i);
        lemma_site_at(s, i + 1);
        if k == s[0].0@ {
            assert(precedes(s[0].0@, s[i + 1].0@));
            lemma_precedes_irreflexive(k);
        }
    } else if k != s[0].0@ && has_name(s, k) {
        let i = name_index(s, k);
        assert(0 <= i < s.len() && s[i].0@ == k);
        assert(r[i - 1].0@ == k);
    }
}

/// The order of a manifest is fixed by what it holds: two ascending
/// sequences that hold the same site under every name list the same names
/// with the same sites, in the same order.
pub proof fn law_order_fixed_by_contents(s: Seq<(String, Site)>, t: Seq<(String, Site)>)
    requires
        names_ascending(s),
        names_ascending(t),
        forall|k: Seq<char>| #[trigger] site_named(s, k) == site_named(t, k),
    ensures
        s.len() == t.len(),
        forall|i: int| 0 <= i < s.len() ==> (#[trigger] s[i]).0@ == t[i].0@ && s[i].1 == t[i].1,
    decreases s.len() + t.len(),
{
    if s.len() == 0 {
        if t.len() > 0 {
            lemma_site_at(t, 0);
            assert(site_named(s, t[0].0@) == site_named(t, t[0].0@));
        }
    } else if t.len() == 0 {
        lemma_site_at(s, 0);
        assert(site_named(s, s[0].0@) == site_named(t, s[0].0@));
    } else {
        let a = s[0].0@;
        let b = t[0].0@;
        lemma_site_at(s, 0);
        lemma_site_at(t, 0);
        assert(site_named(s, a) == site_named(t, a));
        assert(site_named(s, b) == site_named(t, b));
        let j = name_index(t, a);
        assert(0 <= j < t.len() && t[j].0@ == a);
        let i = name_index(s, b);
        assert(0 <= i < s.len() && s[i].0@ == b);
        if a != b {
            if j > 0 && i > 0 {
                assert(precedes(b, a));
                assert(precedes(a, b));
                lemma_precedes_asymmetric(a, b);
            } else if j == 0 {
                assert(false);
            } else {
                assert(false);
            }
        }
        assert(s[0].1 == t[0].1);
        assert forall|k: Seq<char>| #[trigger] site_named(s.skip(1), k) == site_named(t.skip(1), k) by {
            lemma_drop_first_name(s, k);
            lemma_drop_first_name(t, k);
            assert(site_named(s, k) == site_named(t, k));
        }
        lemma_drop_first_name(s, a);
        lemma_drop_first_name(t, a);
        law_order_fixed_by_contents(s.skip(1), t.skip(1));
        assert forall|i: int| 0 <= i < s.len() implies (#[trigger] s[i]).0@ == t[i].0@ && s[i].1
            == t[i].1 by {
            if i > 0 {
                assert(s.skip(1)[i - 1] == s[i]);
                assert(t.skip(1)[i - 1] == t[i]);
            }
        }
    }
}

/// Narrowing to named sites is an exact, case-insensitive name match: with
/// names asked for, a site is kept exactly when one of them equals its name
/// once both are lowercased (and it is safe for work, or NSFW sites are
/// asked for); with none asked for, every safe site is kept.
pub proof fn law_selection_matches_whole_names(
    w: Seq<Seq<char>>,
    nsfw: bool,
    name: Seq<char>,
    site: Site,
)
    ensures
        selected(w, nsfw, name, site) ==> nsfw || !site.is_nsfw,
        w.len() > 0 ==> (selected(w, nsfw, name, site) <==> ((nsfw || !site.is_nsfw) && exists|
            t: int,
        | 0 <= t < w.len() && lowercase(#[trigger] w[t]) == lowercase(name))),
        w.len() == 0 ==> (selected(w, nsfw, name, site) <==> (nsfw || !site.is_nsfw)),
{
}

} // verus!
