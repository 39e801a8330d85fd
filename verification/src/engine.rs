//! The decisions of a run, apart from the network: what each query starts
//! with, what a response or a failure turns it into, how a failure is
//! labelled, and the order in which results are reported.
//!
//! The caller performs the requests; it hands each outcome back as plain
//! values.
use vstd::prelude::*;
use vstd::string::StringExecFns;
use core::time::Duration;
use crate::detect::{
    RequestPlan, PlanOutcome, plan_request, profile_url, profile_text, decide, verdict,
    pattern_error, pattern_accepts, username_allowed, username_illegal,
    method_for, plan_fits, planned, plan_well_formed,
};
use crate::order::{
    lemma_precedes_asymmetric,
    precedes, str_precedes, lemma_precedes_total, lemma_precedes_transitive,
    lemma_precedes_irreflexive,
};
use crate::text::debug_text;
use crate::result::{QueryResult, QueryStatus};
use crate::site::{Site, site_well_formed};
use crate::manifest::names_ascending;

verus! {

/// What `Duration::from_secs` returns for `secs`.
pub uninterp spec fn seconds(secs: u64) -> Duration;

/// Calls `core::time::Duration::from_secs`; the result is named: it depends
/// on `secs` alone.
#[verifier::external_body]
fn duration_from_secs(secs: u64) -> (d: Duration)
    ensures
        d == seconds(secs),
{
    Duration::from_secs(secs)
}

/// Tunables for a run.
pub struct EngineOptions {
    pub timeout: Duration,
    pub max_workers: usize,
    pub proxy: Option<String>,
}

impl Default for EngineOptions {
    /// A one-minute timeout, twenty requests at a time, no proxy.
    fn default() -> (r: Self)
        ensures
            r.timeout == seconds(60),
            r.max_workers == 20,
            r.proxy is None,
    {
        EngineOptions { timeout: duration_from_secs(60), max_workers: 20, proxy: None }
    }
}

/// A request that got no response, as the HTTP client reports it.
pub struct RequestFailure {
    /// The request timed out.
    pub timeout: bool,
    /// No connection could be made.
    pub connect: bool,
    /// Following a redirect failed.
    pub redirect: bool,
    /// The client's own description of the failure.
    pub description: String,
}

/// The label of a failure.
pub open spec fn failure_text(f: RequestFailure) -> Seq<char> {
    if f.timeout {
        "Timeout Error"@
    } else if f.connect {
        "Error Connecting"@
    } else if f.redirect {
        "Redirect Error"@
    } else {
        "Request Error: "@ + f.description@
    }
}

/// Human-readable label for a network failure.
pub fn classify_error(e: &RequestFailure) -> (r: String)
    ensures
        r@ == failure_text(*e),
{
    if e.timeout {
        String::from_str("Timeout Error")
    } else if e.connect {
        String::from_str("Error Connecting")
    } else if e.redirect {
        String::from_str("Redirect Error")
    } else {
        let mut r = String::from_str("Request Error: ");
        r.append(e.description.as_str());
        r
    }
}

/// The first step of a query: either it is already decided, or a request
/// must be made, with the result it will complete.
#[derive(Debug)]
pub enum QueryStart {
    Finished(QueryResult),
    Fetch(RequestPlan, QueryResult),
}

/// `q` reports on the user `u` at the site `name` whose recipe is `site`:
/// it names both, and the profile URL the user would have there.
pub open spec fn reports_on(q: QueryResult, name: Seq<char>, site: Site, u: Seq<char>) -> bool {
    &&& q.username@ == u
    &&& q.site_name@ == name
    &&& q.site_url_user@ == profile_text(site.url@, u)
}

/// `q` is the result a query of `u` on the site `name` starts from: who and
/// where, with nothing measured yet.
pub open spec fn starts_query(q: QueryResult, name: Seq<char>, site: Site, u: Seq<char>) -> bool {
    &&& reports_on(q, name, site, u)
    &&& q.query_time is None
}

/// The text of the planning fault for `u` on `site`, when planning fails.
pub open spec fn plan_fault_text(site: Site, u: Seq<char>) -> Seq<char> {
    match pattern_error(site) {
        Some(msg) => "bad regexCheck "@ + debug_text(site.regex_check->0@) + ": "@ + msg,
        None => match pattern_accepts(site, u) {
            Err(msg) => "regexCheck runtime error "@ + debug_text(site.regex_check->0@) + ": "@
                + msg,
            _ => "unsupported request_method "@ + debug_text(site.request_method->0@) + " for "@
                + site.url@,
        },
    }
}

/// Begin checking `username` on the site `site_name`: plan the request, or
/// finish at once when the name is illegal there (`Illegal`) or the entry
/// cannot be planned (`Unknown`, with the fault as context). Never fails.
pub fn start_query(site_name: &str, site: &Site, username: &str) -> (r: QueryStart)
    ensures
        (r is Fetch) == (username_allowed(*site, username@) && method_for(*site) is Some),
        match r {
            QueryStart::Fetch(plan, q) => {
                &&& plan_fits(*site, username@, plan)
                &&& site_well_formed(*site) ==> plan_well_formed(plan)
                &&& starts_query(q, site_name@, *site, username@)
                &&& q.status == QueryStatus::Unknown
                &&& q.context is None
            },
            QueryStart::Finished(q) => {
                &&& starts_query(q, site_name@, *site, username@)
                &&& if username_illegal(*site, username@) {
                    q.status == QueryStatus::Illegal && q.context is None
                } else {
                    &&& q.status == QueryStatus::Unknown
                    &&& q.context matches Some(c) && c@ == "Manifest error: "@ + plan_fault_text(
                        *site,
                        username@,
                    )
                }
            },
        },
{
    let url = profile_url(site, username);
    let user = String::from_str(username);
    let name = String::from_str(site_name);
    let outcome = plan_request(site, username);
    match outcome {
        Ok(PlanOutcome::Fetch(plan)) => QueryStart::Fetch(
            plan,
            QueryResult {
                username: user,
                site_name: name,
                site_url_user: url,
                status: QueryStatus::Unknown,
                query_time: None,
                context: None,
            },
        ),
        Ok(PlanOutcome::Skip(status)) => QueryStart::Finished(
            QueryResult {
                username: user,
                site_name: name,
                site_url_user: url,
                status,
                query_time: None,
                context: None,
            },
        ),
        Err(e) => {
            let mut context = String::from_str("Manifest error: ");
            let m = e.message();
            context.append(m.as_str());
            QueryStart::Finished(
                QueryResult {
                    username: user,
                    site_name: name,
                    site_url_user: url,
                    status: QueryStatus::Unknown,
                    query_time: None,
                    context: Some(context),
                },
            )
        },
    }
}

/// The URL reported for a query is the profile URL its request plan shows.
pub proof fn law_reported_url_is_planned_url(
    name: Seq<char>,
    site: Site,
    u: Seq<char>,
    plan: RequestPlan,
    q: QueryResult,
)
    requires
        plan_fits(site, u, plan),
        starts_query(q, name, site, u),
    ensures
        q.site_url_user@ == plan.display_url@,
{
}

/// What a request came back with.
pub enum FetchOutcome {
    /// A response: its HTTP code and its text (empty when it could not be read).
    Response { status: u16, body: String },
    /// No response.
    Failure(RequestFailure),
}

/// Complete a query with what its request came back with, `elapsed` after
/// it was sent: a response is judged by the site's rules, a failure makes the
/// result `Unknown` with the failure's label as context.
pub fn finish_query(base: QueryResult, site: &Site, outcome: &FetchOutcome, elapsed: Duration) -> (r:
    QueryResult)
    ensures
        r.username == base.username,
        r.site_name == base.site_name,
        r.site_url_user == base.site_url_user,
        r.query_time == Some(elapsed),
        forall|name: Seq<char>, s: Site, u: Seq<char>|
            #![trigger reports_on(r, name, s, u)]
            reports_on(base, name, s, u) ==> reports_on(r, name, s, u),
        match outcome {
            FetchOutcome::Response { status, body } => {
                &&& r.status == verdict(*site, *status, body@)
                &&& r.context == base.context
            },
            FetchOutcome::Failure(f) => {
                &&& r.status == QueryStatus::Unknown
                &&& r.context matches Some(c) && c@ == failure_text(*f)
            },
        },
{
    match outcome {
        FetchOutcome::Response { status, body } => QueryResult {
            status: decide(site, *status, body.as_str()),
            query_time: Some(elapsed),
            ..base
        },
        FetchOutcome::Failure(f) => QueryResult {
            status: QueryStatus::Unknown,
            query_time: Some(elapsed),
            context: Some(classify_error(f)),
            ..base
        },
    }
}

/// No result is named before the one ahead of it.
pub open spec fn sorted_by_site_name(s: Seq<QueryResult>) -> bool {
    forall|i: int, j: int|
        0 <= i < j < s.len() ==> !precedes(#[trigger] s[j].site_name@, #[trigger] s[i].site_name@)
}

/// Results for the site `k`.
pub open spec fn for_site(k: Seq<char>) -> spec_fn(QueryResult) -> bool {
    |q: QueryResult| q.site_name@ == k
}

/// Filtering a sequence with one more element at the end.
proof fn lemma_filter_push(s: Seq<QueryResult>, x: QueryResult, k: Seq<char>)
    ensures
        s.push(x).filter(for_site(k)) == if x.site_name@ == k {
            s.filter(for_site(k)).push(x)
        } else {
            s.filter(for_site(k))
        },
{
    reveal_with_fuel(Seq::filter, 1);
    assert(s.push(x).drop_last() =~= s);
}

/// Nothing is kept of a sequence in which nothing is for the site `k`.
proof fn lemma_filter_none(s: Seq<QueryResult>, k: Seq<char>)
    requires
        forall|j: int| 0 <= j < s.len() ==> (#[trigger] s[j]).site_name@ != k,
    ensures
        s.filter(for_site(k)) == Seq::<QueryResult>::empty(),
    decreases s.len(),
{
    reveal_with_fuel(Seq::filter, 1);
    if s.len() > 0 {
        lemma_filter_none(s.drop_last(), k);
    }
}

/// Put results in site-name order, whatever order they completed in;
/// results for the same site keep the order they came in.
pub fn sort_by_site_name(results: Vec<QueryResult>) -> (r: Vec<QueryResult>)
    ensures
        r@.to_multiset() == results@.to_multiset(),
        sorted_by_site_name(r@),
        forall|k: Seq<char>|
            #![trigger r@.filter(for_site(k))]
            r@.filter(for_site(k)) == results@.filter(for_site(k)),
{
    let ghost all = results@;
    let mut out: Vec<QueryResult> = Vec::new();
    assert(all.take(0) =~= out@);
    for x in it: results
        invariant
            it.seq() == all,
            sorted_by_site_name(out@),
            out@.to_multiset() == all.take(it.index() as int).to_multiset(),
            forall|k: Seq<char>|
                #![trigger out@.filter(for_site(k))]
                out@.filter(for_site(k)) == all.take(it.index() as int).filter(for_site(k)),
    {
        let ghost i = it.index() as int;
        let ghost s = out@;
        let n = out.len();
        let mut p: usize = 0;
        while p < n && !str_precedes(x.site_name.as_str(), out[p].site_name.as_str())
            invariant
                out@ == s,
                n == s.len(),
                p <= n,
                forall|k: int| 0 <= k < p ==> !precedes(x.site_name@, #[trigger] s[k].site_name@),
            decreases n - p,
        {
            p = p + 1;
        }
        let ghost xv = x;
        out.insert(p, x);
        proof {
            let t = out@;
            assert(t =~= s.insert(p as int, xv));
            vstd::seq_lib::to_multiset_insert(s, p as int, xv);
            // results after position `p` are for other sites than `x`
            assert forall|j: int| 0 <= j < s.skip(p as int).len() implies (#[trigger] s.skip(
                p as int,
            )[j]).site_name@ != xv.site_name@ by {
                let m = p + j;
                assert(s.skip(p as int)[j] == s[m]);
                assert(precedes(xv.site_name@, s[p as int].site_name@));
                if m > p {
                    assert(!precedes(s[m].site_name@, s[p as int].site_name@));
                }
                lemma_precedes_irreflexive(xv.site_name@);
            }
            assert(all.take(i + 1) =~= all.take(i).push(xv));
            assert forall|k: Seq<char>| #![trigger t.filter(for_site(k))]
                t.filter(for_site(k)) == all.take(i + 1).filter(for_site(k)) by {
                let f = for_site(k);
                let front = s.take(p as int);
                let back = s.skip(p as int);
                assert(s =~= front + back);
                assert(t =~= (front + seq![xv]) + back);
                Seq::filter_distributes_over_add(front, back, f);
                Seq::filter_distributes_over_add(front + seq![xv], back, f);
                Seq::filter_distributes_over_add(front, seq![xv], f);
                lemma_filter_push(Seq::empty(), xv, k);
                assert(Seq::<QueryResult>::empty().push(xv) =~= seq![xv]);
                lemma_filter_none(Seq::<QueryResult>::empty(), k);
                lemma_filter_push(all.take(i), xv, k);
                assert(s.filter(f) == all.take(i).filter(f));
                if xv.site_name@ == k {
                    lemma_filter_none(back, k);
                    assert(seq![xv].filter(f) == seq![xv]);
                    assert(t.filter(f) =~= front.filter(f) + seq![xv]);
                    assert(s.filter(f) =~= front.filter(f));
                    assert(t.filter(f) =~= s.filter(f).push(xv));
                } else {
                    assert(seq![xv].filter(f) == Seq::<QueryResult>::empty());
                    assert(t.filter(f) =~= front.filter(f) + back.filter(f));
                }
            }
            vstd::seq::Seq::to_multiset_ensures(all.take(i));
            assert forall|a: int, b: int| 0 <= a < b < t.len() implies !precedes(
                #[trigger] t[b].site_name@,
                #[trigger] t[a].site_name@,
            ) by {
                if b < p {
                    assert(!precedes(s[b].site_name@, s[a].site_name@));
                } else if b == p {
                } else if a < p {
                    // s[a] <= x < s[p] <= s[b - 1]
                    if precedes(s[b - 1].site_name@, s[a].site_name@) {
                        lemma_precedes_total(s[a].site_name@, xv.site_name@);
                        assert(precedes(xv.site_name@, s[p as int].site_name@));
                        if s[a].site_name@ == xv.site_name@ {
                            lemma_precedes_transitive(
                                s[b - 1].site_name@,
                                xv.site_name@,
                                s[p as int].site_name@,
                            );
                        } else {
                            lemma_precedes_transitive(
                                s[b - 1].site_name@,
                                s[a].site_name@,
                                xv.site_name@,
                            );
                            lemma_precedes_transitive(
                                s[b - 1].site_name@,
                                xv.site_name@,
                                s[p as int].site_name@,
                            );
                        }
                        if b - 1 > p {
                            assert(!precedes(s[b - 1].site_name@, s[p as int].site_name@));
                        }
                        lemma_precedes_irreflexive(s[p as int].site_name@);
                    }
                } else if a == p {
                    if precedes(s[b - 1].site_name@, xv.site_name@) {
                        assert(precedes(xv.site_name@, s[p as int].site_name@));
                        lemma_precedes_transitive(
                            s[b - 1].site_name@,
                            xv.site_name@,
                            s[p as int].site_name@,
                        );
                        if b - 1 > p {
                            assert(!precedes(s[b - 1].site_name@, s[p as int].site_name@));
                        }
                        lemma_precedes_irreflexive(s[p as int].site_name@);
                    }
                } else {
                    assert(!precedes(s[b - 1].site_name@, s[a - 1].site_name@));
                }
            }
        }
    }
    assert(all.take(all.len() as int) =~= all);
    out
}

/// No two results carry the same site name.
pub open spec fn distinct_site_names(s: Seq<QueryResult>) -> bool {
    forall|i: int, j: int|
        0 <= i < j < s.len() ==> (#[trigger] s[i]).site_name@ != (#[trigger] s[j]).site_name@
}

/// Results come back in the same order whatever order they completed in:
/// two name-ordered sequences of the same results, with no site name twice,
/// are the same sequence.
pub proof fn law_report_order_independent_of_completion(s: Seq<QueryResult>, t: Seq<QueryResult>)
    requires
        sorted_by_site_name(s),
        sorted_by_site_name(t),
        distinct_site_names(s),
        s.to_multiset() == t.to_multiset(),
    ensures
        s == t,
    decreases s.len(),
{
    broadcast use vstd::seq_lib::group_to_multiset_ensures;

    vstd::seq_lib::to_multiset_len(s);
    vstd::seq_lib::to_multiset_len(t);
    if s.len() == 0 {
        assert(t.len() == 0);
        assert(s =~= t);
    } else {
        assert(t.len() == s.len());
        vstd::seq_lib::to_multiset_contains(s, s[0]);
        vstd::seq_lib::to_multiset_contains(t, s[0]);
        assert(t.contains(s[0]));
        vstd::seq_lib::to_multiset_contains(s, t[0]);
        vstd::seq_lib::to_multiset_contains(t, t[0]);
        let j = choose|j: int| 0 <= j < t.len() && t[j] == s[0];
        assert(s.contains(t[0]));
        let i = choose|i: int| 0 <= i < s.len() && s[i] == t[0];
        if s[0] != t[0] {
            assert(i > 0 && j > 0);
            assert(!precedes(s[i].site_name@, s[0].site_name@));
            assert(!precedes(t[j].site_name@, t[0].site_name@));
            lemma_precedes_total(s[0].site_name@, t[0].site_name@);
            assert(s[0].site_name@ == s[i].site_name@);
        }
        vstd::seq_lib::to_multiset_remove(s, 0);
        vstd::seq_lib::to_multiset_remove(t, 0);
        assert(s.remove(0) =~= s.skip(1));
        assert(t.remove(0) =~= t.skip(1));
        assert forall|a: int, b: int| 0 <= a < b < s.skip(1).len() implies !precedes(
            #[trigger] s.skip(1)[b].site_name@,
            #[trigger] s.skip(1)[a].site_name@,
        ) by {
            assert(!precedes(s[b + 1].site_name@, s[a + 1].site_name@));
        }
        assert forall|a: int, b: int| 0 <= a < b < t.skip(1).len() implies !precedes(
            #[trigger] t.skip(1)[b].site_name@,
            #[trigger] t.skip(1)[a].site_name@,
        ) by {
            assert(!precedes(t[b + 1].site_name@, t[a + 1].site_name@));
        }
        assert forall|a: int, b: int| 0 <= a < b < s.skip(1).len() implies (#[trigger] s.skip(
            1,
        )[a]).site_name@ != (#[trigger] s.skip(1)[b]).site_name@ by {
            assert(s[a + 1].site_name@ != s[b + 1].site_name@);
        }
        law_report_order_independent_of_completion(s.skip(1), t.skip(1));
        assert(s =~= seq![s[0]] + s.skip(1));
        assert(t =~= seq![t[0]] + t.skip(1));
    }
}

/// A run reports each site of the manifest once, in the manifest's order:
/// if `checked` holds, site by site in manifest order, the result of
/// checking `u` there, and the checks completed in any order (`completed`),
/// then putting the completed results in site-name order gives back
/// `checked`, so the i-th result reported is about the i-th site.
pub proof fn law_run_reports_each_site_in_order(
    m: Seq<(String, Site)>,
    u: Seq<char>,
    checked: Seq<QueryResult>,
    completed: Seq<QueryResult>,
    reported: Seq<QueryResult>,
)
    requires
        names_ascending(m),
        checked.len() == m.len(),
        forall|i: int| 0 <= i < m.len() ==> reports_on(#[trigger] checked[i], m[i].0@, m[i].1, u),
        completed.to_multiset() == checked.to_multiset(),
        reported.to_multiset() == completed.to_multiset(),
        sorted_by_site_name(reported),
    ensures
        reported == checked,
        reported.len() == m.len(),
        forall|i: int| 0 <= i < m.len() ==> reports_on(#[trigger] reported[i], m[i].0@, m[i].1, u),
{
    assert forall|i: int, j: int| 0 <= i < j < checked.len() implies !precedes(
        #[trigger] checked[j].site_name@,
        #[trigger] checked[i].site_name@,
    ) by {
        assert(reports_on(checked[i], m[i].0@, m[i].1, u));
        assert(reports_on(checked[j], m[j].0@, m[j].1, u));
        assert(precedes(m[i].0@, m[j].0@));
        lemma_precedes_asymmetric(m[i].0@, m[j].0@);
    }
    assert forall|i: int, j: int| 0 <= i < j < checked.len() implies (
    #[trigger] checked[i]).site_name@ != (#[trigger] checked[j]).site_name@ by {
        assert(reports_on(checked[i], m[i].0@, m[i].1, u));
        assert(reports_on(checked[j], m[j].0@, m[j].1, u));
        assert(precedes(m[i].0@, m[j].0@));
        lemma_precedes_irreflexive(m[i].0@);
    }
    law_report_order_independent_of_completion(checked, reported);
}

} // verus!
