//! Detection rules, with no network: plan the request for a site, and judge
//! the response that came back.
use vstd::prelude::*;
use vstd::string::StringExecFns;
use crate::json::{
    JsonValue, interpolate_value, interpolated_json, json_well_formed,
    lemma_interpolated_json_well_formed,
};
use crate::regex::{CompiledPattern, run_regex, regex_compile_error, regex_match_outcome};
use crate::result::QueryStatus;
use crate::site::{
    ErrorType, Site, opt_text, opt_texts, opt_codes, opt_headers, header_texts,
    header_names_ascending, site_well_formed, lemma_same_headers_ascending,
};
use crate::text::{
    law_encoded_has_no_space, law_interpolation_keeps_out_spaces,
    law_encoding_keeps_other_characters,
    chars_of, contains_chars, contains_text, interpolate, interpolated, encode_spaces,
    spaces_encoded, str_equals, debug_quoted, debug_text,
};

verus! {

/// Fingerprints of pages served by web application firewalls: when one of
/// them appears in a body, the request was blocked rather than answered.
pub const WAF_FINGERPRINTS: [&'static str; 4] = [
    // 2024-05-13 Cloudflare
    r#".loading-spinner{visibility:hidden}body.no-js .challenge-running{display:none}body.dark{background-color:#222;color:#d9d9d9}body.dark a{color:#fff}body.dark a:hover{color:#ee730a;text-decoration:underline}body.dark .lds-ring div{border-color:#999 transparent transparent}body.dark .font-red{color:#b20f03}body.dark"#,
    // 2024-11-11 Cloudflare error page
    r#"<span id="challenge-error-text">"#,
    // 2024-11-11 Cloudfront (AWS)
    r#"AwsWafIntegration.forceRefreshToken"#,
    // 2024-04-09 PerimeterX / Human Security
    r#"{return l.onPageView}}),Object.defineProperty(r,"perimeterxIdentifiers",{enumerable:"#,
];

/// The fingerprints, as text.
pub open spec fn waf_texts() -> Seq<Seq<char>> {
    seq![
        WAF_FINGERPRINTS[0]@,
        WAF_FINGERPRINTS[1]@,
        WAF_FINGERPRINTS[2]@,
        WAF_FINGERPRINTS[3]@,
    ]
}

/// `body` holds one of the firewall fingerprints.
pub open spec fn waf_blocked(body: Seq<char>) -> bool {
    exists|i: int| 0 <= i < 4 && contains_text(body, #[trigger] waf_texts()[i])
}

/// Whether the characters `hay` hold one of the firewall fingerprints.
fn holds_waf_fingerprint(hay: &Vec<char>) -> (r: bool)
    ensures
        r == waf_blocked(hay@),
{
    let mut k: usize = 0;
    while k < 4
        invariant
            k <= 4,
            forall|j: int| 0 <= j < k ==> !contains_text(hay@, #[trigger] waf_texts()[j]),
        decreases 4 - k,
    {
        let f = chars_of(WAF_FINGERPRINTS[k]);
        assert(f@ == waf_texts()[k as int]);
        if contains_chars(hay, &f) {
            return true;
        }
        k = k + 1;
    }
    false
}

/// The HTTP verb a site needs.
#[derive(Debug, Clone, Copy, PartialEq, Eq, Structural)]
pub enum HttpMethod {
    Get,
    Head,
    Post,
    Put,
}

/// What to fetch for a site, once the username is known to be allowed.
#[derive(Debug, Clone)]
pub struct RequestPlan {
    pub method: HttpMethod,
    /// URL actually probed (may differ from the human-facing profile URL).
    pub probe_url: String,
    /// Human-facing profile URL (what is reported if the account exists).
    pub display_url: String,
    /// `false` only for `response_url` sites, where the un-redirected code counts.
    pub allow_redirects: bool,
    /// Header overrides beyond the default User-Agent.
    pub extra_headers: Vec<(String, String)>,
    pub payload: Option<JsonValue>,
}

/// Outcome of planning: either fetch something, or skip with a final status.
#[derive(Debug, Clone)]
pub enum PlanOutcome {
    Fetch(RequestPlan),
    /// The username failed `regexCheck`: `Illegal`, no request made.
    Skip(QueryStatus),
}

/// A manifest entry that cannot be planned: a fault of the manifest, not an
/// outcome for the user.
#[derive(Debug)]
pub enum PlanError {
    /// `regexCheck` does not compile.
    BadRegex { pattern: String, detail: String },
    /// `regexCheck` failed while matching.
    RegexRuntime { pattern: String, detail: String },
    /// `request_method` names no supported verb.
    UnsupportedMethod { method: String, url: String },
}

/// How a planning error reads as text.
pub open spec fn plan_error_text(e: PlanError) -> Seq<char> {
    match e {
        PlanError::BadRegex { pattern, detail } => "bad regexCheck "@ + debug_text(pattern@) + ": "@
            + detail@,
        PlanError::RegexRuntime { pattern, detail } => "regexCheck runtime error "@ + debug_text(
            pattern@,
        ) + ": "@ + detail@,
        PlanError::UnsupportedMethod { method, url } => "unsupported request_method "@
            + debug_text(method@) + " for "@ + url@,
    }
}

impl PlanError {
    /// The error as a line of text.
    pub fn message(&self) -> (r: String)
        ensures
            r@ == plan_error_text(*self),
    {
        match self {
            PlanError::BadRegex { pattern, detail } => {
                let mut r = String::from_str("bad regexCheck ");
                let q = debug_quoted(pattern.as_str());
                r.append(q.as_str());
                r.append(": ");
                r.append(detail.as_str());
                r
            },
            PlanError::RegexRuntime { pattern, detail } => {
                let mut r = String::from_str("regexCheck runtime error ");
                let q = debug_quoted(pattern.as_str());
                r.append(q.as_str());
                r.append(": ");
                r.append(detail.as_str());
                r
            },
            PlanError::UnsupportedMethod { method, url } => {
                let mut r = String::from_str("unsupported request_method ");
                let q = debug_quoted(method.as_str());
                r.append(q.as_str());
                r.append(" for ");
                r.append(url.as_str());
                r
            },
        }
    }
}

/// The profile URL of `u` for the URL template `url`: the template with
/// `{}` replaced by the username, spaces encoded as `%20`.
pub open spec fn profile_text(url: Seq<char>, u: Seq<char>) -> Seq<char> {
    interpolated(url, spaces_encoded(u))
}

/// The human-facing profile URL for `username` on `site` (spaces
/// percent-encoded).
pub fn profile_url(site: &Site, username: &str) -> (r: String)
    ensures
        r@ == profile_text(site.url@, username@),
{
    let encoded = encode_spaces(username);
    interpolate(site.url.as_str(), encoded.as_str())
}

/// Why the site's `regexCheck` does not compile, if it has one that does not.
pub open spec fn pattern_error(site: Site) -> Option<Seq<char>> {
    match opt_text(site.regex_check) {
        Some(p) => regex_compile_error(p),
        None => None,
    }
}

/// Whether the site's `regexCheck` accepts `u` (there being none accepts
/// every name), or the run-time error matching stopped with.
pub open spec fn pattern_accepts(site: Site, u: Seq<char>) -> Result<bool, Seq<char>> {
    match opt_text(site.regex_check) {
        Some(p) => regex_match_outcome(p, u),
        None => Ok(true),
    }
}

/// The username passes the site's `regexCheck`.
pub open spec fn username_allowed(site: Site, u: Seq<char>) -> bool {
    pattern_error(site) is None && pattern_accepts(site, u) == Ok::<bool, Seq<char>>(true)
}

/// The username fails the site's `regexCheck`.
pub open spec fn username_illegal(site: Site, u: Seq<char>) -> bool {
    pattern_error(site) is None && pattern_accepts(site, u) == Ok::<bool, Seq<char>>(false)
}

/// The verb to use for `site`: `request_method` when it is `GET`, `HEAD`,
/// `POST` or `PUT` (`None` for any other), else `HEAD` for `status_code`
/// sites, which need only headers, and `GET` for the others.
pub open spec fn method_for(site: Site) -> Option<HttpMethod> {
    match opt_text(site.request_method) {
        Some(m) => if m == "GET"@ {
            Some(HttpMethod::Get)
        } else if m == "HEAD"@ {
            Some(HttpMethod::Head)
        } else if m == "POST"@ {
            Some(HttpMethod::Post)
        } else if m == "PUT"@ {
            Some(HttpMethod::Put)
        } else {
            None
        },
        None => if site.error_type == ErrorType::StatusCode {
            Some(HttpMethod::Head)
        } else {
            Some(HttpMethod::Get)
        },
    }
}

/// `plan` is the request to make for `u` on `site`.
pub open spec fn plan_fits(site: Site, u: Seq<char>, plan: RequestPlan) -> bool {
    &&& method_for(site) == Some(plan.method)
    &&& plan.display_url@ == profile_text(site.url@, u)
    &&& plan.probe_url@ == match opt_text(site.url_probe) {
        Some(p) => interpolated(p, u),
        None => profile_text(site.url@, u),
    }
    &&& plan.allow_redirects == (site.error_type != ErrorType::ResponseUrl)
    &&& header_texts(plan.extra_headers@) == match opt_headers(site.headers) {
        Some(h) => h,
        None => Seq::empty(),
    }
    &&& match site.request_payload {
        Some(v) => plan.payload matches Some(x) && interpolated_json(v, u, x),
        None => plan.payload is None,
    }
}

/// A request lists its headers in ascending name order with no name twice,
/// and every object of its payload lists its members likewise.
pub open spec fn plan_well_formed(plan: RequestPlan) -> bool {
    &&& header_names_ascending(plan.extra_headers@)
    &&& plan.payload matches Some(p) ==> json_well_formed(p)
}

/// The request planned for a well-formed recipe is well formed: headers
/// stay in name order, payload objects keep their members in order.
pub proof fn law_plan_keeps_well_formed(site: Site, u: Seq<char>, plan: RequestPlan)
    requires
        plan_fits(site, u, plan),
        site_well_formed(site),
    ensures
        plan_well_formed(plan),
{
    if let Some(h) = site.headers {
        lemma_same_headers_ascending(h@, plan.extra_headers@);
    } else {
        assert(plan.extra_headers@.len() == header_texts(plan.extra_headers@).len());
    }
    if let Some(v) = site.request_payload {
        lemma_interpolated_json_well_formed(v, u, plan.payload->0);
    }
}

/// What planning `u` on `site` gives: the manifest faults first (a pattern
/// that does not compile or fails to run), then `Illegal` for a name the
/// pattern rejects, then a fault for an unknown verb, else the request.
pub open spec fn planned(site: Site, u: Seq<char>, r: Result<PlanOutcome, PlanError>) -> bool {
    match pattern_error(site) {
        Some(msg) => r matches Err(PlanError::BadRegex { pattern, detail }) && Some(pattern@)
            == opt_text(site.regex_check) && detail@ == msg,
        None => match pattern_accepts(site, u) {
            Err(msg) => r matches Err(PlanError::RegexRuntime { pattern, detail }) && Some(pattern@)
                == opt_text(site.regex_check) && detail@ == msg,
            Ok(false) => r matches Ok(PlanOutcome::Skip(QueryStatus::Illegal)),
            Ok(true) => match method_for(site) {
                None => r matches Err(PlanError::UnsupportedMethod { method, url }) && Some(method@)
                    == opt_text(site.request_method) && url@ == site.url@,
                Some(_) => r matches Ok(PlanOutcome::Fetch(plan)) && plan_fits(site, u, plan),
            },
        },
    }
}

fn method_of(site: &Site) -> (r: Option<HttpMethod>)
    ensures
        r == method_for(*site),
{
    match &site.request_method {
        Some(m) => {
            if str_equals(m.as_str(), "GET") {
                Some(HttpMethod::Get)
            } else if str_equals(m.as_str(), "HEAD") {
                Some(HttpMethod::Head)
            } else if str_equals(m.as_str(), "POST") {
                Some(HttpMethod::Post)
            } else if str_equals(m.as_str(), "PUT") {
                Some(HttpMethod::Put)
            } else {
                None
            }
        },
        None => match site.error_type {
            ErrorType::StatusCode => Some(HttpMethod::Head),
            _ => Some(HttpMethod::Get),
        },
    }
}

fn copy_headers(h: &Vec<(String, String)>) -> (r: Vec<(String, String)>)
    ensures
        header_texts(r@) == header_texts(h@),
{
    let mut out: Vec<(String, String)> = Vec::new();
    let n = h.len();
    let mut i: usize = 0;
    while i < n
        invariant
            n == h@.len(),
            i <= n,
            out@.len() == i,
            forall|j: int|
                0 <= j < i ==> (#[trigger] out@[j]).0@ == h@[j].0@ && out@[j].1@ == h@[j].1@,
        decreases n - i,
    {
        let k = h[i].0.clone();
        let v = h[i].1.clone();
        out.push((k, v));
        i = i + 1;
    }
    assert(header_texts(out@) =~= header_texts(h@));
    out
}

/// Decide what to fetch for `site` given `username`, or that it is skipped.
///
/// Fails only on a malformed manifest entry (a bad `regexCheck` or an
/// unknown `request_method`).
pub fn plan_request(site: &Site, username: &str) -> (r: Result<PlanOutcome, PlanError>)
    ensures
        planned(*site, username@, r),
        site_well_formed(*site) ==> (r matches Ok(PlanOutcome::Fetch(p)) ==> plan_well_formed(p)),
{
    if let Some(pattern) = &site.regex_check {
        let compiled = match CompiledPattern::compile(pattern.as_str()) {
            Ok(c) => c,
            Err(detail) => {
                return Err(PlanError::BadRegex { pattern: pattern.clone(), detail });
            },
        };
        let matched = match run_regex(&compiled, username) {
            Ok(b) => b,
            Err(detail) => {
                return Err(PlanError::RegexRuntime { pattern: pattern.clone(), detail });
            },
        };
        if !matched {
            return Ok(PlanOutcome::Skip(QueryStatus::Illegal));
        }
    }
    let display_url = profile_url(site, username);
    let probe_url = match &site.url_probe {
        None => display_url.clone(),
        Some(p) => interpolate(p.as_str(), username),
    };
    let method = match method_of(site) {
        Some(m) => m,
        None => {
            let m = match &site.request_method {
                Some(m) => m.clone(),
                None => String::new(),
            };
            return Err(PlanError::UnsupportedMethod { method: m, url: site.url.clone() });
        },
    };
    let extra_headers = match &site.headers {
        Some(h) => copy_headers(h),
        None => {
            let v: Vec<(String, String)> = Vec::new();
            assert(header_texts(v@) =~= Seq::empty());
            v
        },
    };
    let payload = match &site.request_payload {
        Some(p) => Some(interpolate_value(p, username)),
        None => None,
    };
    let allow_redirects = match site.error_type {
        ErrorType::ResponseUrl => false,
        _ => true,
    };
    let plan = RequestPlan {
        method,
        probe_url,
        display_url,
        allow_redirects,
        extra_headers,
        payload,
    };
    proof {
        if site_well_formed(*site) {
            law_plan_keeps_well_formed(*site, username@, plan);
        }
    }
    Ok(PlanOutcome::Fetch(plan))
}

/// Some of the site's "not found" messages appears in `body`.
pub open spec fn message_found(site: Site, body: Seq<char>) -> bool {
    match opt_texts(site.error_msg) {
        Some(ms) => exists|i: int| 0 <= i < ms.len() && contains_text(body, #[trigger] ms[i]),
        None => false,
    }
}

/// `status` is one of the site's explicit "not found" codes.
pub open spec fn code_listed(site: Site, status: u16) -> bool {
    match opt_codes(site.error_code) {
        Some(cs) => cs.contains(status as i64),
        None => false,
    }
}

/// `status` is a 2xx code.
pub open spec fn is_success(status: u16) -> bool {
    200 <= status < 300
}

/// The status that a response with code `status` and text `body` means for
/// `site`: a firewall page beats everything; then, by the site's error type,
/// a "not found" message in the body, an explicit or non-2xx code, or a
/// non-2xx code on the un-redirected URL means the name is available.
pub open spec fn verdict(site: Site, status: u16, body: Seq<char>) -> QueryStatus {
    if waf_blocked(body) {
        QueryStatus::Waf
    } else {
        match site.error_type {
            ErrorType::Message => if message_found(site, body) {
                QueryStatus::Available
            } else {
                QueryStatus::Claimed
            },
            ErrorType::StatusCode => if code_listed(site, status) {
                QueryStatus::Available
            } else if is_success(status) {
                QueryStatus::Claimed
            } else {
                QueryStatus::Available
            },
            ErrorType::ResponseUrl => if is_success(status) {
                QueryStatus::Claimed
            } else {
                QueryStatus::Available
            },
        }
    }
}

/// Judge an already-fetched response: `status` is the HTTP code, `body` the
/// text (empty for `HEAD` requests, which is fine for status-code detection).
pub fn decide(site: &Site, status: u16, body: &str) -> (r: QueryStatus)
    ensures
        r == verdict(*site, status, body@),
{
    let hay = chars_of(body);
    if holds_waf_fingerprint(&hay) {
        return QueryStatus::Waf;
    }
    match site.error_type {
        ErrorType::Message => {
            let errors: Vec<String> = match &site.error_msg {
                Some(e) => e.to_vec(),
                None => Vec::new(),
            };
            let ghost ms = opt_texts(site.error_msg);
            assert(ms is Some ==> ms->0.len() == errors@.len());
            let n = errors.len();
            let mut i: usize = 0;
            while i < n
                invariant
                    n == errors@.len(),
                    i <= n,
                    hay@ == body@,
                    site.error_type == ErrorType::Message,
                    !waf_blocked(body@),
                    ms == opt_texts(site.error_msg),
                    ms is None ==> n == 0,
                    ms is Some ==> ms->0.len() == n && forall|j: int|
                        0 <= j < n ==> (#[trigger] ms->0[j]) == errors@[j]@,
                    forall|j: int| 0 <= j < i ==> !contains_text(body@, #[trigger] errors@[j]@),
                decreases n - i,
            {
                let e = chars_of(errors[i].as_str());
                if contains_chars(&hay, &e) {
                    assert(contains_text(body@, ms->0[i as int]));
                    return QueryStatus::Available;
                }
                i = i + 1;
            }
            assert(!message_found(*site, body@)) by {
                if ms is Some {
                    assert forall|j: int| 0 <= j < ms->0.len() implies !contains_text(
                        body@,
                        #[trigger] ms->0[j],
                    ) by {
                        assert(ms->0[j] == errors@[j]@);
                    }
                }
            }
            QueryStatus::Claimed
        },
        ErrorType::StatusCode => {
            if let Some(codes) = &site.error_code {
                let cs = codes.to_vec();
                let n = cs.len();
                let mut i: usize = 0;
                while i < n
                    invariant
                        n == cs@.len(),
                        i <= n,
                        cs@ == codes.items(),
                        site.error_code == Some(*codes),
                        site.error_type == ErrorType::StatusCode,
                        !waf_blocked(body@),
                        forall|j: int| 0 <= j < i ==> cs@[j] != status as i64,
                    decreases n - i,
                {
                    if cs[i] == status as i64 {
                        assert(codes.items()[i as int] == status as i64);
                        return QueryStatus::Available;
                    }
                    i = i + 1;
                }
            }
            if 200 <= status && status < 300 {
                QueryStatus::Claimed
            } else {
                QueryStatus::Available
            }
        },
        ErrorType::ResponseUrl => {
            if 200 <= status && status < 300 {
                QueryStatus::Claimed
            } else {
                QueryStatus::Available
            }
        },
    }
}

/// A profile URL holds no space when its template holds none: spaces in
/// the username are always encoded.
pub proof fn law_profile_url_has_no_space(url: Seq<char>, u: Seq<char>)
    requires
        !url.contains(' '),
    ensures
        !profile_text(url, u).contains(' '),
{
    law_encoded_has_no_space(u);
    law_interpolation_keeps_out_spaces(url, spaces_encoded(u));
}

/// A firewall page beats every other rule.
pub proof fn law_waf_beats_everything(site: Site, status: u16, body: Seq<char>)
    requires
        waf_blocked(body),
    ensures
        verdict(site, status, body) == QueryStatus::Waf,
{
}

/// Judging a response only ever says claimed, available, or blocked.
pub proof fn law_verdict_is_claimed_available_or_blocked(site: Site, status: u16, body: Seq<char>)
    ensures
        verdict(site, status, body) == QueryStatus::Claimed || verdict(site, status, body)
            == QueryStatus::Available || verdict(site, status, body) == QueryStatus::Waf,
{
}

/// On a message site, a name is available exactly when a "not found"
/// message appears in the page (unless a firewall answered).
pub proof fn law_message_decides(site: Site, status: u16, body: Seq<char>)
    requires
        site.error_type == ErrorType::Message,
        !waf_blocked(body),
    ensures
        (verdict(site, status, body) == QueryStatus::Available) == message_found(site, body),
        (verdict(site, status, body) == QueryStatus::Claimed) == !message_found(site, body),
{
}

/// On a status-code site, an explicit "not found" code wins even over 2xx.
pub proof fn law_explicit_error_code_wins(site: Site, status: u16, body: Seq<char>)
    requires
        site.error_type == ErrorType::StatusCode,
        !waf_blocked(body),
        code_listed(site, status),
    ensures
        verdict(site, status, body) == QueryStatus::Available,
{
}

/// On a status-code or response-url site with no explicit codes, a name is
/// claimed exactly on a 2xx code (unless a firewall answered).
pub proof fn law_success_means_claimed(site: Site, status: u16, body: Seq<char>)
    requires
        site.error_type != ErrorType::Message,
        !waf_blocked(body),
        !code_listed(site, status),
    ensures
        (verdict(site, status, body) == QueryStatus::Claimed) == is_success(status),
{
}

/// A name the site's pattern rejects is skipped as `Illegal`, with no request.
pub proof fn law_rejected_name_is_illegal(
    site: Site,
    u: Seq<char>,
    r: Result<PlanOutcome, PlanError>,
)
    requires
        planned(site, u, r),
        username_illegal(site, u),
    ensures
        r matches Ok(PlanOutcome::Skip(QueryStatus::Illegal)),
{
}

/// A planned request disables redirects exactly for response-url sites, and
/// reports the profile URL of the username.
pub proof fn law_plan_redirects_and_profile(site: Site, u: Seq<char>, plan: RequestPlan)
    requires
        plan_fits(site, u, plan),
    ensures
        !plan.allow_redirects <==> site.error_type == ErrorType::ResponseUrl,
        plan.display_url@ == profile_text(site.url@, u),
{
}

/// The detection rules never read `errorUrl`: recipes that differ only
/// there plan every request alike and judge every response alike.
pub proof fn law_error_url_is_never_read(
    site: Site,
    other: Option<String>,
    u: Seq<char>,
    r: Result<PlanOutcome, PlanError>,
    status: u16,
    body: Seq<char>,
)
    ensures
        planned(Site { error_url: other, ..site }, u, r) == planned(site, u, r),
        verdict(Site { error_url: other, ..site }, status, body) == verdict(site, status, body),
{
}

/// The profile URL of a username without spaces is the template with the
/// username put in as it is.
pub proof fn law_profile_url_keeps_plain_names(url: Seq<char>, u: Seq<char>)
    requires
        !u.contains(' '),
    ensures
        profile_text(url, u) == interpolated(url, u),
{
    law_encoding_keeps_other_characters(u);
}

/// An explicit `request_method` decides the verb, whatever the error type:
/// `GET`, `HEAD`, `POST` and `PUT` give those verbs, anything else is a
/// fault of the manifest.
pub proof fn law_explicit_method_decides(site: Site, u: Seq<char>, r: Result<PlanOutcome, PlanError>)
    requires
        planned(site, u, r),
        username_allowed(site, u),
        site.request_method is Some,
    ensures
        opt_text(site.request_method) == Some("GET"@) ==> (r matches Ok(PlanOutcome::Fetch(p))
            && p.method == HttpMethod::Get),
        opt_text(site.request_method) == Some("HEAD"@) ==> (r matches Ok(PlanOutcome::Fetch(p))
            && p.method == HttpMethod::Head),
        opt_text(site.request_method) == Some("POST"@) ==> (r matches Ok(PlanOutcome::Fetch(p))
            && p.method == HttpMethod::Post),
        opt_text(site.request_method) == Some("PUT"@) ==> (r matches Ok(PlanOutcome::Fetch(p))
            && p.method == HttpMethod::Put),
        opt_text(site.request_method) != Some("GET"@) && opt_text(site.request_method) != Some(
            "HEAD"@,
        ) && opt_text(site.request_method) != Some("POST"@) && opt_text(site.request_method)
            != Some("PUT"@) ==> r matches Err(PlanError::UnsupportedMethod { .. }),
{
    reveal_strlit("GET");
    reveal_strlit("HEAD");
    reveal_strlit("POST");
    reveal_strlit("PUT");
    assert("GET"@ != "HEAD"@) by {
        assert("GET"@.len() != "HEAD"@.len());
    }
    assert("GET"@ != "POST"@) by {
        assert("GET"@.len() != "POST"@.len());
    }
    assert("GET"@ != "PUT"@) by {
        assert("GET"@[0] != "PUT"@[0]);
    }
    assert("HEAD"@ != "POST"@) by {
        assert("HEAD"@[0] != "POST"@[0]);
    }
    assert("HEAD"@ != "PUT"@) by {
        assert("HEAD"@.len() != "PUT"@.len());
    }
    assert("POST"@ != "PUT"@) by {
        assert("POST"@.len() != "PUT"@.len());
    }
}

/// Without an explicit `request_method`, status-code sites are asked with
/// `HEAD` and all others with `GET`.
pub proof fn law_default_method(site: Site, u: Seq<char>, r: Result<PlanOutcome, PlanError>)
    requires
        planned(site, u, r),
        username_allowed(site, u),
        site.request_method is None,
    ensures
        r matches Ok(PlanOutcome::Fetch(p)) && p.method == if site.error_type
            == ErrorType::StatusCode {
            HttpMethod::Head
        } else {
            HttpMethod::Get
        },
{
}

} // verus!
