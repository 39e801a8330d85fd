use sherlock_rs::detect::{
    decide, plan_request, profile_url, HttpMethod, PlanError, PlanOutcome, WAF_FINGERPRINTS,
};
use sherlock_rs::engine::{
    classify_error, finish_query, sort_by_site_name, start_query, EngineOptions, FetchOutcome,
    QueryStart, RequestFailure,
};
use sherlock_rs::json::{interpolate_value, JsonValue};
use sherlock_rs::manifest::{manifest_from_entries, select_sites, Manifest, ManifestError};
use sherlock_rs::order::str_precedes;
use sherlock_rs::result::{QueryResult, QueryStatus};
use sherlock_rs::site::{ErrorType, OneOrMany, Site};
use sherlock_rs::text::{encode_spaces, interpolate, str_equals, starts_with_char};
use std::time::Duration;

fn site(error_type: ErrorType) -> Site {
    Site {
        url: "https://x.test/{}".into(),
        url_main: "https://x.test/".into(),
        error_type,
        username_claimed: Some("blue".into()),
        error_msg: None,
        error_code: None,
        error_url: None,
        regex_check: None,
        url_probe: None,
        request_method: None,
        request_payload: None,
        headers: None,
        is_nsfw: false,
    }
}

fn result(name: &str, user: &str) -> QueryResult {
    QueryResult {
        username: user.into(),
        site_name: name.into(),
        site_url_user: format!("https://x.test/{user}"),
        status: QueryStatus::Unknown,
        query_time: None,
        context: None,
    }
}

// ---- text ----------------------------------------------------------------

#[test]
fn interpolate_replaces_every_placeholder() {
    assert_eq!(interpolate("https://x.test/{}", "blue"), "https://x.test/blue");
    assert_eq!(interpolate("{}-{}", "a"), "a-a");
    assert_eq!(interpolate("no placeholder", "a"), "no placeholder");
    assert_eq!(interpolate("{{}}", "X"), "{X}");
    assert_eq!(interpolate("{", "X"), "{");
    assert_eq!(interpolate("", "X"), "");
    assert_eq!(interpolate("é{}ü", "ß"), "éßü");
}

#[test]
fn spaces_are_encoded() {
    assert_eq!(encode_spaces("a b  c"), "a%20b%20%20c");
    assert_eq!(encode_spaces("plain"), "plain");
    assert_eq!(profile_url(&site(ErrorType::StatusCode), "john doe"), "https://x.test/john%20doe");
}

#[test]
fn string_helpers() {
    assert!(str_equals("GET", "GET"));
    assert!(!str_equals("GET", "get"));
    assert!(!str_equals("GET", "GETS"));
    assert!(starts_with_char("$schema", '$'));
    assert!(!starts_with_char("", '$'));
    assert!(!starts_with_char("a$", '$'));
}

#[test]
fn name_order_is_lexicographic() {
    assert!(str_precedes("a", "b"));
    assert!(!str_precedes("b", "a"));
    assert!(str_precedes("a", "ab"));
    assert!(!str_precedes("ab", "a"));
    assert!(!str_precedes("", ""));
    assert!(str_precedes("", "a"));
    assert!(str_precedes("GitHub", "GitLab"));
    assert!(str_precedes("Zebra", "apple"));
}

// ---- manifest ------------------------------------------------------------

#[test]
fn manifest_keeps_names_in_order_and_replaces() {
    let mut m = Manifest::new();
    assert!(m.is_empty());
    assert!(m.insert("b".into(), site(ErrorType::Message)).is_none());
    assert!(m.insert("a".into(), site(ErrorType::StatusCode)).is_none());
    assert!(m.insert("c".into(), site(ErrorType::ResponseUrl)).is_none());
    let previous = m.insert("b".into(), site(ErrorType::StatusCode));
    assert_eq!(previous.unwrap().error_type, ErrorType::Message);
    assert_eq!(m.len(), 3);
    let names: Vec<&str> = m.entries().iter().map(|(n, _)| n.as_str()).collect();
    assert_eq!(names, vec!["a", "b", "c"]);
    assert_eq!(m.get("b").unwrap().error_type, ErrorType::StatusCode);
    assert_eq!(m.get("c").unwrap().error_type, ErrorType::ResponseUrl);
    assert!(m.get("d").is_none());
}

#[test]
fn manifest_from_entries_skips_metadata() {
    let raw = vec![
        ("$schema".to_string(), Err("not a site".to_string())),
        ("GitHub".to_string(), Ok(site(ErrorType::StatusCode))),
        ("GitLab".to_string(), Ok(site(ErrorType::Message))),
    ];
    let m = manifest_from_entries(raw).unwrap();
    assert_eq!(m.len(), 2);
    assert!(m.get("$schema").is_none());
    assert_eq!(m.get("GitHub").unwrap().error_type, ErrorType::StatusCode);
    assert_eq!(m.get("GitLab").unwrap().error_type, ErrorType::Message);
}

#[test]
fn manifest_from_entries_reports_first_bad_site() {
    let raw = vec![
        ("A".to_string(), Ok(site(ErrorType::StatusCode))),
        ("Bad \"one\"".to_string(), Err("missing field `url`".to_string())),
        ("Worse".to_string(), Err("other".to_string())),
    ];
    match manifest_from_entries(raw) {
        Err(e) => {
            let ManifestError::SiteInvalid { name, detail } = &e;
            assert_eq!(name, "Bad \"one\"");
            assert_eq!(detail, "missing field `url`");
            assert_eq!(e.message(), "site \"Bad \\\"one\\\"\": missing field `url`");
        }
        Ok(_) => panic!("expected an error"),
    }
}

#[test]
fn select_sites_filters_by_name_and_nsfw() {
    let mut m = Manifest::new();
    m.insert("GitHub".into(), site(ErrorType::StatusCode));
    m.insert("Reddit".into(), site(ErrorType::Message));
    let mut adult = site(ErrorType::Message);
    adult.is_nsfw = true;
    m.insert("Adult".into(), adult);

    let all_safe = select_sites(&m, &vec![], false);
    let names: Vec<&str> = all_safe.entries().iter().map(|(n, _)| n.as_str()).collect();
    assert_eq!(names, vec!["GitHub", "Reddit"]);

    let all = select_sites(&m, &vec![], true);
    assert_eq!(all.len(), 3);

    let some = select_sites(&m, &vec!["GITHUB".to_string(), "nowhere".to_string()], false);
    let names: Vec<&str> = some.entries().iter().map(|(n, _)| n.as_str()).collect();
    assert_eq!(names, vec!["GitHub"]);
    assert_eq!(some.get("GitHub").unwrap().url, "https://x.test/{}");

    let adult_only = select_sites(&m, &vec!["adult".to_string()], false);
    assert!(adult_only.is_empty());
    let adult_only = select_sites(&m, &vec!["adult".to_string()], true);
    assert_eq!(adult_only.len(), 1);
}

// ---- decide --------------------------------------------------------------

#[test]
fn every_waf_fingerprint_is_detected() {
    for kind in [ErrorType::Message, ErrorType::StatusCode, ErrorType::ResponseUrl] {
        for f in WAF_FINGERPRINTS {
            let body = format!("prefix {f} suffix");
            assert_eq!(decide(&site(kind), 404, &body), QueryStatus::Waf);
        }
    }
    assert_eq!(decide(&site(ErrorType::StatusCode), 200, "AwsWafIntegration"), QueryStatus::Claimed);
}

#[test]
fn message_site_without_messages_is_claimed() {
    assert_eq!(decide(&site(ErrorType::Message), 404, "anything"), QueryStatus::Claimed);
}

#[test]
fn status_code_list_of_error_codes() {
    let mut s = site(ErrorType::StatusCode);
    s.error_code = Some(OneOrMany::Many(vec![204, 410]));
    assert_eq!(decide(&s, 204, ""), QueryStatus::Available);
    assert_eq!(decide(&s, 200, ""), QueryStatus::Claimed);
    assert_eq!(decide(&s, 299, ""), QueryStatus::Claimed);
    assert_eq!(decide(&s, 300, ""), QueryStatus::Available);
    assert_eq!(decide(&s, 410, ""), QueryStatus::Available);
}

#[test]
fn one_or_many_to_vec() {
    assert_eq!(OneOrMany::One(5i64).to_vec(), vec![5]);
    assert_eq!(OneOrMany::Many(vec![1i64, 2]).to_vec(), vec![1, 2]);
    assert_eq!(OneOrMany::Many(Vec::<i64>::new()).to_vec(), Vec::<i64>::new());
}

// ---- plan ----------------------------------------------------------------

#[test]
fn plan_reports_bad_regex() {
    let mut s = site(ErrorType::StatusCode);
    s.regex_check = Some("(".into());
    match plan_request(&s, "blue") {
        Err(e) => {
            match &e {
                PlanError::BadRegex { pattern, detail } => {
                    assert_eq!(pattern, "(");
                    assert!(!detail.is_empty());
                }
                other => panic!("expected BadRegex, got {other:?}"),
            }
            assert!(e.message().starts_with("bad regexCheck \"(\": "));
        }
        Ok(o) => panic!("expected an error, got {o:?}"),
    }
}

#[test]
fn plan_reports_regex_runtime_error() {
    let mut s = site(ErrorType::StatusCode);
    // A back-reference forces the backtracking engine, which gives up.
    s.regex_check = Some(r"^(a|b|ab)*\1c$".into());
    let name = "ab".repeat(30);
    match plan_request(&s, &name) {
        Err(e) => {
            assert!(matches!(e, PlanError::RegexRuntime { .. }), "got {e:?}");
            assert!(e.message().starts_with("regexCheck runtime error \"^(a|b|ab)*\\\\1c$\": "));
        }
        Ok(o) => panic!("expected an error, got {o:?}"),
    }
}

#[test]
fn plan_reports_unsupported_method() {
    let mut s = site(ErrorType::Message);
    s.request_method = Some("PATCH".into());
    match plan_request(&s, "blue") {
        Err(e) => {
            assert!(matches!(e, PlanError::UnsupportedMethod { .. }));
            assert_eq!(e.message(), "unsupported request_method \"PATCH\" for https://x.test/{}");
        }
        Ok(o) => panic!("expected an error, got {o:?}"),
    }
}

#[test]
fn plan_uses_explicit_method_probe_headers_and_payload() {
    let mut s = site(ErrorType::Message);
    s.request_method = Some("POST".into());
    s.url_probe = Some("https://api.x.test/users?name={}".into());
    s.headers = Some(vec![
        ("Accept".to_string(), "application/json".to_string()),
        ("X-Name".to_string(), "{}".to_string()),
    ]);
    s.request_payload = Some(JsonValue::Object(vec![
        ("user".to_string(), JsonValue::String("{}".into())),
        ("n".to_string(), JsonValue::Number("3".into())),
    ]));
    match plan_request(&s, "john doe").unwrap() {
        PlanOutcome::Fetch(p) => {
            assert_eq!(p.method, HttpMethod::Post);
            assert_eq!(p.display_url, "https://x.test/john%20doe");
            // the probe URL uses the raw name
            assert_eq!(p.probe_url, "https://api.x.test/users?name=john doe");
            assert!(p.allow_redirects);
            assert_eq!(p.extra_headers, vec![
                ("Accept".to_string(), "application/json".to_string()),
                ("X-Name".to_string(), "{}".to_string()),
            ]);
            match p.payload {
                Some(JsonValue::Object(members)) => {
                    assert_eq!(members.len(), 2);
                    assert_eq!(members[0].0, "user");
                    assert!(matches!(&members[0].1, JsonValue::String(v) if v == "john doe"));
                    assert!(matches!(&members[1].1, JsonValue::Number(v) if v == "3"));
                }
                other => panic!("unexpected payload {other:?}"),
            }
        }
        other => panic!("expected a fetch, got {other:?}"),
    }
    for (m, want) in [("GET", HttpMethod::Get), ("HEAD", HttpMethod::Head), ("PUT", HttpMethod::Put)] {
        s.request_method = Some(m.into());
        match plan_request(&s, "x").unwrap() {
            PlanOutcome::Fetch(p) => assert_eq!(p.method, want),
            other => panic!("expected a fetch, got {other:?}"),
        }
    }
}

#[test]
fn interpolate_value_rewrites_nested_strings_only() {
    let v = JsonValue::Array(vec![
        JsonValue::Null,
        JsonValue::Bool(true),
        JsonValue::Object(vec![("{}".to_string(), JsonValue::String("id={}".into()))]),
    ]);
    match interpolate_value(&v, "bob") {
        JsonValue::Array(items) => {
            assert_eq!(items.len(), 3);
            assert!(matches!(items[0], JsonValue::Null));
            assert!(matches!(items[1], JsonValue::Bool(true)));
            match &items[2] {
                JsonValue::Object(m) => {
                    assert_eq!(m[0].0, "{}");
                    assert!(matches!(&m[0].1, JsonValue::String(s) if s == "id=bob"));
                }
                other => panic!("unexpected {other:?}"),
            }
        }
        other => panic!("unexpected {other:?}"),
    }
}

// ---- engine decisions ----------------------------------------------------

#[test]
fn start_query_finishes_illegal_names() {
    let mut s = site(ErrorType::StatusCode);
    s.regex_check = Some("^[0-9]+$".into());
    match start_query("Numbers", &s, "a b") {
        QueryStart::Finished(q) => {
            assert_eq!(q.status, QueryStatus::Illegal);
            assert_eq!(q.username, "a b");
            assert_eq!(q.site_name, "Numbers");
            assert_eq!(q.site_url_user, "https://x.test/a%20b");
            assert!(q.context.is_none());
            assert!(q.query_time.is_none());
        }
        other => panic!("expected a finished query, got {other:?}"),
    }
}

#[test]
fn start_query_reports_manifest_faults() {
    let mut s = site(ErrorType::StatusCode);
    s.request_method = Some("PATCH".into());
    match start_query("Odd", &s, "blue") {
        QueryStart::Finished(q) => {
            assert_eq!(q.status, QueryStatus::Unknown);
            assert_eq!(
                q.context.as_deref(),
                Some("Manifest error: unsupported request_method \"PATCH\" for https://x.test/{}")
            );
        }
        other => panic!("expected a finished query, got {other:?}"),
    }
}

#[test]
fn start_then_finish_with_response_or_failure() {
    let mut s = site(ErrorType::Message);
    s.error_msg = Some(OneOrMany::One("not found".into()));
    let (plan, base) = match start_query("Msg", &s, "blue") {
        QueryStart::Fetch(p, b) => (p, b),
        other => panic!("expected a fetch, got {other:?}"),
    };
    assert_eq!(plan.method, HttpMethod::Get);
    assert_eq!(base.status, QueryStatus::Unknown);

    let outcome = FetchOutcome::Response { status: 200, body: "user not found here".into() };
    let r = finish_query(base, &s, &outcome, Duration::from_millis(5));
    assert_eq!(r.status, QueryStatus::Available);
    assert_eq!(r.query_time, Some(Duration::from_millis(5)));
    assert!(r.context.is_none());
    assert_eq!(r.site_url_user, "https://x.test/blue");

    let base = match start_query("Msg", &s, "blue") {
        QueryStart::Fetch(_, b) => b,
        other => panic!("expected a fetch, got {other:?}"),
    };
    let failure = RequestFailure {
        timeout: true,
        connect: false,
        redirect: false,
        description: "operation timed out".into(),
    };
    let r = finish_query(base, &s, &FetchOutcome::Failure(failure), Duration::from_secs(1));
    assert_eq!(r.status, QueryStatus::Unknown);
    assert_eq!(r.context.as_deref(), Some("Timeout Error"));
    assert_eq!(r.to_string(), "Unknown (Timeout Error)");
}

#[test]
fn failures_are_labelled() {
    let f = |timeout, connect, redirect| RequestFailure {
        timeout,
        connect,
        redirect,
        description: "boom".into(),
    };
    assert_eq!(classify_error(&f(true, true, true)), "Timeout Error");
    assert_eq!(classify_error(&f(false, true, true)), "Error Connecting");
    assert_eq!(classify_error(&f(false, false, true)), "Redirect Error");
    assert_eq!(classify_error(&f(false, false, false)), "Request Error: boom");
}

#[test]
fn results_are_sorted_by_site_name() {
    let results = vec![result("c", "1"), result("a", "2"), result("b", "3"), result("a", "4")];
    let sorted = sort_by_site_name(results);
    let order: Vec<(&str, &str)> =
        sorted.iter().map(|r| (r.site_name.as_str(), r.username.as_str())).collect();
    assert_eq!(order, vec![("a", "2"), ("a", "4"), ("b", "3"), ("c", "1")]);
    assert!(sort_by_site_name(Vec::new()).is_empty());
}

#[test]
fn statuses_read_as_text() {
    assert_eq!(QueryStatus::Claimed.to_string(), "Claimed");
    assert_eq!(QueryStatus::Available.to_string(), "Available");
    assert_eq!(QueryStatus::Unknown.to_string(), "Unknown");
    assert_eq!(QueryStatus::Illegal.to_string(), "Illegal");
    assert_eq!(QueryStatus::Waf.to_string(), "WAF");
    let mut r = result("a", "b");
    assert_eq!(r.to_string(), "Unknown");
    r.status = QueryStatus::Claimed;
    r.context = Some("note".into());
    assert_eq!(r.to_string(), "Claimed (note)");
}

#[test]
fn engine_defaults() {
    let o = EngineOptions::default();
    assert_eq!(o.timeout, Duration::from_secs(60));
    assert_eq!(o.max_workers, 20);
    assert!(o.proxy.is_none());
}
