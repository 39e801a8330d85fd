use sherlock_rs::detect::{decide, plan_request, HttpMethod, PlanOutcome, WAF_FINGERPRINTS};
use sherlock_rs::result::QueryStatus;
use sherlock_rs::site::{ErrorType, OneOrMany, Site};

fn site(error_type: ErrorType) -> Site {
    Site {
        url: "https://x.test/{}".into(),
        url_main: "https://x.test/".into(),
        error_type,
        username_claimed: Some("blue".into()),
        error_msg: None,
        error_code: None,
        error_url: None,
        regex_check: None,
        url_probe: None,
        request_method: None,
        request_payload: None,
        headers: None,
        is_nsfw: false,
    }
}

#[test]
fn message_error_present_means_available() {
    let mut s = site(ErrorType::Message);
    s.error_msg = Some(OneOrMany::One("user not found".into()));
    assert_eq!(
        decide(&s, 200, "... user not found ..."),
        QueryStatus::Available
    );
    assert_eq!(decide(&s, 200, "welcome, blue!"), QueryStatus::Claimed);
}

#[test]
fn message_accepts_a_list_of_error_strings() {
    let mut s = site(ErrorType::Message);
    s.error_msg = Some(OneOrMany::Many(vec!["404".into(), "gone".into()]));
    assert_eq!(decide(&s, 200, "page is gone"), QueryStatus::Available);
    assert_eq!(decide(&s, 200, "all good"), QueryStatus::Claimed);
}

#[test]
fn status_code_2xx_claimed_else_available() {
    let s = site(ErrorType::StatusCode);
    assert_eq!(decide(&s, 200, ""), QueryStatus::Claimed);
    assert_eq!(decide(&s, 404, ""), QueryStatus::Available);
    assert_eq!(decide(&s, 301, ""), QueryStatus::Available);
    assert_eq!(decide(&s, 199, ""), QueryStatus::Available);
}

#[test]
fn status_code_explicit_error_code_wins() {
    let mut s = site(ErrorType::StatusCode);
    s.error_code = Some(OneOrMany::One(200));
    // 200 is the site's declared "not found" code -> available despite being 2xx.
    assert_eq!(decide(&s, 200, ""), QueryStatus::Available);
}

#[test]
fn response_url_2xx_claimed() {
    let s = site(ErrorType::ResponseUrl);
    assert_eq!(decide(&s, 200, ""), QueryStatus::Claimed);
    assert_eq!(decide(&s, 302, ""), QueryStatus::Available);
    assert_eq!(decide(&s, 404, ""), QueryStatus::Available);
}

#[test]
fn waf_fingerprint_beats_everything() {
    let s = site(ErrorType::StatusCode);
    let body = format!("<html>{}</html>", WAF_FINGERPRINTS[1]);
    assert_eq!(decide(&s, 200, &body), QueryStatus::Waf);
}

#[test]
fn regexcheck_failure_is_illegal_and_skips() {
    let mut s = site(ErrorType::StatusCode);
    s.regex_check = Some("^[0-9]+$".into());
    match plan_request(&s, "not-a-number").unwrap() {
        PlanOutcome::Skip(QueryStatus::Illegal) => {}
        other => panic!("expected Skip(Illegal), got {other:?}"),
    }
    assert!(matches!(
        plan_request(&s, "12345").unwrap(),
        PlanOutcome::Fetch(_)
    ));
}

#[test]
fn plan_defaults_method_and_redirects_by_error_type() {
    let head = plan_request(&site(ErrorType::StatusCode), "blue").unwrap();
    let get = plan_request(&site(ErrorType::Message), "blue").unwrap();
    let resp = plan_request(&site(ErrorType::ResponseUrl), "blue").unwrap();
    match (head, get, resp) {
        (PlanOutcome::Fetch(h), PlanOutcome::Fetch(g), PlanOutcome::Fetch(r)) => {
            assert_eq!(h.method, HttpMethod::Head);
            assert!(h.allow_redirects);
            assert_eq!(g.method, HttpMethod::Get);
            assert_eq!(r.method, HttpMethod::Get);
            assert!(!r.allow_redirects, "response_url must disable redirects");
        }
        _ => panic!("all three should plan a fetch"),
    }
}

#[test]
fn regexcheck_supports_lookaround_like_github() {
    // GitHub's real pattern uses a look-ahead.
    let mut s = site(ErrorType::StatusCode);
    s.regex_check = Some(r"^[a-zA-Z0-9](?:[a-zA-Z0-9]|-(?=[a-zA-Z0-9])){0,38}$".into());
    assert!(matches!(
        plan_request(&s, "torvalds").unwrap(),
        PlanOutcome::Fetch(_)
    ));
    // trailing hyphen is disallowed by the look-ahead -> Illegal
    assert!(matches!(
        plan_request(&s, "bad-").unwrap(),
        PlanOutcome::Skip(QueryStatus::Illegal)
    ));
}

#[test]
fn plan_interpolates_username_and_encodes_spaces() {
    if let PlanOutcome::Fetch(p) =
        plan_request(&site(ErrorType::StatusCode), "john doe").unwrap()
    {
        assert_eq!(p.display_url, "https://x.test/john%20doe");
    } else {
        panic!("expected fetch");
    }
}
