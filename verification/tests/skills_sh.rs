use ktesio::skills_sh::{
    decide_attempt, display_seconds, friendly_transport_error, non_retryable_status, normalize_public_results,
    normalize_v1_results, plan_search, search_url, retry_delay, retry_exhausted, retry_message, unexpected_response,
    AttemptDecision, AttemptOutcome, Delay, HttpResponse, PublicSkill, V1Skill, BASE_AUTH_URL, BASE_PUBLIC_URL,
};

fn response(status: u16, body: &str) -> HttpResponse {
    HttpResponse { status, headers: Vec::new(), body: body.to_string() }
}

fn response_with_header(status: u16, name: &str, value: &str) -> HttpResponse {
    HttpResponse { status, headers: vec![(name.to_string(), value.to_string())], body: "{}".to_string() }
}

fn secs(s: u64) -> Delay {
    Delay { secs: s, extra_millis: 0 }
}

#[test]
fn test_public_search_normalizes_github_results() {
    let plan = plan_search("tests", 5, false).unwrap();
    assert!(plan.url.starts_with(BASE_PUBLIC_URL));
    let decision = decide_attempt(1, &AttemptOutcome::Response(response(200, "{}")), false);
    assert!(matches!(decision, AttemptDecision::Parse));
    let results = normalize_public_results(vec![PublicSkill {
        id: "hashicorp/agent-skills/run-acceptance-tests".to_string(),
        skill_id: Some("run-acceptance-tests".to_string()),
        name: "run-acceptance-tests".to_string(),
        installs: 1468,
        source: "hashicorp/agent-skills".to_string(),
    }]);

    assert_eq!(results.len(), 1);
    assert_eq!(results[0].repo.as_deref(), Some("https://github.com/hashicorp/agent-skills.git"));
    assert_eq!(results[0].install_target.as_deref(), Some("hashicorp/agent-skills/run-acceptance-tests"));
    assert!(results[0].installable);
    assert_eq!(
        results[0].url.as_deref(),
        Some("https://skills.sh/hashicorp/agent-skills/run-acceptance-tests")
    );
}

#[test]
fn test_authenticated_search_uses_v1_shape_and_url() {
    let plan = plan_search("react native", 500, true).unwrap();
    let results = normalize_v1_results(vec![V1Skill {
        id: "expo/skills/react-native".to_string(),
        slug: "react-native".to_string(),
        name: "React Native".to_string(),
        source: "expo/skills".to_string(),
        installs: 3842,
        source_type: Some("github".to_string()),
        url: Some("https://skills.sh/expo/skills/react-native".to_string()),
    }]);

    assert_eq!(results[0].install_target.as_deref(), Some("expo/skills/react-native"));
    assert!(plan.url.starts_with(BASE_AUTH_URL));
    assert!(plan.url.contains("limit=200"));
    assert!(plan.authenticated);
}

#[test]
fn test_public_search_falls_back_to_id_slug() {
    let plan = plan_search("tests", 0, false).unwrap();
    let results = normalize_public_results(vec![PublicSkill {
        id: "catalog/vendors/write-tests".to_string(),
        skill_id: None,
        name: "Write Tests".to_string(),
        installs: 9,
        source: "catalog".to_string(),
    }]);

    assert_eq!(results[0].skill, "write-tests");
    assert_eq!(results[0].repo, None);
    assert_eq!(results[0].install_target, None);
    assert!(!results[0].installable);
    assert!(plan.url.contains("limit=1"));
}

#[test]
fn test_public_search_empty_skill_id_falls_back_to_id_slug() {
    let results = normalize_public_results(vec![PublicSkill {
        id: "owner/repo/lint".to_string(),
        skill_id: Some(String::new()),
        name: "Lint".to_string(),
        installs: 1,
        source: "owner/repo".to_string(),
    }]);
    assert_eq!(results[0].skill, "lint");
    assert_eq!(results[0].install_target.as_deref(), Some("owner/repo/lint"));
}

#[test]
fn test_public_search_caps_large_limit() {
    let plan = plan_search("tests", 500, false).unwrap();
    assert!(plan.url.contains("limit=100"));
}

#[test]
fn test_search_url_encodes_query() {
    let plan = plan_search("  react native ", 10, false).unwrap();
    assert_eq!(plan.url, "https://www.skills.sh/api/search?q=react%20native&limit=10");
}

#[test]
fn test_short_query_fails_without_request() {
    let error = plan_search(" x ", 10, false).unwrap_err();
    assert_eq!(error.to_string(), "Search query must be at least 2 characters");
    assert!(plan_search("é", 10, false).is_ok());
}

#[test]
fn test_authenticated_nongithub_result_is_not_installable() {
    let results = normalize_v1_results(vec![V1Skill {
        id: "external/write-tests".to_string(),
        slug: "write-tests".to_string(),
        name: "Write Tests".to_string(),
        source: "external/package".to_string(),
        installs: 3,
        source_type: Some("registry".to_string()),
        url: None,
    }]);

    assert_eq!(results[0].repo, None);
    assert_eq!(results[0].install_target, None);
    assert!(!results[0].installable);
}

#[test]
fn test_rate_limit_retries_use_headers_then_parse() {
    let first = decide_attempt(1, &AttemptOutcome::Response(response_with_header(429, "retry-after", "3")), false);
    match first {
        AttemptDecision::Retry { delay, notice } => {
            assert_eq!(delay, secs(3));
            assert!(notice.contains("rate limit reached"));
            assert!(notice.contains("(attempt 2/3)"));
        }
        other => panic!("unexpected {:?}", other),
    }
    let second =
        decide_attempt(2, &AttemptOutcome::Response(response_with_header(429, "x-ratelimit-reset", "4")), false);
    match second {
        AttemptDecision::Retry { delay, .. } => assert_eq!(delay, secs(4)),
        other => panic!("unexpected {:?}", other),
    }
    assert!(matches!(decide_attempt(3, &AttemptOutcome::Response(response(200, "{}")), false), AttemptDecision::Parse));
}

#[test]
fn test_retryable_transport_error_retries_then_gives_up() {
    let outcome = AttemptOutcome::TransportError { message: "timeout".to_string(), retryable: true };
    match decide_attempt(1, &outcome, false) {
        AttemptDecision::Retry { delay, notice } => {
            assert_eq!(delay, Delay { secs: 1, extra_millis: 137 });
            assert_eq!(notice, "skills.sh search connection failed; retrying in 1s (attempt 2/3).");
        }
        other => panic!("unexpected {:?}", other),
    }
    let last = AttemptOutcome::TransportError { message: "connection refused".to_string(), retryable: true };
    match decide_attempt(3, &last, false) {
        AttemptDecision::Fail(error) => assert!(error.to_string().contains("connection refused")),
        other => panic!("unexpected {:?}", other),
    }
}

#[test]
fn test_non_retryable_outcomes_fail_at_once() {
    match decide_attempt(1, &AttemptOutcome::Response(response(401, "{}")), true) {
        AttemptDecision::Fail(error) => assert!(error.to_string().contains("rejected KTESIO_SKILLS_SH_API_KEY")),
        other => panic!("unexpected {:?}", other),
    }
    let outcome = AttemptOutcome::TransportError { message: "bad response body".to_string(), retryable: false };
    match decide_attempt(1, &outcome, false) {
        AttemptDecision::Fail(error) => assert_eq!(error.to_string(), "skills.sh search failed: bad response body"),
        other => panic!("unexpected {:?}", other),
    }
}

#[test]
fn test_service_unavailable_exhaustion_uses_clean_error() {
    match decide_attempt(1, &AttemptOutcome::Response(response(503, "{}")), false) {
        AttemptDecision::Retry { notice, .. } => assert!(notice.contains("temporarily unavailable")),
        other => panic!("unexpected {:?}", other),
    }
    match decide_attempt(3, &AttemptOutcome::Response(response(503, "{}")), false) {
        AttemptDecision::Fail(error) => assert!(error.to_string().contains("retry later")),
        other => panic!("unexpected {:?}", other),
    }
}

#[test]
fn test_malformed_response_messages() {
    assert!(unexpected_response(true).to_string().contains("authenticated search response"));
    assert!(unexpected_response(false).to_string().contains("public search response"));
}

#[test]
fn test_retry_delay_and_messages_cover_fallbacks() {
    let headers = vec![("retry-after".to_string(), "not-a-number".to_string())];

    let delay = retry_delay(&headers, 429, 2);

    assert!(delay.secs >= 2);
    assert!(retry_message(429, secs(12), 2).contains("rate limit"));
    assert!(retry_message(503, secs(2), 3).contains("temporarily unavailable"));
    assert!(retry_message(500, secs(2), 3).contains("failed temporarily"));
    assert_eq!(display_seconds(Delay { secs: 0, extra_millis: 5 }), 1);
}

#[test]
fn test_retry_exhausted_status_messages() {
    let headers = vec![("retry-after".to_string(), "7".to_string())];

    assert!(retry_exhausted(429, &headers).to_string().contains("retry in about 7s"));
    assert!(retry_exhausted(503, &Vec::new()).to_string().contains("temporarily unavailable"));
    assert!(retry_exhausted(500, &Vec::new()).to_string().contains("retry later"));
}

#[test]
fn test_non_retryable_status_messages() {
    let statuses = [
        (400, false, "rejected the search query"),
        (401, true, "rejected KTESIO_SKILLS_SH_API_KEY"),
        (401, false, "requires authentication"),
        (403, false, "access was denied"),
        (404, false, "endpoint was not found"),
        (418, false, "HTTP status 418"),
    ];

    for (status, authenticated, expected) in statuses {
        let error = non_retryable_status(response(status, "{}"), authenticated);
        assert!(error.to_string().contains(expected), "{} did not contain {}", error.to_string(), expected);
    }
}

#[test]
fn test_friendly_transport_error_variants() {
    assert_eq!(friendly_transport_error("DNS lookup failed"), "DNS lookup failed");
    assert_eq!(friendly_transport_error("operation timed out"), "connection timed out");
    assert_eq!(friendly_transport_error("connection refused by peer"), "connection refused");
    assert_eq!(friendly_transport_error("unexpected reset"), "temporary network error");
}

#[test]
fn test_search_url_percent_encodes_the_query() {
    assert_eq!(search_url("a-b_c.d~e", 3, false), format!("{BASE_PUBLIC_URL}?q=a-b_c.d~e&limit=3"));
    assert_eq!(search_url("hello world!", 10, true), format!("{BASE_AUTH_URL}?q=hello%20world%21&limit=10"));
    assert_eq!(search_url("caf\u{e9}/x", 1, false), format!("{BASE_PUBLIC_URL}?q=caf%C3%A9%2Fx&limit=1"));
}
