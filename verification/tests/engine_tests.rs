use warpbench::config::{check_config, Config, ConfigError, Scenario, Step};
use warpbench::engine::{
    finish_step, method_from_uppercase, own_step, own_steps, parse_header, parse_method,
    next_action, plan_request, record_outcome, scenario_index, status_is_success, step_after,
    Method, StepOwned, WorkerAction,
};
use warpbench::error::HttpError;
use warpbench::metrics::Counters;
use warpbench::text::{chars_of, trimmed_string, white_space};

fn owned(method: &str, url: &str, body: Option<&str>, headers: &[&str]) -> StepOwned {
    StepOwned {
        method: method.to_string(),
        url: url.to_string(),
        body: body.map(|b| b.to_string()),
        headers: headers.iter().map(|h| h.to_string()).collect(),
    }
}

fn pair(k: &str, v: &str) -> (String, String) {
    (k.to_string(), v.to_string())
}

#[test]
fn header_split_at_first_colon_and_trimmed() {
    assert_eq!(parse_header("Content-Type: application/json"), Some(pair("Content-Type", "application/json")));
    assert_eq!(parse_header("  X-Run :  1  "), Some(pair("X-Run", "1")));
    assert_eq!(parse_header("Referer: http://a.b/c"), Some(pair("Referer", "http://a.b/c")));
    assert_eq!(parse_header("Accept"), None);
    assert_eq!(parse_header(""), None);
    assert_eq!(parse_header(":"), Some(pair("", "")));
    assert_eq!(parse_header("\u{a0}K\t:\u{3000}V\n"), Some(pair("K", "V")));
}

#[test]
fn whitespace_is_unicode_white_space() {
    for c in [' ', '\t', '\n', '\r', '\u{b}', '\u{c}', '\u{85}', '\u{a0}', '\u{1680}', '\u{2000}', '\u{200a}', '\u{2028}', '\u{2029}', '\u{202f}', '\u{205f}', '\u{3000}'] {
        assert!(white_space(c), "{:?}", c);
        assert!(c.is_whitespace());
    }
    for c in ['a', ':', '\u{200b}', '\u{180e}', '\0', '\u{feff}'] {
        assert!(!white_space(c), "{:?}", c);
        assert!(!c.is_whitespace());
    }
}

#[test]
fn trimmed_string_matches_str_trim() {
    let samples = ["  a b  ", "\u{2003}x\u{2029}", "", "   ", "no-trim"];
    for s in samples {
        let cs = chars_of(s);
        assert_eq!(trimmed_string(&cs, 0, cs.len()), s.trim());
    }
}

#[test]
fn method_is_case_insensitive() {
    assert_eq!(parse_method("POST"), Method::Post);
    assert_eq!(parse_method("post"), Method::Post);
    assert_eq!(parse_method("Put"), Method::Put);
    assert_eq!(parse_method("delete"), Method::Delete);
    assert_eq!(parse_method("GET"), Method::Get);
    assert_eq!(parse_method("get"), Method::Get);
}

#[test]
fn unknown_method_defaults_to_get() {
    assert_eq!(parse_method("PATCH"), Method::Get);
    assert_eq!(parse_method(""), Method::Get);
    assert_eq!(parse_method("POST "), Method::Get);
}

#[test]
fn method_uses_unicode_uppercase() {
    // U+FB06 (the "st" ligature) uppercases to "ST".
    assert_eq!(parse_method("po\u{fb06}"), Method::Post);
    assert_eq!(method_from_uppercase(&"POST".to_string()), Method::Post);
    assert_eq!(method_from_uppercase(&"post".to_string()), Method::Get);
}

#[test]
fn plan_with_body_adds_json_content_type() {
    let step = owned(
        "post",
        "https://example.com/api/login",
        Some("{\"u\": 1}"),
        &["Accept: application/json", "broken"],
    );
    let plan = plan_request(&step);
    assert_eq!(plan.method, Method::Post);
    assert_eq!(plan.url, "https://example.com/api/login");
    assert_eq!(plan.body.as_deref(), Some("{\"u\": 1}"));
    assert_eq!(
        plan.headers,
        vec![pair("Accept", "application/json"), pair("Content-Type", "application/json")]
    );
}

#[test]
fn plan_keeps_own_content_type() {
    let step = owned(
        "PUT",
        "https://example.com/api/profile",
        Some("bio=x"),
        &["content-TYPE: application/x-www-form-urlencoded", "Accept: */*"],
    );
    let plan = plan_request(&step);
    assert_eq!(plan.method, Method::Put);
    assert_eq!(
        plan.headers,
        vec![
            pair("content-TYPE", "application/x-www-form-urlencoded"),
            pair("Accept", "*/*"),
        ]
    );
}

#[test]
fn plan_picks_method_without_regard_to_case() {
    assert_eq!(plan_request(&owned("delete", "https://e.x/a", None, &[])).method, Method::Delete);
    assert_eq!(plan_request(&owned("patch", "https://e.x/a", None, &[])).method, Method::Get);
}

#[test]
fn plan_without_body_keeps_headers_only() {
    let step = owned("GET", "https://example.com/api/dashboard", None, &["X-WarpBench-Run: 1"]);
    let plan = plan_request(&step);
    assert_eq!(plan.method, Method::Get);
    assert_eq!(plan.body, None);
    assert_eq!(plan.headers, vec![pair("X-WarpBench-Run", "1")]);
}

#[test]
fn status_success_class() {
    assert!(status_is_success(200));
    assert!(status_is_success(204));
    assert!(status_is_success(299));
    assert!(!status_is_success(199));
    assert!(!status_is_success(300));
    assert!(!status_is_success(404));
    assert!(!status_is_success(500));
}

#[test]
fn finish_step_classifies_status() {
    let url = "https://example.com/x".to_string();
    assert!(matches!(finish_step(Ok(200), &url), Ok(200)));
    assert!(matches!(finish_step(Ok(201), &url), Ok(201)));
    match finish_step(Ok(404), &url) {
        Err(HttpError::BadStatus { status, url: u }) => {
            assert_eq!(status, 404);
            assert_eq!(u, url);
        }
        other => panic!("unexpected {:?}", other),
    }
    match finish_step(Ok(302), &url) {
        Err(HttpError::BadStatus { status, .. }) => assert_eq!(status, 302),
        other => panic!("unexpected {:?}", other),
    }
}

#[test]
fn finish_step_keeps_network_error() {
    let err = reqwest::Client::new().get("not a url").build().unwrap_err();
    match finish_step(Err(err), &"not a url".to_string()) {
        Err(HttpError::Request(e)) => assert!(e.is_builder()),
        other => panic!("unexpected {:?}", other),
    }
}

#[test]
fn record_outcome_counts_and_measures() {
    let mut c = Counters::new();
    let m = record_outcome(&mut c, 12, &Ok(200));
    assert_eq!((m.duration_ms, m.status, m.success), (12, 200, true));
    let bad: Result<u16, HttpError> =
        Err(HttpError::BadStatus { status: 500, url: "u".to_string() });
    let m = record_outcome(&mut c, 30, &bad);
    assert_eq!((m.duration_ms, m.status, m.success), (30, 500, false));
    let not_found: Result<u16, HttpError> =
        Err(HttpError::BadStatus { status: 404, url: "u".to_string() });
    let m = record_outcome(&mut c, 5, &not_found);
    assert_eq!((m.duration_ms, m.status, m.success), (5, 404, false));
    let err = reqwest::Client::new().get("not a url").build().unwrap_err();
    let m = record_outcome(&mut c, 7, &Err(HttpError::Request(err)));
    assert_eq!((m.duration_ms, m.status, m.success), (7, 0, false));
    assert_eq!((c.total, c.success, c.failed), (4, 1, 3));
}

#[test]
fn users_get_scenarios_round_robin() {
    let got: Vec<usize> = (0..5).map(|u| scenario_index(u, 2)).collect();
    assert_eq!(got, vec![0, 1, 0, 1, 0]);
    assert_eq!(scenario_index(7, 1), 0);
    assert_eq!(scenario_index(2, 3), 2);
}

#[test]
fn config_needs_a_scenario() {
    let empty = Config { scenarios: vec![] };
    assert_eq!(check_config(&empty), Err(ConfigError::NoScenarios));
    let one = Config {
        scenarios: vec![Scenario {
            name: "demo",
            steps: vec![Step { method: "GET", url: "https://httpbin.org/get", body: None, headers: vec![] }],
        }],
    };
    assert_eq!(check_config(&one), Ok(()));
}

#[test]
fn steps_are_copied_into_owned_strings() {
    let scenario = Scenario {
        name: "login-then-dashboard",
        steps: vec![
            Step {
                method: "POST",
                url: "https://example.com/api/login",
                body: Some("{}"),
                headers: vec!["Content-Type: application/json", "Accept: application/json"],
            },
            Step { method: "GET", url: "https://example.com/api/dashboard", body: None, headers: vec![] },
        ],
    };
    let owned_steps = own_steps(&scenario);
    assert_eq!(owned_steps.len(), 2);
    assert_eq!(owned_steps[0].method, "POST");
    assert_eq!(owned_steps[0].url, "https://example.com/api/login");
    assert_eq!(owned_steps[0].body.as_deref(), Some("{}"));
    assert_eq!(owned_steps[0].headers, vec!["Content-Type: application/json", "Accept: application/json"]);
    assert_eq!(owned_steps[1].body, None);
    let single = own_step(&scenario.steps[1]);
    assert_eq!(single.url, "https://example.com/api/dashboard");
    assert!(single.headers.is_empty());
}

#[test]
fn worker_finishes_its_pass_on_shutdown() {
    assert_eq!(next_action(false, 1, 3), WorkerAction::RunStep(1));
    assert_eq!(next_action(true, 1, 3), WorkerAction::RunStep(1));
    assert_eq!(next_action(true, 2, 3), WorkerAction::RunStep(2));
    assert_eq!(next_action(true, 0, 3), WorkerAction::Stop);
    assert_eq!(next_action(false, 0, 3), WorkerAction::RunStep(0));
    assert_eq!(next_action(false, 0, 0), WorkerAction::WaitForShutdown);
    assert_eq!(next_action(true, 0, 0), WorkerAction::Stop);
    assert_eq!(step_after(0, 3), 1);
    assert_eq!(step_after(2, 3), 0);
    assert_eq!(step_after(0, 1), 0);
}
