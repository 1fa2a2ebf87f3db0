use std::time::Duration;
use valiforge::engine::{
    panicked_task_result, plan_probe, probe_step, retry_delay, HttpMethod, ParsedEndpoint,
    ProbeEvent, ProbePlan, ProbeStep,
};
use valiforge::types::{Severity, ValidationContext, ValidationStatus};

fn j(text: &str) -> serde_json::Value {
    serde_json::from_str(text).unwrap()
}

fn endpoint(method: &str, path: &str, expected: u16, schema: Option<serde_json::Value>) -> ParsedEndpoint {
    ParsedEndpoint {
        method: method.to_string(),
        path: path.to_string(),
        parameters: vec![],
        expected_status: expected,
        response_schema: schema,
    }
}

#[test]
fn plan_sends_known_methods_upper_cased() {
    let ctx = ValidationContext::default();
    match plan_probe(&ctx, &endpoint("get", "/users", 200, None), Duration::ZERO) {
        ProbePlan::Send { method, url, headers } => {
            assert_eq!(method, HttpMethod::Get);
            assert_eq!(url, "http://localhost:3000//users");
            assert!(headers.is_empty());
        }
        ProbePlan::Skip(_) => panic!("GET must be sent"),
    }
    for (name, m) in [
        ("POST", HttpMethod::Post),
        ("Put", HttpMethod::Put),
        ("delete", HttpMethod::Delete),
        ("PATCH", HttpMethod::Patch),
        ("head", HttpMethod::Head),
        ("options", HttpMethod::Options),
    ] {
        match plan_probe(&ctx, &endpoint(name, "/a", 200, None), Duration::ZERO) {
            ProbePlan::Send { method, .. } => assert_eq!(method, m),
            ProbePlan::Skip(_) => panic!("{name} must be sent"),
        }
    }
}

#[test]
fn path_parameters_are_requested_literally() {
    let mut ctx = ValidationContext::default();
    ctx.target_url = "http://127.0.0.1:8091/".to_string();
    match plan_probe(&ctx, &endpoint("DELETE", "/users/{id}", 204, None), Duration::ZERO) {
        ProbePlan::Send { method, url, .. } => {
            assert_eq!(method, HttpMethod::Delete);
            assert_eq!(url, "http://127.0.0.1:8091//users/{id}");
        }
        ProbePlan::Skip(_) => panic!("DELETE must be sent"),
    }
}

#[test]
fn plan_carries_the_context_headers() {
    let mut ctx = ValidationContext::default();
    ctx.headers.insert("Authorization".to_string(), "Bearer t".to_string());
    ctx.headers.insert("X-Trace".to_string(), "1".to_string());
    match plan_probe(&ctx, &endpoint("GET", "/a", 200, None), Duration::ZERO) {
        ProbePlan::Send { headers, .. } => assert_eq!(headers, ctx.headers),
        ProbePlan::Skip(_) => panic!("GET must be sent"),
    }
}

#[test]
fn plan_skips_other_methods() {
    let mut ctx = ValidationContext::default();
    ctx.target_url = "http://h:1".to_string();
    match plan_probe(&ctx, &endpoint("trace", "/users", 200, None), Duration::from_millis(2)) {
        ProbePlan::Skip(r) => {
            assert_eq!(r.method, "TRACE");
            assert_eq!(r.path, "/users");
            assert_eq!(r.status, ValidationStatus::Skip);
            assert_eq!(r.response_status, None);
            assert_eq!(r.latency, Duration::from_millis(2));
            assert!(r.violations.is_empty());
            assert_eq!(r.request_url, "http://h:1/users");
        }
        ProbePlan::Send { .. } => panic!("TRACE is not sent"),
    }
}

#[test]
fn matching_status_without_schema_passes() {
    let ctx = ValidationContext::default();
    let ep = endpoint("GET", "/users", 200, None);
    let url = "http://h/users".to_string();
    let ev = ProbeEvent::Responded { status_code: 200, body: None, latency: Duration::from_millis(4) };
    match probe_step(&ctx, &ep, &url, 0, ev) {
        ProbeStep::Finish(r) => {
            assert_eq!(r.status, ValidationStatus::Pass);
            assert_eq!(r.response_status, Some(200));
            assert!(r.violations.is_empty());
            assert_eq!(r.method, "GET");
            assert_eq!(r.request_url, "http://h/users");
            assert_eq!(r.latency, Duration::from_millis(4));
        }
        ProbeStep::Retry { .. } => panic!("a response ends the probe"),
    }
}

#[test]
fn status_mismatch_fails() {
    let ctx = ValidationContext::default();
    let ep = endpoint("DELETE", "/users/{id}", 204, None);
    let url = "http://h/users/{id}".to_string();
    let ev = ProbeEvent::Responded { status_code: 501, body: None, latency: Duration::ZERO };
    match probe_step(&ctx, &ep, &url, 1, ev) {
        ProbeStep::Finish(r) => {
            assert_eq!(r.status, ValidationStatus::Fail);
            assert_eq!(r.violations.len(), 1);
            let v = &r.violations[0];
            assert_eq!(v.rule, "status_code_mismatch");
            assert_eq!(v.message, "Expected status 204, got 501");
            assert_eq!(v.severity, Severity::Error);
            assert_eq!(v.path, "/users/{id}");
            assert_eq!(v.expected.as_deref(), Some("204"));
            assert_eq!(v.actual.as_deref(), Some("501"));
            assert_eq!(v.suggestion.as_deref(), Some("Ensure DELETE /users/{id} returns status 204"));
            assert_eq!(v.docs_url, None);
        }
        ProbeStep::Retry { .. } => panic!("a response ends the probe"),
    }
}

#[test]
fn schema_errors_become_violations() {
    let ctx = ValidationContext::default();
    let schema = j(r#"{"type": "object", "required": ["id"], "properties": {"id": {"type": "integer"}}}"#);
    let ep = endpoint("GET", "/users", 200, Some(schema));
    let url = "http://h/users".to_string();
    let ev = ProbeEvent::Responded {
        status_code: 200,
        body: Some(j(r#"{"name": "x"}"#)),
        latency: Duration::ZERO,
    };
    match probe_step(&ctx, &ep, &url, 0, ev) {
        ProbeStep::Finish(r) => {
            assert_eq!(r.status, ValidationStatus::Fail);
            assert_eq!(r.violations.len(), 1);
            let v = &r.violations[0];
            assert_eq!(v.rule, "response_schema_violation");
            assert!(v.message.contains("id"));
            assert_eq!(v.path, "GET /users -> response.body.");
            assert_eq!(v.suggestion.as_deref(), Some("Response body does not match the declared schema."));
        }
        ProbeStep::Retry { .. } => panic!("a response ends the probe"),
    }
    let ev = ProbeEvent::Responded {
        status_code: 200,
        body: Some(j(r#"{"id": "seven"}"#)),
        latency: Duration::ZERO,
    };
    match probe_step(&ctx, &ep, &url, 0, ev) {
        ProbeStep::Finish(r) => {
            assert_eq!(r.violations.len(), 1);
            assert_eq!(r.violations[0].path, "GET /users -> response.body./id");
        }
        ProbeStep::Retry { .. } => panic!("a response ends the probe"),
    }
    let ev = ProbeEvent::Responded { status_code: 200, body: Some(j(r#"{"id": 7}"#)), latency: Duration::ZERO };
    match probe_step(&ctx, &ep, &url, 0, ev) {
        ProbeStep::Finish(r) => assert_eq!(r.status, ValidationStatus::Pass),
        ProbeStep::Retry { .. } => panic!("a response ends the probe"),
    }
}

#[test]
fn schemas_mixing_unevaluated_and_pattern_properties_are_not_checked() {
    let ctx = ValidationContext::default();
    let schema = j(r#"{"type": "object", "patternProperties": {"^(a)\\1$": {"type": "integer"}}, "unevaluatedProperties": false}"#);
    let ep = endpoint("GET", "/u", 200, Some(schema));
    let ev = ProbeEvent::Responded { status_code: 200, body: Some(j(r#"{"zz": 1}"#)), latency: Duration::ZERO };
    match probe_step(&ctx, &ep, &"u".to_string(), 0, ev) {
        ProbeStep::Finish(r) => {
            assert_eq!(r.status, ValidationStatus::Pass);
            assert!(r.violations.is_empty());
        }
        ProbeStep::Retry { .. } => panic!("a response ends the probe"),
    }
    let checked = endpoint("GET", "/u", 200, Some(j(r#"{"type": "object", "unevaluatedProperties": false}"#)));
    let ev = ProbeEvent::Responded { status_code: 200, body: Some(j(r#"{"zz": 1}"#)), latency: Duration::ZERO };
    match probe_step(&ctx, &checked, &"u".to_string(), 0, ev) {
        ProbeStep::Finish(r) => assert_eq!(r.status, ValidationStatus::Fail),
        ProbeStep::Retry { .. } => panic!("a response ends the probe"),
    }
}

#[test]
fn unreadable_body_is_not_checked() {
    let ctx = ValidationContext::default();
    let ep = endpoint("GET", "/u", 200, Some(j(r#"{"type": "object"}"#)));
    let ev = ProbeEvent::Responded { status_code: 200, body: None, latency: Duration::ZERO };
    match probe_step(&ctx, &ep, &"u".to_string(), 0, ev) {
        ProbeStep::Finish(r) => assert_eq!(r.status, ValidationStatus::Pass),
        ProbeStep::Retry { .. } => panic!("a response ends the probe"),
    }
}

#[test]
fn failures_are_retried_with_backoff_then_reported() {
    let mut ctx = ValidationContext::default();
    ctx.retry_count = 3;
    let ep = endpoint("GET", "/users", 200, None);
    let url = "http://h:9/users".to_string();
    let mut delays = vec![];
    let mut attempt = 0;
    let result = loop {
        let ev = ProbeEvent::Failed { error: "connection refused".to_string(), latency: Duration::from_millis(9) };
        match probe_step(&ctx, &ep, &url, attempt, ev) {
            ProbeStep::Retry { attempt: next, delay_ms } => {
                assert_eq!(next, attempt + 1);
                delays.push(delay_ms);
                attempt = next;
            }
            ProbeStep::Finish(r) => break r,
        }
    };
    assert_eq!(attempt, 3);
    assert_eq!(delays, vec![100, 200, 400]);
    assert_eq!(delays.iter().sum::<u64>(), 100 * ((1u64 << 3) - 1));
    assert_eq!(result.status, ValidationStatus::Error);
    assert_eq!(result.response_status, None);
    assert_eq!(result.latency, Duration::from_millis(9));
    assert_eq!(result.violations.len(), 1);
    let v = &result.violations[0];
    assert_eq!(v.rule, "request_failed");
    assert_eq!(v.message, "Request failed after 4 attempts: connection refused");
    assert_eq!(v.severity, Severity::Critical);
    assert_eq!(v.path, "/users");
    assert_eq!(v.suggestion.as_deref(), Some("Verify the server is running at http://h:9/users"));
}

#[test]
fn no_retry_reports_after_one_attempt() {
    let mut ctx = ValidationContext::default();
    ctx.retry_count = 0;
    let ep = endpoint("GET", "/", 200, None);
    let ev = ProbeEvent::Failed { error: "e".to_string(), latency: Duration::ZERO };
    match probe_step(&ctx, &ep, &"x".to_string(), 0, ev) {
        ProbeStep::Finish(r) => assert_eq!(r.violations[0].message, "Request failed after 1 attempts: e"),
        ProbeStep::Retry { .. } => panic!("no retry is left"),
    }
}

#[test]
fn retry_delays_double() {
    assert_eq!(retry_delay(0), 0);
    assert_eq!(retry_delay(1), 100);
    assert_eq!(retry_delay(2), 200);
    assert_eq!(retry_delay(3), 400);
    assert_eq!(retry_delay(11), 102_400);
}

#[test]
fn panicked_task_becomes_internal_error() {
    let r = panicked_task_result("oops");
    assert_eq!(r.method, "UNKNOWN");
    assert_eq!(r.path, "UNKNOWN");
    assert_eq!(r.status, ValidationStatus::Error);
    assert_eq!(r.response_status, None);
    assert_eq!(r.latency, Duration::ZERO);
    assert_eq!(r.request_url, "");
    assert_eq!(r.violations.len(), 1);
    let v = &r.violations[0];
    assert_eq!(v.rule, "internal_error");
    assert_eq!(v.message, "Task panicked: oops");
    assert_eq!(v.severity, Severity::Critical);
    assert_eq!(v.path, "");
    assert_eq!(v.suggestion.as_deref(), Some("Please report this bug."));
}
