use std::time::Duration;
use valiforge::types::{
    EndpointResult, ReportSummary, Severity, UtcTimestamp, ValidationReport, ValidationStatus,
    Violation,
};

fn violation(rule: &str) -> Violation {
    Violation {
        rule: rule.to_string(),
        message: format!("{rule} happened"),
        severity: Severity::Error,
        path: "/x".to_string(),
        expected: None,
        actual: None,
        suggestion: None,
        docs_url: None,
    }
}

fn result(status: ValidationStatus, violations: usize) -> EndpointResult {
    EndpointResult {
        method: "GET".to_string(),
        path: "/x".to_string(),
        status,
        response_status: Some(200),
        latency: Duration::from_millis(3),
        violations: (0..violations).map(|i| violation(&format!("r{i}"))).collect(),
        request_url: "http://h/x".to_string(),
    }
}

#[test]
fn summary_counts_each_status() {
    let results = vec![
        result(ValidationStatus::Pass, 0),
        result(ValidationStatus::Fail, 2),
        result(ValidationStatus::Fail, 1),
        result(ValidationStatus::Skip, 0),
        result(ValidationStatus::Error, 1),
        result(ValidationStatus::Pass, 0),
    ];
    let s = ValidationReport::compute_summary(&results);
    assert_eq!(
        s,
        ReportSummary { total: 6, passed: 2, failed: 2, skipped: 1, errors: 1, violation_count: 4 }
    );
    assert_eq!(s.passed + s.failed + s.skipped + s.errors, s.total);
}

#[test]
fn summary_of_no_results_is_zero() {
    let s = ValidationReport::compute_summary(&[]);
    assert_eq!(
        s,
        ReportSummary { total: 0, passed: 0, failed: 0, skipped: 0, errors: 0, violation_count: 0 }
    );
}

fn report(results: Vec<EndpointResult>) -> ValidationReport {
    ValidationReport::from_results(
        "petstore",
        "http://localhost:3000/",
        UtcTimestamp { unix_seconds: 1_700_000_000, subsec_nanos: 5 },
        Duration::from_millis(1500),
        results,
    )
}

#[test]
fn report_from_results_carries_its_inputs() {
    let r = report(vec![result(ValidationStatus::Pass, 0), result(ValidationStatus::Skip, 0)]);
    assert_eq!(r.schema_name, "petstore");
    assert_eq!(r.schema_version, None);
    assert_eq!(r.target_url, "http://localhost:3000/");
    assert_eq!(r.timestamp, UtcTimestamp { unix_seconds: 1_700_000_000, subsec_nanos: 5 });
    assert_eq!(r.duration, Duration::from_millis(1500));
    assert_eq!(r.results.len(), 2);
    assert_eq!(r.summary.total, 2);
    assert_eq!(r.summary.passed, 1);
    assert_eq!(r.summary.skipped, 1);
}

#[test]
fn success_needs_no_failure_and_no_error() {
    assert!(report(vec![result(ValidationStatus::Pass, 0), result(ValidationStatus::Skip, 0)]).is_success());
    assert!(report(vec![]).is_success());
    assert!(!report(vec![result(ValidationStatus::Fail, 1)]).is_success());
    assert!(!report(vec![result(ValidationStatus::Error, 1)]).is_success());
}

#[test]
fn severities_are_ordered() {
    assert!(Severity::Info < Severity::Warning);
    assert!(Severity::Warning < Severity::Error);
    assert!(Severity::Error < Severity::Critical);
}

#[test]
fn summary_is_additive_and_order_free() {
    let a = vec![result(ValidationStatus::Pass, 0), result(ValidationStatus::Fail, 2)];
    let b = vec![result(ValidationStatus::Error, 1), result(ValidationStatus::Skip, 0), result(ValidationStatus::Pass, 3)];
    let sa = ValidationReport::compute_summary(&a);
    let sb = ValidationReport::compute_summary(&b);
    let both: Vec<EndpointResult> = a.iter().chain(b.iter()).cloned().collect();
    let s = ValidationReport::compute_summary(&both);
    assert_eq!(s.total, sa.total + sb.total);
    assert_eq!(s.passed, sa.passed + sb.passed);
    assert_eq!(s.failed, sa.failed + sb.failed);
    assert_eq!(s.skipped, sa.skipped + sb.skipped);
    assert_eq!(s.errors, sa.errors + sb.errors);
    assert_eq!(s.violation_count, sa.violation_count + sb.violation_count);
    let mut reversed = both.clone();
    reversed.reverse();
    assert_eq!(ValidationReport::compute_summary(&reversed), s);
}
