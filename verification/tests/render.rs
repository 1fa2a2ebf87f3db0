use std::time::Duration;
use valiforge::report::{xml_escape, JsonFormatter, JunitFormatter, MarkdownFormatter};
use valiforge::types::{
    EndpointResult, Severity, UtcTimestamp, ValidationReport, ValidationStatus, Violation,
};

fn violation(rule: &str, message: &str) -> Violation {
    Violation {
        rule: rule.to_string(),
        message: message.to_string(),
        severity: Severity::Error,
        path: String::new(),
        expected: None,
        actual: None,
        suggestion: None,
        docs_url: None,
    }
}

fn result(method: &str, path: &str, status: ValidationStatus, violations: Vec<Violation>) -> EndpointResult {
    EndpointResult {
        method: method.to_string(),
        path: path.to_string(),
        status,
        response_status: Some(200),
        latency: Duration::from_millis(4),
        violations,
        request_url: String::new(),
    }
}

fn report(results: Vec<EndpointResult>) -> ValidationReport {
    ValidationReport::from_results(
        "Pets & <Co>",
        "http://127.0.0.1:8091/",
        UtcTimestamp { unix_seconds: 0, subsec_nanos: 0 },
        Duration::from_millis(6),
        results,
    )
}

#[test]
fn escapes_markup_characters() {
    assert_eq!(xml_escape("a<b>&\"c'"), "a&lt;b&gt;&amp;&quot;c'");
    assert_eq!(xml_escape(""), "");
    assert_eq!(xml_escape("plain text"), "plain text");
    assert_eq!(xml_escape("&amp;"), "&amp;amp;");
    assert_eq!(xml_escape("é<ß"), "é&lt;ß");
}

#[test]
fn escape_of_concatenation_is_concatenation_of_escapes() {
    let a = "x<&";
    let b = "\"y>";
    assert_eq!(xml_escape(&format!("{a}{b}")), format!("{}{}", xml_escape(a), xml_escape(b)));
}

#[test]
fn escaped_text_decodes_back() {
    let s = "a<b & \"c\" > &amp;";
    let e = xml_escape(s);
    let decoded = e
        .replace("&quot;", "\"")
        .replace("&gt;", ">")
        .replace("&lt;", "<")
        .replace("&amp;", "&");
    assert_eq!(decoded, s);
    for (i, c) in e.char_indices() {
        if c == '&' {
            let rest = &e[i..];
            assert!(["&amp;", "&lt;", "&gt;", "&quot;"].iter().any(|x| rest.starts_with(x)));
        }
    }
}

#[test]
fn format_ids() {
    assert_eq!(JsonFormatter.format_id(), "json");
    assert_eq!(JunitFormatter.format_id(), "junit");
    assert_eq!(MarkdownFormatter.format_id(), "markdown");
}

#[test]
fn junit_document() {
    let r = report(vec![
        result("GET", "/users", ValidationStatus::Pass, vec![]),
        result(
            "DELETE",
            "/users/{id}",
            ValidationStatus::Fail,
            vec![violation("status_code_mismatch", "Expected status 204, got 501"), violation("r2", "a<b")],
        ),
    ]);
    let times = vec!["0.004".to_string(), "0.002".to_string()];
    let xml = JunitFormatter.format(&r, "0.006", &times);
    let expected = [
        "<?xml version=\"1.0\" encoding=\"UTF-8\"?>\n",
        "<testsuites tests=\"2\" failures=\"1\" errors=\"0\" time=\"0.006\">\n",
        "  <testsuite name=\"Pets &amp; &lt;Co&gt;\" tests=\"2\">\n",
        "    <testcase name=\"GET /users\" time=\"0.004\" />\n",
        "    <testcase name=\"DELETE /users/{id}\" time=\"0.002\">\n",
        "      <failure message=\"Expected status 204, got 501\" type=\"status_code_mismatch\"/>\n",
        "      <failure message=\"a&lt;b\" type=\"r2\"/>\n",
        "    </testcase>\n",
        "  </testsuite>\n</testsuites>\n",
    ]
    .concat();
    assert_eq!(xml, expected);
}

#[test]
fn junit_document_without_results() {
    let r = report(vec![]);
    let xml = JunitFormatter.format(&r, "0.000", &vec![]);
    assert_eq!(
        xml,
        "<?xml version=\"1.0\" encoding=\"UTF-8\"?>\n<testsuites tests=\"0\" failures=\"0\" errors=\"0\" time=\"0.000\">\n  <testsuite name=\"Pets &amp; &lt;Co&gt;\" tests=\"0\">\n  </testsuite>\n</testsuites>\n"
    );
}

#[test]
fn markdown_all_passed() {
    let r = report(vec![result("GET", "/users", ValidationStatus::Pass, vec![])]);
    let md = MarkdownFormatter.format(&r, "0.0");
    assert_eq!(
        md,
        "## ValiForge Validation Report\n\n**Schema:** Pets & <Co> | **Target:** http://127.0.0.1:8091/ | **Duration:** 0.0s\n\n| Status | Total | Passed | Failed | Errors |\n|---|---|---|---|---|\n| PASS | 1 | 1 | 0 | 0 |\n\nAll endpoints passed validation.\n"
    );
}

#[test]
fn markdown_with_violations() {
    let r = report(vec![
        result("GET", "/users", ValidationStatus::Pass, vec![]),
        result("DELETE", "/users/{id}", ValidationStatus::Fail, vec![violation("status_code_mismatch", "Expected status 204, got 501")]),
        result("POST", "/users", ValidationStatus::Error, vec![violation("request_failed", "boom"), violation("x", "y")]),
    ]);
    let md = MarkdownFormatter.format(&r, "1.5");
    assert_eq!(
        md,
        "## ValiForge Validation Report\n\n**Schema:** Pets & <Co> | **Target:** http://127.0.0.1:8091/ | **Duration:** 1.5s\n\n| Status | Total | Passed | Failed | Errors |\n|---|---|---|---|---|\n| FAIL | 3 | 1 | 1 | 1 |\n\n### Violations\n\n**DELETE /users/{id}**\n- `status_code_mismatch`: Expected status 204, got 501\n\n**POST /users**\n- `request_failed`: boom\n- `x`: y\n\n"
    );
}
