//! The decisions of endpoint validation.
//!
//! Sending requests, sleeping between attempts and reading response bodies
//! happen outside the library; this module decides what to send, how long to
//! wait before the next attempt, and what each exchange amounts to.

use vstd::prelude::*;
use crate::external::{duration_from_secs, duration_of_secs};
use crate::text::{
    contains_text, decimal, decimal_string, has_infix, owned, push_text, same_text, to_uppercase,
    unicode_uppercase,
};
use crate::types::{
    violation_views, EndpointResult, EndpointResultView, Severity, ValidationContext,
    ValidationStatus, Violation, ViolationView,
};
use serde_json::Value;
use std::collections::HashMap;
use std::time::Duration;

verus! {

/// Where a parameter is carried in a request.
#[derive(Debug, Clone, Copy, PartialEq, Eq, Structural)]
pub enum ParamLocation {
    Path,
    Query,
    Header,
    Cookie,
}

/// A parameter of an endpoint.
#[derive(Debug, Clone)]
pub struct EndpointParam {
    pub name: String,
    pub location: ParamLocation,
    pub required: bool,
    pub schema: Option<Value>,
}

/// An endpoint parsed from a schema: the input of the engine.
#[derive(Debug, Clone)]
pub struct ParsedEndpoint {
    pub method: String,
    pub path: String,
    pub parameters: Vec<EndpointParam>,
    pub expected_status: u16,
    pub response_schema: Option<Value>,
}

/// The HTTP methods the engine sends requests with.
#[derive(Debug, Clone, Copy, PartialEq, Eq, Structural)]
pub enum HttpMethod {
    Get,
    Post,
    Put,
    Delete,
    Patch,
    Head,
    Options,
}

/// The method an upper-cased method name denotes, if the engine sends it.
pub open spec fn method_named(upper: Seq<char>) -> Option<HttpMethod> {
    if upper == "GET"@ {
        Some(HttpMethod::Get)
    } else if upper == "POST"@ {
        Some(HttpMethod::Post)
    } else if upper == "PUT"@ {
        Some(HttpMethod::Put)
    } else if upper == "DELETE"@ {
        Some(HttpMethod::Delete)
    } else if upper == "PATCH"@ {
        Some(HttpMethod::Patch)
    } else if upper == "HEAD"@ {
        Some(HttpMethod::Head)
    } else if upper == "OPTIONS"@ {
        Some(HttpMethod::Options)
    } else {
        None
    }
}

fn method_from_name(upper: &str) -> (m: Option<HttpMethod>)
    ensures
        m == method_named(upper@),
{
    if same_text(upper, "GET") {
        Some(HttpMethod::Get)
    } else if same_text(upper, "POST") {
        Some(HttpMethod::Post)
    } else if same_text(upper, "PUT") {
        Some(HttpMethod::Put)
    } else if same_text(upper, "DELETE") {
        Some(HttpMethod::Delete)
    } else if same_text(upper, "PATCH") {
        Some(HttpMethod::Patch)
    } else if same_text(upper, "HEAD") {
        Some(HttpMethod::Head)
    } else if same_text(upper, "OPTIONS") {
        Some(HttpMethod::Options)
    } else {
        None
    }
}

/// What to do for an endpoint before any request is sent.
pub enum ProbePlan {
    /// The method is not one the engine sends: the endpoint is skipped.
    Skip(EndpointResult),
    /// Send `method` requests to `url`, each with every header of `headers`.
    Send { method: HttpMethod, url: String, headers: HashMap<String, String> },
}

/// The URL requested for `path` under the base URL `target`.
pub open spec fn request_url(target: Seq<char>, path: Seq<char>) -> Seq<char> {
    target + path
}

/// The result recorded for an endpoint whose method the engine does not send.
pub open spec fn skipped_result(endpoint: ParsedEndpoint, url: Seq<char>, elapsed: Duration) -> EndpointResultView {
    EndpointResultView {
        method: unicode_uppercase(endpoint.method@),
        path: endpoint.path@,
        status: ValidationStatus::Skip,
        response_status: None,
        latency: elapsed,
        violations: Seq::empty(),
        request_url: url,
    }
}

/// Decide how to probe `endpoint`: the request URL is the context's base
/// URL followed by the endpoint's path, and the method is the endpoint's
/// method upper-cased, and every header of the context goes with it; a method other than GET, POST, PUT, DELETE, PATCH, HEAD and
/// OPTIONS makes the endpoint skipped, with `elapsed` as its latency.
pub fn plan_probe(ctx: &ValidationContext, endpoint: &ParsedEndpoint, elapsed: Duration) -> (plan: ProbePlan)
    ensures
        ({
            let url = request_url(ctx.target_url@, endpoint.path@);
            match method_named(unicode_uppercase(endpoint.method@)) {
                Some(m) => plan matches ProbePlan::Send { method, url: u, headers } && method == m
                    && u@ == url && headers@ == ctx.headers@,
                None => plan matches ProbePlan::Skip(r) && r@ == skipped_result(*endpoint, url, elapsed),
            }
        }),
{
    let mut url = ctx.target_url.clone();
    push_text(&mut url, endpoint.path.as_str());
    let upper = to_uppercase(endpoint.method.as_str());
    match method_from_name(upper.as_str()) {
        Some(method) => ProbePlan::Send { method, url, headers: ctx.headers.clone() },
        None => {
            let r = EndpointResult {
                method: upper,
                path: endpoint.path.clone(),
                status: ValidationStatus::Skip,
                response_status: None,
                latency: elapsed,
                violations: Vec::new(),
                request_url: url,
            };
            assert(violation_views(r.violations@) =~= Seq::empty());
            ProbePlan::Skip(r)
        },
    }
}

/// Two to the power `n`.
pub open spec fn pow2(n: nat) -> nat
    decreases n,
{
    if n == 0 {
        1
    } else {
        2 * pow2((n - 1) as nat)
    }
}

/// Milliseconds to wait before attempt `attempt` (counted from zero): none
/// before the first, then 100 ms doubling with each further attempt.
pub open spec fn retry_delay_ms(attempt: nat) -> nat {
    if attempt == 0 {
        0
    } else {
        100 * pow2((attempt - 1) as nat)
    }
}

/// The delay before attempt `attempt`, as the engine computes it in `u64`.
pub fn retry_delay(attempt: u32) -> (ms: u64)
    requires
        retry_delay_ms(attempt as nat) <= u64::MAX,
    ensures
        ms == retry_delay_ms(attempt as nat),
{
    if attempt == 0 {
        return 0;
    }
    let mut p: u64 = 1;
    let mut k: u32 = 0;
    while k < attempt - 1
        invariant
            1 <= attempt,
            k <= attempt - 1,
            p == pow2(k as nat),
            100 * pow2((attempt - 1) as nat) <= u64::MAX,
        decreases attempt - 1 - k,
    {
        proof {
            lemma_pow2_monotone((k + 1) as nat, (attempt - 1) as nat);
        }
        p = p * 2;
        k = k + 1;
    }
    100 * p
}

/// `pow2` grows with its exponent.
pub proof fn lemma_pow2_monotone(a: nat, b: nat)
    requires
        a <= b,
    ensures
        pow2(a) <= pow2(b),
    decreases b,
{
    if a < b {
        lemma_pow2_monotone(a, (b - 1) as nat);
    }
}

/// One error reported by JSON Schema validation of a response body.
#[derive(Debug, Clone)]
pub struct SchemaIssue {
    pub message: String,
    pub instance_path: String,
}

/// What a schema issue says.
pub struct SchemaIssueView {
    pub message: Seq<char>,
    pub instance_path: Seq<char>,
}

impl View for SchemaIssue {
    type V = SchemaIssueView;

    open spec fn view(&self) -> SchemaIssueView {
        SchemaIssueView { message: self.message@, instance_path: self.instance_path@ }
    }
}

/// The views of a list of schema issues.
pub open spec fn issue_views(issues: Seq<SchemaIssue>) -> Seq<SchemaIssueView> {
    issues.map_values(|i: SchemaIssue| i@)
}

/// What `jsonschema` reports for `body` under `schema`: `None` where the
/// schema does not compile, else each error of `Validator::validate`, in
/// order, as its text and instance path.
pub uninterp spec fn json_schema_report(schema: Value, body: Value) -> Option<Seq<SchemaIssueView>>;

/// The compact JSON text that `serde_json` writes for `v` (its `Display`).
pub uninterp spec fn json_text(v: Value) -> Seq<char>;

/// Writes a JSON value as compact text with its `Display` impl (which cannot
/// fail for a `Value`); the result is named by `json_text`.
#[verifier::external_body]
fn json_to_text(v: &Value) -> (t: String)
    ensures
        t@ == json_text(*v),
{
    v.to_string()
}

/// Whether the schema can be checked without reaching the one path on
/// which `jsonschema` 0.25 panics: an `unevaluatedProperties` keyword whose
/// evaluation meets a `patternProperties` pattern that `fancy_regex` cannot
/// decide (`keywords/unevaluated_properties.rs` unwraps that outcome). Both
/// keywords are object keys, and `serde_json` writes keys as quoted text
/// with no escape for these letters, so a schema whose text lacks either
/// quoted key has no such path; neither key is a keyword of the bundled
/// meta-schemas, which name them only as properties.
pub open spec fn schema_checkable(schema: Value) -> bool {
    !(has_infix(json_text(schema), "\"unevaluatedProperties\""@) && has_infix(
        json_text(schema),
        "\"patternProperties\""@,
    ))
}

fn is_schema_checkable(schema: &Value) -> (b: bool)
    ensures
        b == schema_checkable(*schema),
{
    let text = json_to_text(schema);
    !(contains_text(text.as_str(), "\"unevaluatedProperties\"") && contains_text(
        text.as_str(),
        "\"patternProperties\"",
    ))
}

/// Compiles `schema` with `jsonschema::validator_for` and validates `body`
/// with `Validator::validate`; each error it reports comes back as its
/// `Display` text and its instance path, in the order reported. `None` where
/// the schema does not compile. The result is named by `json_schema_report`.
/// Schemas that mix `unevaluatedProperties` with `patternProperties` are
/// left out, where the validator may panic.
#[verifier::external_body]
fn schema_issues(schema: &Value, body: &Value) -> (r: Option<Vec<SchemaIssue>>)
    requires
        schema_checkable(*schema),
    ensures
        opt_issue_views(r) == json_schema_report(*schema, *body),
{
    let validator = match jsonschema::validator_for(schema) {
        Ok(v) => v,
        Err(_) => return None,
    };
    let issues = match validator.validate(body) {
        Ok(()) => Vec::new(),
        Err(errors) => errors.map(
            |e| SchemaIssue { message: e.to_string(), instance_path: e.instance_path.to_string() },
        ).collect(),
    };
    Some(issues)
}

/// The views of an optional list of schema issues.
pub open spec fn opt_issue_views(issues: Option<Vec<SchemaIssue>>) -> Option<Seq<SchemaIssueView>> {
    match issues {
        Some(is) => Some(issue_views(is@)),
        None => None,
    }
}

/// The violation for a response whose status is not the expected one.
pub open spec fn status_violation(endpoint: ParsedEndpoint, status_code: u16) -> ViolationView {
    let expected = decimal(endpoint.expected_status as nat);
    let actual = decimal(status_code as nat);
    ViolationView {
        rule: "status_code_mismatch"@,
        message: "Expected status "@ + expected + ", got "@ + actual,
        severity: Severity::Error,
        path: endpoint.path@,
        expected: Some(expected),
        actual: Some(actual),
        suggestion: Some(
            "Ensure "@ + endpoint.method@ + " "@ + endpoint.path@ + " returns status "@ + expected,
        ),
        docs_url: None,
    }
}

/// The violation for one schema error in a response body.
pub open spec fn issue_violation(endpoint: ParsedEndpoint, issue: SchemaIssueView) -> ViolationView {
    ViolationView {
        rule: "response_schema_violation"@,
        message: issue.message,
        severity: Severity::Error,
        path: endpoint.method@ + " "@ + endpoint.path@ + " -> response.body."@ + issue.instance_path,
        expected: None,
        actual: None,
        suggestion: Some("Response body does not match the declared schema."@),
        docs_url: None,
    }
}

/// One violation per schema issue, in order.
pub open spec fn issue_violations(endpoint: ParsedEndpoint, issues: Seq<SchemaIssueView>) -> Seq<ViolationView> {
    issues.map_values(|i: SchemaIssueView| issue_violation(endpoint, i))
}

/// The violations of a response: a status mismatch first, if any, then one
/// per schema error.
pub open spec fn response_violations(
    endpoint: ParsedEndpoint,
    status_code: u16,
    issues: Option<Seq<SchemaIssueView>>,
) -> Seq<ViolationView> {
    let status_part = if status_code != endpoint.expected_status {
        seq![status_violation(endpoint, status_code)]
    } else {
        Seq::empty()
    };
    let schema_part = match issues {
        Some(is) => issue_violations(endpoint, is),
        None => Seq::empty(),
    };
    status_part + schema_part
}

/// The result for an endpoint that answered with `status_code`.
pub open spec fn response_result(
    endpoint: ParsedEndpoint,
    url: Seq<char>,
    status_code: u16,
    latency: Duration,
    issues: Option<Seq<SchemaIssueView>>,
) -> EndpointResultView {
    let vs = response_violations(endpoint, status_code, issues);
    EndpointResultView {
        method: endpoint.method@,
        path: endpoint.path@,
        status: if vs.len() == 0 { ValidationStatus::Pass } else { ValidationStatus::Fail },
        response_status: Some(status_code),
        latency,
        violations: vs,
        request_url: url,
    }
}

fn status_mismatch(endpoint: &ParsedEndpoint, status_code: u16) -> (v: Violation)
    ensures
        v@ == status_violation(*endpoint, status_code),
{
    let expected = decimal_string(endpoint.expected_status as u64);
    let actual = decimal_string(status_code as u64);
    let mut message = owned("Expected status ");
    push_text(&mut message, expected.as_str());
    push_text(&mut message, ", got ");
    push_text(&mut message, actual.as_str());
    let mut suggestion = owned("Ensure ");
    push_text(&mut suggestion, endpoint.method.as_str());
    push_text(&mut suggestion, " ");
    push_text(&mut suggestion, endpoint.path.as_str());
    push_text(&mut suggestion, " returns status ");
    push_text(&mut suggestion, expected.as_str());
    Violation {
        rule: owned("status_code_mismatch"),
        message,
        severity: Severity::Error,
        path: endpoint.path.clone(),
        expected: Some(expected),
        actual: Some(actual),
        suggestion: Some(suggestion),
        docs_url: None,
    }
}

fn schema_violation(endpoint: &ParsedEndpoint, issue: &SchemaIssue) -> (v: Violation)
    ensures
        v@ == issue_violation(*endpoint, issue@),
{
    let mut path = endpoint.method.clone();
    push_text(&mut path, " ");
    push_text(&mut path, endpoint.path.as_str());
    push_text(&mut path, " -> response.body.");
    push_text(&mut path, issue.instance_path.as_str());
    Violation {
        rule: owned("response_schema_violation"),
        message: issue.message.clone(),
        severity: Severity::Error,
        path,
        expected: None,
        actual: None,
        suggestion: Some(owned("Response body does not match the declared schema.")),
        docs_url: None,
    }
}

/// The result for an endpoint that answered with `status_code`, given the
/// errors that schema validation of its body reported (`None` where the body
/// was not checked).
pub fn response_result_for(
    endpoint: &ParsedEndpoint,
    url: String,
    status_code: u16,
    latency: Duration,
    issues: Option<Vec<SchemaIssue>>,
) -> (r: EndpointResult)
    ensures
        r@ == response_result(*endpoint, url@, status_code, latency, opt_issue_views(issues)),
        r.response_status == Some(status_code),
{
    let ghost issue_seq = opt_issue_views(issues);
    let ghost expected = response_violations(*endpoint, status_code, issue_seq);
    let mut violations: Vec<Violation> = Vec::new();
    if status_code != endpoint.expected_status {
        violations.push(status_mismatch(endpoint, status_code));
    }
    let ghost base = violation_views(violations@);
    assert(base =~= if status_code != endpoint.expected_status {
        seq![status_violation(*endpoint, status_code)]
    } else {
        Seq::<ViolationView>::empty()
    });
    match issues {
        Some(is) => {
            let n = is.len();
            let mut i: usize = 0;
            while i < n
                invariant
                    n == is@.len(),
                    0 <= i <= n,
                    violation_views(violations@) =~= base + issue_violations(
                        *endpoint,
                        issue_views(is@).take(i as int),
                    ),
                decreases n - i,
            {
                let v = schema_violation(endpoint, &is[i]);
                let ghost before = violation_views(violations@);
                violations.push(v);
                assert(violation_views(violations@) =~= before.push(v@));
                assert(issue_views(is@).take(i + 1) =~= issue_views(is@).take(i as int).push(is@[i as int]@));
                assert(issue_violations(*endpoint, issue_views(is@).take(i + 1)) =~= issue_violations(
                    *endpoint,
                    issue_views(is@).take(i as int),
                ).push(issue_violation(*endpoint, is@[i as int]@)));
                i = i + 1;
            }
            assert(issue_views(is@).take(n as int) =~= issue_views(is@));
        },
        None => {
            assert(violation_views(violations@) =~= base + Seq::<ViolationView>::empty());
        },
    }
    assert(violation_views(violations@) =~= expected);
    let status = if violations.len() == 0 {
        ValidationStatus::Pass
    } else {
        ValidationStatus::Fail
    };
    EndpointResult {
        method: endpoint.method.clone(),
        path: endpoint.path.clone(),
        status,
        response_status: Some(status_code),
        latency,
        violations,
        request_url: url,
    }
}

/// The result for an endpoint none of whose attempts got a response.
pub open spec fn failure_result(
    endpoint: ParsedEndpoint,
    url: Seq<char>,
    retry_count: u32,
    error: Seq<char>,
    latency: Duration,
) -> EndpointResultView {
    EndpointResultView {
        method: endpoint.method@,
        path: endpoint.path@,
        status: ValidationStatus::Error,
        response_status: None,
        latency,
        violations: seq![
            ViolationView {
                rule: "request_failed"@,
                message: "Request failed after "@ + decimal(retry_count as nat + 1) + " attempts: "@
                    + error,
                severity: Severity::Critical,
                path: endpoint.path@,
                expected: None,
                actual: None,
                suggestion: Some("Verify the server is running at "@ + url),
                docs_url: None,
            },
        ],
        request_url: url,
    }
}

/// The result for an endpoint whose `retry_count + 1` attempts all failed,
/// the last with `error`.
pub fn failure_result_for(
    endpoint: &ParsedEndpoint,
    url: String,
    retry_count: u32,
    error: &str,
    latency: Duration,
) -> (r: EndpointResult)
    ensures
        r@ == failure_result(*endpoint, url@, retry_count, error@, latency),
{
    let mut message = owned("Request failed after ");
    let attempts = decimal_string(retry_count as u64 + 1);
    push_text(&mut message, attempts.as_str());
    push_text(&mut message, " attempts: ");
    push_text(&mut message, error);
    let mut suggestion = owned("Verify the server is running at ");
    push_text(&mut suggestion, url.as_str());
    let v = Violation {
        rule: owned("request_failed"),
        message,
        severity: Severity::Critical,
        path: endpoint.path.clone(),
        expected: None,
        actual: None,
        suggestion: Some(suggestion),
        docs_url: None,
    };
    let mut violations = Vec::new();
    violations.push(v);
    assert(violation_views(violations@) =~= seq![v@]);
    EndpointResult {
        method: endpoint.method.clone(),
        path: endpoint.path.clone(),
        status: ValidationStatus::Error,
        response_status: None,
        latency,
        violations,
        request_url: url,
    }
}

/// The schema errors checked for a response: those `jsonschema` reports for
/// the body under the endpoint's response schema, where both are present and
/// the schema is one the library can check (`schema_checkable`); a schema
/// that mixes `unevaluatedProperties` with `patternProperties` is not
/// checked.
pub open spec fn response_issues(schema: Option<Value>, body: Option<Value>) -> Option<Seq<SchemaIssueView>> {
    match (schema, body) {
        (Some(s), Some(b)) => if schema_checkable(s) {
            json_schema_report(s, b)
        } else {
            None
        },
        _ => None,
    }
}

/// What came of one attempt to call an endpoint.
pub enum ProbeEvent {
    /// The server answered with `status_code`. `body` is the response body
    /// read as JSON; it is read only where the endpoint declares a response
    /// schema, and is `None` where it is not JSON.
    Responded { status_code: u16, body: Option<Value>, latency: Duration },
    /// The request failed with `error`.
    Failed { error: String, latency: Duration },
}

/// What to do after an attempt.
pub enum ProbeStep {
    /// Wait `delay_ms` milliseconds, then make attempt `attempt`.
    Retry { attempt: u32, delay_ms: u64 },
    /// The endpoint's result is known.
    Finish(EndpointResult),
}

/// Decide what follows attempt `attempt` (counted from zero) of probing
/// `endpoint` at `url`. A response ends the probe with the result of that
/// response; a failure leads to the next attempt after the backoff delay,
/// unless `ctx.retry_count` retries are spent, in which case the probe ends
/// with a request failure.
pub fn probe_step(
    ctx: &ValidationContext,
    endpoint: &ParsedEndpoint,
    url: &String,
    attempt: u32,
    event: ProbeEvent,
) -> (step: ProbeStep)
    requires
        attempt <= ctx.retry_count,
        event is Failed && attempt < ctx.retry_count ==> retry_delay_ms((attempt + 1) as nat) <= u64::MAX,
    ensures
        match event {
            ProbeEvent::Responded { status_code, body, latency } => step matches ProbeStep::Finish(r)
                && r@ == response_result(
                *endpoint,
                url@,
                status_code,
                latency,
                response_issues(endpoint.response_schema, body),
            ) && r.response_status == Some(status_code),
            ProbeEvent::Failed { error, latency } => if attempt < ctx.retry_count {
                step == ProbeStep::Retry {
                    attempt: (attempt + 1) as u32,
                    delay_ms: retry_delay_ms((attempt + 1) as nat) as u64,
                }
            } else {
                step matches ProbeStep::Finish(r) && r@ == failure_result(
                    *endpoint,
                    url@,
                    ctx.retry_count,
                    error@,
                    latency,
                )
            },
        },
{
    match event {
        ProbeEvent::Responded { status_code, body, latency } => {
            let issues = match (&endpoint.response_schema, &body) {
                (Some(schema), Some(b)) => if is_schema_checkable(schema) {
                    schema_issues(schema, b)
                } else {
                    None
                },
                _ => None,
            };
            let r = response_result_for(endpoint, url.clone(), status_code, latency, issues);
            ProbeStep::Finish(r)
        },
        ProbeEvent::Failed { error, latency } => {
            if attempt < ctx.retry_count {
                let next = attempt + 1;
                ProbeStep::Retry { attempt: next, delay_ms: retry_delay(next) }
            } else {
                ProbeStep::Finish(
                    failure_result_for(endpoint, url.clone(), ctx.retry_count, error.as_str(), latency),
                )
            }
        },
    }
}

/// Each backoff delay after the first is twice the one before it.
pub proof fn lemma_retry_delay_doubles(attempt: nat)
    requires
        attempt >= 1,
    ensures
        retry_delay_ms(attempt + 1) == 2 * retry_delay_ms(attempt),
        retry_delay_ms(1) == 100,
{
    assert(pow2(attempt) == 2 * pow2((attempt - 1) as nat));
    assert(pow2(0) == 1);
}

/// Total milliseconds waited before attempts 1 to `k`.
pub open spec fn total_backoff_ms(k: nat) -> nat
    decreases k,
{
    if k == 0 {
        0
    } else {
        total_backoff_ms((k - 1) as nat) + retry_delay_ms(k)
    }
}

/// When every attempt fails, the engine makes `retry_count + 1` attempts and
/// waits 100 · (2^retry_count − 1) milliseconds in all between them.
pub proof fn lemma_total_backoff(retry_count: nat)
    ensures
        total_backoff_ms(retry_count) + 100 == 100 * pow2(retry_count),
    decreases retry_count,
{
    if retry_count > 0 {
        lemma_total_backoff((retry_count - 1) as nat);
    }
}

/// An endpoint that answered passes exactly when it answered with the
/// expected status and schema validation reported no error; otherwise it
/// fails, and it never ends skipped or in error.
pub proof fn lemma_response_pass_iff(
    endpoint: ParsedEndpoint,
    url: Seq<char>,
    status_code: u16,
    latency: Duration,
    issues: Option<Seq<SchemaIssueView>>,
)
    ensures
        ({
            let r = response_result(endpoint, url, status_code, latency, issues);
            &&& (r.status == ValidationStatus::Pass) <==> (status_code == endpoint.expected_status
                && (issues matches Some(is) ==> is.len() == 0))
            &&& r.status == ValidationStatus::Pass || r.status == ValidationStatus::Fail
            &&& r.violations.len() == (if status_code == endpoint.expected_status { 0int } else { 1int })
                + match issues {
                Some(is) => is.len() as int,
                None => 0int,
            }
        }),
{
}

/// A result records what the server answered: after a response it holds the
/// status code the server sent, whatever status the endpoint expected, and
/// after attempts that got no response it holds none. Either way it names
/// the endpoint's method and path, the URL called and the latency measured.
pub proof fn lemma_result_records_response(
    endpoint: ParsedEndpoint,
    url: Seq<char>,
    status_code: u16,
    latency: Duration,
    issues: Option<Seq<SchemaIssueView>>,
    retry_count: u32,
    error: Seq<char>,
)
    ensures
        ({
            let r = response_result(endpoint, url, status_code, latency, issues);
            &&& r.response_status == Some(status_code)
            &&& r.method == endpoint.method@ && r.path == endpoint.path@
            &&& r.request_url == url && r.latency == latency
        }),
        ({
            let r = failure_result(endpoint, url, retry_count, error, latency);
            &&& r.response_status is None
            &&& r.status == ValidationStatus::Error
            &&& r.method == endpoint.method@ && r.path == endpoint.path@
            &&& r.request_url == url && r.latency == latency
        }),
{
}

/// The result recorded for a validation task that panicked with `detail`.
pub open spec fn panicked_result(detail: Seq<char>, latency: Duration) -> EndpointResultView {
    EndpointResultView {
        method: "UNKNOWN"@,
        path: "UNKNOWN"@,
        status: ValidationStatus::Error,
        response_status: None,
        latency,
        violations: seq![
            ViolationView {
                rule: "internal_error"@,
                message: "Task panicked: "@ + detail,
                severity: Severity::Critical,
                path: Seq::empty(),
                expected: None,
                actual: None,
                suggestion: Some("Please report this bug."@),
                docs_url: None,
            },
        ],
        request_url: Seq::empty(),
    }
}

/// The result recorded for a validation task that panicked with `detail`;
/// its latency is zero seconds.
pub fn panicked_task_result(detail: &str) -> (r: EndpointResult)
    ensures
        r@ == panicked_result(detail@, duration_of_secs(0)),
{
    let mut message = owned("Task panicked: ");
    push_text(&mut message, detail);
    let v = Violation {
        rule: owned("internal_error"),
        message,
        severity: Severity::Critical,
        path: String::new(),
        expected: None,
        actual: None,
        suggestion: Some(owned("Please report this bug.")),
        docs_url: None,
    };
    let mut violations = Vec::new();
    violations.push(v);
    assert(violation_views(violations@) =~= seq![v@]);
    EndpointResult {
        method: owned("UNKNOWN"),
        path: owned("UNKNOWN"),
        status: ValidationStatus::Error,
        response_status: None,
        latency: duration_from_secs(0),
        violations,
        request_url: String::new(),
    }
}

} // verus!
