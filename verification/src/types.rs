//! Shared data model: endpoint results, violations and report summaries.

use vstd::prelude::*;
use crate::external::{duration_from_secs, duration_of_secs};
use crate::text::owned;
use std::collections::HashMap;

verus! {

/// Outcome of validating a single endpoint.
#[derive(Debug, Clone, Copy, PartialEq, Eq, Structural)]
pub enum ValidationStatus {
    Pass,
    Fail,
    Skip,
    Error,
}

/// How serious a violation is, from least to most severe.
#[derive(Debug, Clone, Copy, PartialEq, Eq, Structural, PartialOrd, Ord)]
pub enum Severity {
    Info,
    Warning,
    Error,
    Critical,
}

/// A single validation violation.
#[derive(Debug, Clone)]
pub struct Violation {
    pub rule: String,
    pub message: String,
    pub severity: Severity,
    pub path: String,
    pub expected: Option<String>,
    pub actual: Option<String>,
    pub suggestion: Option<String>,
    pub docs_url: Option<String>,
}

/// Result of validating a single endpoint.
#[derive(Debug, Clone)]
pub struct EndpointResult {
    pub method: String,
    pub path: String,
    pub status: ValidationStatus,
    pub response_status: Option<u16>,
    pub latency: std::time::Duration,
    pub violations: Vec<Violation>,
    pub request_url: String,
}

/// The text of an optional string.
pub open spec fn opt_text(o: Option<String>) -> Option<Seq<char>> {
    match o {
        Some(s) => Some(s@),
        None => None,
    }
}

/// What a violation says, over the character sequences of its texts.
pub struct ViolationView {
    pub rule: Seq<char>,
    pub message: Seq<char>,
    pub severity: Severity,
    pub path: Seq<char>,
    pub expected: Option<Seq<char>>,
    pub actual: Option<Seq<char>>,
    pub suggestion: Option<Seq<char>>,
    pub docs_url: Option<Seq<char>>,
}

impl View for Violation {
    type V = ViolationView;

    open spec fn view(&self) -> ViolationView {
        ViolationView {
            rule: self.rule@,
            message: self.message@,
            severity: self.severity,
            path: self.path@,
            expected: opt_text(self.expected),
            actual: opt_text(self.actual),
            suggestion: opt_text(self.suggestion),
            docs_url: opt_text(self.docs_url),
        }
    }
}

/// The views of a list of violations.
pub open spec fn violation_views(vs: Seq<Violation>) -> Seq<ViolationView> {
    vs.map_values(|v: Violation| v@)
}

/// What an endpoint result says, over the character sequences of its texts.
pub struct EndpointResultView {
    pub method: Seq<char>,
    pub path: Seq<char>,
    pub status: ValidationStatus,
    pub response_status: Option<u16>,
    pub latency: std::time::Duration,
    pub violations: Seq<ViolationView>,
    pub request_url: Seq<char>,
}

impl View for EndpointResult {
    type V = EndpointResultView;

    open spec fn view(&self) -> EndpointResultView {
        EndpointResultView {
            method: self.method@,
            path: self.path@,
            status: self.status,
            response_status: self.response_status,
            latency: self.latency,
            violations: violation_views(self.violations@),
            request_url: self.request_url@,
        }
    }
}

/// Counts of endpoint outcomes in a report.
#[derive(Debug, Clone, Copy, PartialEq, Eq, Structural)]
pub struct ReportSummary {
    pub total: usize,
    pub passed: usize,
    pub failed: usize,
    pub skipped: usize,
    pub errors: usize,
    pub violation_count: usize,
}

/// A point in time, in UTC, as seconds and nanoseconds since the Unix epoch.
#[derive(Debug, Clone, Copy, PartialEq, Eq, Structural)]
pub struct UtcTimestamp {
    pub unix_seconds: i64,
    pub subsec_nanos: u32,
}

/// Full validation report across all endpoints.
#[derive(Debug, Clone)]
pub struct ValidationReport {
    pub schema_name: String,
    pub schema_version: Option<String>,
    pub target_url: String,
    pub timestamp: UtcTimestamp,
    pub duration: std::time::Duration,
    pub results: Vec<EndpointResult>,
    pub summary: ReportSummary,
}

/// Number of results in `results` whose status is `status`.
pub open spec fn count_status(results: Seq<EndpointResult>, status: ValidationStatus) -> nat
    decreases results.len(),
{
    if results.len() == 0 {
        0
    } else {
        count_status(results.drop_last(), status) + if results.last().status == status {
            1nat
        } else {
            0nat
        }
    }
}

/// Total number of violations carried by `results`.
pub open spec fn count_violations(results: Seq<EndpointResult>) -> nat
    decreases results.len(),
{
    if results.len() == 0 {
        0
    } else {
        count_violations(results.drop_last()) + results.last().violations@.len()
    }
}

/// The summary that a list of endpoint results has.
pub open spec fn summary_of(results: Seq<EndpointResult>) -> ReportSummary {
    ReportSummary {
        total: results.len() as usize,
        passed: count_status(results, ValidationStatus::Pass) as usize,
        failed: count_status(results, ValidationStatus::Fail) as usize,
        skipped: count_status(results, ValidationStatus::Skip) as usize,
        errors: count_status(results, ValidationStatus::Error) as usize,
        violation_count: count_violations(results) as usize,
    }
}

/// Each result is counted under exactly one status.
pub proof fn lemma_status_counts_partition(results: Seq<EndpointResult>)
    ensures
        count_status(results, ValidationStatus::Pass) + count_status(results, ValidationStatus::Fail)
            + count_status(results, ValidationStatus::Skip) + count_status(
            results,
            ValidationStatus::Error,
        ) == results.len(),
    decreases results.len(),
{
    if results.len() > 0 {
        lemma_status_counts_partition(results.drop_last());
    }
}

impl ValidationReport {
    /// Tally the outcome of every endpoint result.
    pub fn compute_summary(results: &[EndpointResult]) -> (summary: ReportSummary)
        requires
            count_violations(results@) <= usize::MAX,
        ensures
            summary == summary_of(results@),
    {
        let mut summary = ReportSummary {
            total: results.len(),
            passed: 0,
            failed: 0,
            skipped: 0,
            errors: 0,
            violation_count: 0,
        };
        let n = results.len();
        let mut i: usize = 0;
        while i < n
            invariant
                n == results@.len(),
                0 <= i <= n,
                count_violations(results@) <= usize::MAX,
                summary.total == n,
                summary.passed == count_status(results@.take(i as int), ValidationStatus::Pass),
                summary.failed == count_status(results@.take(i as int), ValidationStatus::Fail),
                summary.skipped == count_status(results@.take(i as int), ValidationStatus::Skip),
                summary.errors == count_status(results@.take(i as int), ValidationStatus::Error),
                summary.violation_count == count_violations(results@.take(i as int)),
            decreases n - i,
        {
            let r = &results[i];
            let ghost prefix = results@.take(i as int);
            let ghost next = results@.take(i + 1);
            assert(next.drop_last() =~= prefix);
            assert(next.last() == results@[i as int]);
            proof {
                lemma_status_counts_partition(next);
                lemma_violations_monotone(results@, i + 1);
            }
            match r.status {
                ValidationStatus::Pass => summary.passed = summary.passed + 1,
                ValidationStatus::Fail => summary.failed = summary.failed + 1,
                ValidationStatus::Skip => summary.skipped = summary.skipped + 1,
                ValidationStatus::Error => summary.errors = summary.errors + 1,
            }
            summary.violation_count = summary.violation_count + r.violations.len();
            i = i + 1;
        }
        assert(results@.take(n as int) =~= results@);
        summary
    }

    /// The report of a run over `results`: its summary is computed from them.
    pub fn from_results(
        schema_name: &str,
        target_url: &str,
        timestamp: UtcTimestamp,
        duration: std::time::Duration,
        results: Vec<EndpointResult>,
    ) -> (r: ValidationReport)
        requires
            count_violations(results@) <= usize::MAX,
        ensures
            r.schema_name@ == schema_name@,
            r.schema_version is None,
            r.target_url@ == target_url@,
            r.timestamp == timestamp,
            r.duration == duration,
            r.results@ == results@,
            r.summary == summary_of(results@),
    {
        let summary = ValidationReport::compute_summary(results.as_slice());
        ValidationReport {
            schema_name: owned(schema_name),
            schema_version: None,
            target_url: owned(target_url),
            timestamp,
            duration,
            results,
            summary,
        }
    }

    /// A report succeeds when no endpoint failed and none errored.
    pub fn is_success(&self) -> (ok: bool)
        ensures
            ok == (self.summary.failed == 0 && self.summary.errors == 0),
    {
        self.summary.failed == 0 && self.summary.errors == 0
    }
}

/// Every endpoint is counted under exactly one outcome: the passed, failed,
/// skipped and errored counts of a summary add up to its total.
pub proof fn lemma_summary_partitions(results: Seq<EndpointResult>)
    requires
        results.len() <= usize::MAX,
    ensures
        ({
            let s = summary_of(results);
            s.passed + s.failed + s.skipped + s.errors == s.total
        }),
{
    lemma_status_counts_partition(results);
}

/// A run succeeds exactly when none of its endpoint results failed or
/// errored: the summary's failed and errored counts are zero just when no
/// result has status `Fail` or `Error`.
pub proof fn lemma_success_iff_no_failure(results: Seq<EndpointResult>)
    requires
        results.len() <= usize::MAX,
    ensures
        (summary_of(results).failed == 0 && summary_of(results).errors == 0) <==> (forall|i: int|
            0 <= i < results.len() ==> (#[trigger] results[i]).status != ValidationStatus::Fail
                && results[i].status != ValidationStatus::Error),
{
    lemma_status_counts_partition(results);
    lemma_status_count_bounded(results, ValidationStatus::Fail);
    lemma_status_count_bounded(results, ValidationStatus::Error);
    lemma_status_count_zero(results, ValidationStatus::Fail);
    lemma_status_count_zero(results, ValidationStatus::Error);
}

/// No status is counted more often than there are results.
pub proof fn lemma_status_count_bounded(results: Seq<EndpointResult>, status: ValidationStatus)
    ensures
        count_status(results, status) <= results.len(),
    decreases results.len(),
{
    if results.len() > 0 {
        lemma_status_count_bounded(results.drop_last(), status);
    }
}

/// A status is counted zero times exactly when no result has it.
pub proof fn lemma_status_count_zero(results: Seq<EndpointResult>, status: ValidationStatus)
    ensures
        count_status(results, status) == 0 <==> (forall|i: int|
            0 <= i < results.len() ==> (#[trigger] results[i]).status != status),
    decreases results.len(),
{
    if results.len() > 0 {
        let init = results.drop_last();
        lemma_status_count_zero(init, status);
        if count_status(results, status) == 0 {
            assert forall|i: int| 0 <= i < results.len() implies (#[trigger] results[i]).status
                != status by {
                if i < results.len() - 1 {
                    assert(results[i] == init[i]);
                }
            }
        } else {
            if count_status(init, status) != 0 {
                let j = choose|j: int| 0 <= j < init.len() && (#[trigger] init[j]).status == status;
                assert(results[j] == init[j]);
            } else {
                assert(results[results.len() - 1].status == status);
            }
        }
    }
}

/// Counting a status over a concatenation adds the counts of its parts.
pub proof fn lemma_count_status_concat(a: Seq<EndpointResult>, b: Seq<EndpointResult>, status: ValidationStatus)
    ensures
        count_status(a + b, status) == count_status(a, status) + count_status(b, status),
    decreases b.len(),
{
    if b.len() == 0 {
        assert(a + b =~= a);
    } else {
        lemma_count_status_concat(a, b.drop_last(), status);
        assert((a + b).drop_last() =~= a + b.drop_last());
        assert((a + b).last() == b.last());
    }
}

/// Counting violations over a concatenation adds the counts of its parts.
pub proof fn lemma_count_violations_concat(a: Seq<EndpointResult>, b: Seq<EndpointResult>)
    ensures
        count_violations(a + b) == count_violations(a) + count_violations(b),
    decreases b.len(),
{
    if b.len() == 0 {
        assert(a + b =~= a);
    } else {
        lemma_count_violations_concat(a, b.drop_last());
        assert((a + b).drop_last() =~= a + b.drop_last());
        assert((a + b).last() == b.last());
    }
}

/// The summary of no results has every count zero.
pub proof fn lemma_summary_empty()
    ensures
        summary_of(Seq::<EndpointResult>::empty()) == (ReportSummary {
            total: 0,
            passed: 0,
            failed: 0,
            skipped: 0,
            errors: 0,
            violation_count: 0,
        }),
{
}

/// The summary of two lists of results run one after the other is the
/// field-wise sum of their summaries.
pub proof fn lemma_summary_concat(a: Seq<EndpointResult>, b: Seq<EndpointResult>)
    requires
        (a + b).len() <= usize::MAX,
        count_violations(a + b) <= usize::MAX,
    ensures
        summary_of(a + b).total == summary_of(a).total + summary_of(b).total,
        summary_of(a + b).passed == summary_of(a).passed + summary_of(b).passed,
        summary_of(a + b).failed == summary_of(a).failed + summary_of(b).failed,
        summary_of(a + b).skipped == summary_of(a).skipped + summary_of(b).skipped,
        summary_of(a + b).errors == summary_of(a).errors + summary_of(b).errors,
        summary_of(a + b).violation_count == summary_of(a).violation_count + summary_of(
            b,
        ).violation_count,
{
    lemma_count_violations_concat(a, b);
    lemma_count_status_concat(a, b, ValidationStatus::Pass);
    lemma_count_status_concat(a, b, ValidationStatus::Fail);
    lemma_count_status_concat(a, b, ValidationStatus::Skip);
    lemma_count_status_concat(a, b, ValidationStatus::Error);
    lemma_status_count_bounded(a + b, ValidationStatus::Pass);
    lemma_status_count_bounded(a + b, ValidationStatus::Fail);
    lemma_status_count_bounded(a + b, ValidationStatus::Skip);
    lemma_status_count_bounded(a + b, ValidationStatus::Error);
}

/// What one result adds to the count of `status`.
pub open spec fn counted(r: EndpointResult, status: ValidationStatus) -> nat {
    if r.status == status {
        1
    } else {
        0
    }
}

/// Removing one result takes away exactly what it counted.
proof fn lemma_counts_remove(s: Seq<EndpointResult>, i: int, status: ValidationStatus)
    requires
        0 <= i < s.len(),
    ensures
        count_status(s, status) == count_status(s.remove(i), status) + counted(s[i], status),
        count_violations(s) == count_violations(s.remove(i)) + s[i].violations@.len(),
{
    let front = s.take(i);
    let back = s.skip(i + 1);
    let one = seq![s[i]];
    assert(s =~= front + one + back);
    assert(s.remove(i) =~= front + back);
    lemma_count_status_concat(front + one, back, status);
    lemma_count_status_concat(front, one, status);
    lemma_count_status_concat(front, back, status);
    lemma_count_violations_concat(front + one, back);
    lemma_count_violations_concat(front, one);
    lemma_count_violations_concat(front, back);
    assert(one.drop_last() =~= Seq::<EndpointResult>::empty());
    assert(one.last() == s[i]);
    assert(count_status(Seq::<EndpointResult>::empty(), status) == 0);
    assert(count_violations(Seq::<EndpointResult>::empty()) == 0);
    assert(count_status(one, status) == counted(s[i], status));
    assert(count_violations(one) == s[i].violations@.len());
}

/// The counts do not depend on the order of the results.
pub proof fn lemma_counts_permutation(a: Seq<EndpointResult>, b: Seq<EndpointResult>, status: ValidationStatus)
    requires
        a.to_multiset() == b.to_multiset(),
    ensures
        count_status(a, status) == count_status(b, status),
        count_violations(a) == count_violations(b),
    decreases a.len(),
{
    broadcast use vstd::seq_lib::group_to_multiset_ensures;
    broadcast use vstd::multiset::group_multiset_axioms;

    if a.len() == 0 {
        assert(b.to_multiset().len() == 0);
        assert(b =~= Seq::<EndpointResult>::empty());
        assert(a =~= b);
    } else {
        let x = a.last();
        let rest = a.drop_last();
        assert(rest.push(x) =~= a);
        assert(a.to_multiset() =~= rest.to_multiset().insert(x));
        assert(b.to_multiset().count(x) > 0);
        assert(b.contains(x));
        let i = choose|i: int| 0 <= i < b.len() && b[i] == x;
        assert(b.remove(i).to_multiset() == b.to_multiset().remove(x));
        assert(rest.to_multiset() =~= b.to_multiset().remove(x));
        lemma_counts_permutation(rest, b.remove(i), status);
        lemma_counts_remove(b, i, status);
    }
}

/// Reordering the results leaves the summary as it is.
pub proof fn lemma_summary_permutation(a: Seq<EndpointResult>, b: Seq<EndpointResult>)
    requires
        a.to_multiset() == b.to_multiset(),
    ensures
        summary_of(a) == summary_of(b),
{
    broadcast use vstd::seq_lib::group_to_multiset_ensures;

    vstd::seq_lib::to_multiset_len(a);
    vstd::seq_lib::to_multiset_len(b);
    lemma_counts_permutation(a, b, ValidationStatus::Pass);
    lemma_counts_permutation(a, b, ValidationStatus::Fail);
    lemma_counts_permutation(a, b, ValidationStatus::Skip);
    lemma_counts_permutation(a, b, ValidationStatus::Error);
    assert(summary_of(a).total == summary_of(b).total);
    assert(summary_of(a).violation_count == summary_of(b).violation_count);
}

/// The violations of a prefix never outnumber those of the whole list.
pub proof fn lemma_violations_monotone(results: Seq<EndpointResult>, k: int)
    requires
        0 <= k <= results.len(),
    ensures
        count_violations(results.take(k)) <= count_violations(results),
    decreases results.len() - k,
{
    if k < results.len() {
        lemma_violations_monotone(results, k + 1);
        assert(results.take(k + 1).drop_last() =~= results.take(k));
    } else {
        assert(results.take(k) =~= results);
    }
}

/// What makes a run fail in a CI gate.
#[derive(Debug, Clone, Copy, PartialEq, Eq, Structural)]
pub enum FailCondition {
    SchemaViolations,
    BreakingChanges,
    SecurityIssues,
    PerformanceRegression,
}

/// Context passed to the validation engine.
///
/// `target_url` holds the base URL in the serialized form that the `url`
/// crate gives it; request URLs are that text followed by the endpoint path.
#[derive(Debug, Clone)]
pub struct ValidationContext {
    pub target_url: String,
    pub headers: HashMap<String, String>,
    pub timeout: std::time::Duration,
    pub max_concurrency: usize,
    pub retry_count: u32,
    pub fail_on: Vec<FailCondition>,
}

/// The serialization that `url::Url::parse` followed by `to_string` gives
/// `input`, or `None` where the `url` crate rejects it.
pub uninterp spec fn url_serialization(input: Seq<char>) -> Option<Seq<char>>;

/// Calls `url::Url::parse` and, on success, `Url::to_string`; the result is
/// named by `url_serialization`.
#[verifier::external_body]
fn serialize_url(input: &str) -> (r: Option<String>)
    ensures
        opt_text(r) == url_serialization(input@),
{
    match url::Url::parse(input) {
        Ok(u) => Some(u.to_string()),
        Err(_) => None,
    }
}

/// The base URL a default context targets.
pub const DEFAULT_TARGET: &'static str = "http://localhost:3000";

impl Default for ValidationContext {
    /// Targets `http://localhost:3000` with no headers, a ten-second timeout,
    /// at most eight concurrent requests, one retry, and failing on schema
    /// violations.
    fn default() -> (ctx: Self)
        ensures
            url_serialization(DEFAULT_TARGET@) matches Some(s) ==> ctx.target_url@ == s,
            ctx.headers@ == Map::<String, String>::empty(),
            ctx.timeout == duration_of_secs(10),
            ctx.max_concurrency == 8,
            ctx.retry_count == 1,
            ctx.fail_on@ == seq![FailCondition::SchemaViolations],
    {
        let target_url = match serialize_url(DEFAULT_TARGET) {
            Some(s) => s,
            None => owned(DEFAULT_TARGET),
        };
        let mut fail_on = Vec::new();
        fail_on.push(FailCondition::SchemaViolations);
        ValidationContext {
            target_url,
            headers: HashMap::new(),
            timeout: duration_from_secs(10),
            max_concurrency: 8,
            retry_count: 1,
            fail_on,
        }
    }
}

impl ValidationContext {
    /// A context with the default settings that targets `base_url`, which is
    /// parsed and serialized by the `url` crate; `None` where the `url` crate
    /// rejects it.
    pub fn with_target(base_url: &str) -> (ctx: Option<ValidationContext>)
        ensures
            ctx is Some <==> url_serialization(base_url@) is Some,
            ctx matches Some(c) ==> {
                &&& url_serialization(base_url@) == Some(c.target_url@)
                &&& c.headers@ == Map::<String, String>::empty()
                &&& c.timeout == duration_of_secs(10)
                &&& c.max_concurrency == 8
                &&& c.retry_count == 1
                &&& c.fail_on@ == seq![FailCondition::SchemaViolations]
            },
    {
        match serialize_url(base_url) {
            Some(target_url) => {
                let mut ctx = ValidationContext::default();
                ctx.target_url = target_url;
                Some(ctx)
            },
            None => None,
        }
    }
}

/// Kinds of breaking change between two schema versions.
#[derive(Debug, Clone, Copy, PartialEq, Eq, Structural)]
pub enum ChangeType {
    EndpointRemoved,
    MethodRemoved,
    RequiredFieldAdded,
    FieldRemoved,
    TypeChanged,
    EnumValueRemoved,
    ResponseStatusRemoved,
    ParameterRequired,
    PathChanged,
}

/// Breaking change detected between two schema versions.
#[derive(Debug, Clone)]
pub struct BreakingChange {
    pub change_type: ChangeType,
    pub severity: Severity,
    pub path: String,
    pub message: String,
    pub old_value: Option<String>,
    pub new_value: Option<String>,
}

} // verus!
