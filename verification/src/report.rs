//! Report renderers: JUnit XML and Markdown, and the XML escaping they use.
//!
//! Durations are shown in seconds with a fixed number of decimals; that
//! rendering is floating-point formatting, which the library leaves to its
//! caller: each renderer takes the already formatted time texts.

use vstd::prelude::*;
use vstd::std_specs::iter::IteratorSpec;
use vstd::string::*;
use crate::text::{decimal, decimal_string, has_prefix, owned, push_text};
use crate::types::{
    count_status, lemma_status_count_bounded, lemma_success_iff_no_failure, lemma_summary_partitions,
    summary_of, EndpointResult, EndpointResultView, ValidationReport,
    ValidationStatus, ViolationView,
};

verus! {

broadcast use vstd::string::group_string_axioms;

/// The escaped form of one character: `&`, `<`, `>` and `"` become entities.
pub open spec fn escape_char(c: char) -> Seq<char> {
    if c == '&' {
        "&amp;"@
    } else if c == '<' {
        "&lt;"@
    } else if c == '>' {
        "&gt;"@
    } else if c == '"' {
        "&quot;"@
    } else {
        seq![c]
    }
}

/// `s` with every character escaped.
pub open spec fn xml_escaped(s: Seq<char>) -> Seq<char>
    decreases s.len(),
{
    if s.len() == 0 {
        Seq::empty()
    } else {
        xml_escaped(s.drop_last()) + escape_char(s.last())
    }
}

/// Escaping works character by character: escaping a concatenation is
/// concatenating the escapes.
pub proof fn lemma_escape_concat(a: Seq<char>, b: Seq<char>)
    ensures
        xml_escaped(a + b) == xml_escaped(a) + xml_escaped(b),
    decreases b.len(),
{
    if b.len() == 0 {
        assert(a + b =~= a);
        assert(xml_escaped(a) + xml_escaped(b) =~= xml_escaped(a));
    } else {
        lemma_escape_concat(a, b.drop_last());
        assert((a + b).drop_last() =~= a + b.drop_last());
        assert(xml_escaped(a) + xml_escaped(b.drop_last()) + escape_char(b.last()) =~= xml_escaped(a)
            + (xml_escaped(b.drop_last()) + escape_char(b.last())));
    }
}

/// Escaped text holds no `<`, `>` or `"`, so it cannot close a tag or an
/// attribute value.
pub proof fn lemma_escaped_has_no_markup(s: Seq<char>)
    ensures
        forall|i: int|
            0 <= i < xml_escaped(s).len() ==> {
                let c = #[trigger] xml_escaped(s)[i];
                c != '<' && c != '>' && c != '"'
            },
    decreases s.len(),
{
    reveal_strlit("&amp;");
    reveal_strlit("&lt;");
    reveal_strlit("&gt;");
    reveal_strlit("&quot;");
    if s.len() > 0 {
        lemma_escaped_has_no_markup(s.drop_last());
        let e = xml_escaped(s.drop_last());
        let t = escape_char(s.last());
        assert forall|i: int| 0 <= i < xml_escaped(s).len() implies {
            let c = #[trigger] xml_escaped(s)[i];
            c != '<' && c != '>' && c != '"'
        } by {
            if i < e.len() {
                assert(xml_escaped(s)[i] == e[i]);
            } else {
                assert(xml_escaped(s)[i] == t[i - e.len()]);
            }
        }
    }
}

/// Text with none of `&`, `<`, `>`, `"` is left as it is.
pub proof fn lemma_escape_plain(s: Seq<char>)
    requires
        forall|i: int| 0 <= i < s.len() ==> #[trigger] s[i] != '&' && s[i] != '<' && s[i] != '>' && s[i] != '"',
    ensures
        xml_escaped(s) == s,
    decreases s.len(),
{
    if s.len() > 0 {
        lemma_escape_plain(s.drop_last());
        assert(s.drop_last().push(s.last()) =~= s);
        assert(escape_char(s.last()) =~= seq![s.last()]);
    }
}

/// The entity for `&`.
pub open spec fn amp_entity() -> Seq<char> {
    seq!['&', 'a', 'm', 'p', ';']
}

/// The entity for `<`.
pub open spec fn lt_entity() -> Seq<char> {
    seq!['&', 'l', 't', ';']
}

/// The entity for `>`.
pub open spec fn gt_entity() -> Seq<char> {
    seq!['&', 'g', 't', ';']
}

/// The entity for `"`.
pub open spec fn quot_entity() -> Seq<char> {
    seq!['&', 'q', 'u', 'o', 't', ';']
}

/// The entities as the escaper writes them.
proof fn lemma_entity_texts()
    ensures
        "&amp;"@ == amp_entity(),
        "&lt;"@ == lt_entity(),
        "&gt;"@ == gt_entity(),
        "&quot;"@ == quot_entity(),
{
    reveal_strlit("&amp;");
    reveal_strlit("&lt;");
    reveal_strlit("&gt;");
    reveal_strlit("&quot;");
    assert("&amp;"@ =~= amp_entity());
    assert("&lt;"@ =~= lt_entity());
    assert("&gt;"@ =~= gt_entity());
    assert("&quot;"@ =~= quot_entity());
}

/// Decoding the four entities, left to right: each of `&quot;`, `&gt;`,
/// `&lt;` and `&amp;` becomes its character, anything else stays.
pub open spec fn xml_unescaped(t: Seq<char>) -> Seq<char>
    decreases t.len(),
{
    if t.len() == 0 {
        Seq::empty()
    } else if has_prefix(t, quot_entity()) {
        seq!['"'] + xml_unescaped(t.skip(6))
    } else if has_prefix(t, gt_entity()) {
        seq!['>'] + xml_unescaped(t.skip(4))
    } else if has_prefix(t, lt_entity()) {
        seq!['<'] + xml_unescaped(t.skip(4))
    } else if has_prefix(t, amp_entity()) {
        seq!['&'] + xml_unescaped(t.skip(5))
    } else {
        seq![t[0]] + xml_unescaped(t.skip(1))
    }
}

/// Escaping one character and then more text decodes to that character
/// followed by the decoding of the rest.
proof fn lemma_unescape_step(c: char, rest: Seq<char>)
    ensures
        xml_unescaped(escape_char(c) + rest) == seq![c] + xml_unescaped(rest),
{
    lemma_entity_texts();
    let t = escape_char(c) + rest;
    if c == '&' {
        assert(t[1] == 'a');
        assert(!has_prefix(t, quot_entity()) && !has_prefix(t, gt_entity()) && !has_prefix(t, lt_entity()))
            by {
            if t.len() >= 6 {
                assert(t.subrange(0, 6)[1] == 'a');
            }
            assert(t.subrange(0, 4)[1] == 'a');
        }
        assert(t.subrange(0, 5) =~= amp_entity());
        assert(t.skip(5) =~= rest);
    } else if c == '<' {
        assert(!has_prefix(t, quot_entity()) && !has_prefix(t, gt_entity())) by {
            assert(t.subrange(0, 4)[1] == 'l');
            if t.len() >= 6 {
                assert(t.subrange(0, 6)[1] == 'l');
            }
        }
        assert(t.subrange(0, 4) =~= lt_entity());
        assert(t.skip(4) =~= rest);
    } else if c == '>' {
        assert(!has_prefix(t, quot_entity())) by {
            if t.len() >= 6 {
                assert(t.subrange(0, 6)[1] == 'g');
            }
        }
        assert(t.subrange(0, 4) =~= gt_entity());
        assert(t.skip(4) =~= rest);
    } else if c == '"' {
        assert(t.subrange(0, 6) =~= quot_entity());
        assert(t.skip(6) =~= rest);
    } else {
        assert(t[0] == c);
        assert(!has_prefix(t, quot_entity()) && !has_prefix(t, gt_entity()) && !has_prefix(t, lt_entity())
            && !has_prefix(t, amp_entity())) by {
            if t.len() >= 4 {
                assert(t.subrange(0, 4)[0] == c);
            }
            if t.len() >= 5 {
                assert(t.subrange(0, 5)[0] == c);
            }
            if t.len() >= 6 {
                assert(t.subrange(0, 6)[0] == c);
            }
        }
        assert(t.skip(1) =~= rest);
    }
}

/// Decoding the escaped form of a text gives the text back.
pub proof fn lemma_unescape_escaped(s: Seq<char>)
    ensures
        xml_unescaped(xml_escaped(s)) == s,
    decreases s.len(),
{
    if s.len() > 0 {
        let c = s[0];
        let rest = s.drop_first();
        lemma_escape_concat(seq![c], rest);
        assert(seq![c] + rest =~= s);
        assert(seq![c].drop_last() =~= Seq::<char>::empty());
        assert(xml_escaped(Seq::<char>::empty()) =~= Seq::<char>::empty());
        assert(xml_escaped(seq![c]) =~= escape_char(c));
        lemma_unescape_step(c, xml_escaped(rest));
        lemma_unescape_escaped(rest);
        assert(seq![c] + rest =~= s);
    }
}

/// `str::replace` with a non-empty pattern: every leftmost, non-overlapping
/// occurrence of `pat` in `t` becomes `rep`.
pub open spec fn replace_all(t: Seq<char>, pat: Seq<char>, rep: Seq<char>) -> Seq<char>
    decreases t.len(),
{
    if t.len() == 0 {
        Seq::empty()
    } else if pat.len() > 0 && has_prefix(t, pat) {
        rep + replace_all(t.skip(pat.len() as int), pat, rep)
    } else {
        seq![t[0]] + replace_all(t.skip(1), pat, rep)
    }
}

/// Decoding by replacement, in this order: `&quot;` by `"`, then `&gt;` by
/// `>`, then `&lt;` by `<`, then `&amp;` by `&`.
pub open spec fn replace_unescaped(t: Seq<char>) -> Seq<char> {
    replace_all(
        replace_all(
            replace_all(replace_all(t, quot_entity(), seq!['"']), gt_entity(), seq!['>']),
            lt_entity(),
            seq!['<'],
        ),
        amp_entity(),
        seq!['&'],
    )
}

/// What character `c` stands as after `k` of the four replacements.
spec fn stage_char(c: char, k: int) -> Seq<char> {
    if c == '"' {
        if k >= 1 { seq![c] } else { quot_entity() }
    } else if c == '>' {
        if k >= 2 { seq![c] } else { gt_entity() }
    } else if c == '<' {
        if k >= 3 { seq![c] } else { lt_entity() }
    } else if c == '&' {
        if k >= 4 { seq![c] } else { amp_entity() }
    } else {
        seq![c]
    }
}

/// The escaped text of `s` after `k` of the four replacements.
spec fn staged(s: Seq<char>, k: int) -> Seq<char>
    decreases s.len(),
{
    if s.len() == 0 {
        Seq::empty()
    } else {
        stage_char(s[0], k) + staged(s.drop_first(), k)
    }
}

/// The pattern of replacement `k`.
spec fn stage_pat(k: int) -> Seq<char> {
    if k == 0 { quot_entity() } else if k == 1 { gt_entity() } else if k == 2 { lt_entity() } else { amp_entity() }
}

/// The replacement text of replacement `k`.
spec fn stage_rep(k: int) -> Seq<char> {
    if k == 0 { seq!['"'] } else if k == 1 { seq!['>'] } else if k == 2 { seq!['<'] } else { seq!['&'] }
}

/// Text without `&` passes through a replacement of an `&`-pattern unchanged.
proof fn lemma_replace_plain_prefix(x: Seq<char>, y: Seq<char>, pat: Seq<char>, rep: Seq<char>)
    requires
        pat.len() > 0,
        pat[0] == '&',
        forall|i: int| 0 <= i < x.len() ==> x[i] != '&',
    ensures
        replace_all(x + y, pat, rep) == x + replace_all(y, pat, rep),
    decreases x.len(),
{
    if x.len() == 0 {
        assert(x + y =~= y);
        assert(x + replace_all(y, pat, rep) =~= replace_all(y, pat, rep));
    } else {
        let t = x + y;
        assert(t[0] == x[0]);
        if pat.len() <= t.len() {
            assert(t.subrange(0, pat.len() as int)[0] == x[0]);
        }
        assert(!has_prefix(t, pat));
        assert(t.skip(1) =~= x.skip(1) + y);
        lemma_replace_plain_prefix(x.skip(1), y, pat, rep);
        assert(seq![x[0]] + (x.skip(1) + replace_all(y, pat, rep)) =~= x + replace_all(y, pat, rep));
    }
}

/// One replacement turns the stand-in of one character into its next stand-in.
proof fn lemma_replace_stage_char(c: char, y: Seq<char>, k: int)
    requires
        0 <= k < 4,
    ensures
        replace_all(stage_char(c, k) + y, stage_pat(k), stage_rep(k)) == stage_char(c, k + 1)
            + replace_all(y, stage_pat(k), stage_rep(k)),
{
    let tok = stage_char(c, k);
    let pat = stage_pat(k);
    let rep = stage_rep(k);
    let t = tok + y;
    if tok == pat {
        assert(t.subrange(0, pat.len() as int) =~= pat);
        assert(t.skip(pat.len() as int) =~= y);
        assert(stage_char(c, k + 1) == rep);
    } else if tok[0] == '&' {
        assert(tok.len() >= 4 && pat.len() >= 4);
        assert(tok[1] != pat[1]);
        assert(t[0] == '&');
        if pat.len() <= t.len() {
            assert(t.subrange(0, pat.len() as int)[1] == tok[1]);
        }
        assert(!has_prefix(t, pat));
        assert(t.skip(1) =~= tok.skip(1) + y);
        lemma_replace_plain_prefix(tok.skip(1), y, pat, rep);
        assert(seq![t[0]] + (tok.skip(1) + replace_all(y, pat, rep)) =~= tok + replace_all(y, pat, rep));
        assert(stage_char(c, k + 1) == tok);
    } else {
        assert(tok.len() == 1 && tok[0] != '&');
        lemma_replace_plain_prefix(tok, y, pat, rep);
        assert(stage_char(c, k + 1) == tok);
    }
}

/// One replacement takes the whole text one stage on.
proof fn lemma_replace_stage(s: Seq<char>, k: int)
    requires
        0 <= k < 4,
    ensures
        replace_all(staged(s, k), stage_pat(k), stage_rep(k)) == staged(s, k + 1),
    decreases s.len(),
{
    if s.len() == 0 {
        assert(staged(s, k) =~= Seq::<char>::empty());
    } else {
        lemma_replace_stage(s.drop_first(), k);
        lemma_replace_stage_char(s[0], staged(s.drop_first(), k), k);
    }
}

/// Before any replacement the stand-ins are the escaped text.
proof fn lemma_staged_escaped(s: Seq<char>)
    ensures
        staged(s, 0) == xml_escaped(s),
    decreases s.len(),
{
    lemma_entity_texts();
    if s.len() > 0 {
        let c = s[0];
        let rest = s.drop_first();
        lemma_staged_escaped(rest);
        lemma_escape_concat(seq![c], rest);
        assert(seq![c] + rest =~= s);
        assert(seq![c].drop_last() =~= Seq::<char>::empty());
        assert(xml_escaped(Seq::<char>::empty()) =~= Seq::<char>::empty());
        assert(xml_escaped(seq![c]) =~= escape_char(c));
        assert(escape_char(c) == stage_char(c, 0));
    }
}

/// After all four replacements every character stands for itself.
proof fn lemma_staged_done(s: Seq<char>)
    ensures
        staged(s, 4) == s,
    decreases s.len(),
{
    if s.len() > 0 {
        lemma_staged_done(s.drop_first());
        assert(seq![s[0]] + s.drop_first() =~= s);
    }
}

/// Decoding escaped text by the four replacements (`&quot;`, `&gt;`, `&lt;`,
/// then `&amp;`) gives the text back.
pub proof fn lemma_replace_unescape_escaped(s: Seq<char>)
    ensures
        replace_unescaped(xml_escaped(s)) == s,
{
    lemma_staged_escaped(s);
    lemma_replace_stage(s, 0);
    lemma_replace_stage(s, 1);
    lemma_replace_stage(s, 2);
    lemma_replace_stage(s, 3);
    lemma_staged_done(s);
}

/// Whether an entity starts at position `i` of `t`.
pub open spec fn entity_at(t: Seq<char>, i: int) -> bool {
    let tail = t.skip(i);
    has_prefix(tail, amp_entity()) || has_prefix(tail, lt_entity()) || has_prefix(tail, gt_entity())
        || has_prefix(tail, quot_entity())
}

/// In escaped text every `&` starts one of the four entities.
#[verifier::spinoff_prover]
#[verifier::rlimit(40)]
pub proof fn lemma_escaped_ampersands_start_entities(s: Seq<char>)
    ensures
        forall|i: int|
            0 <= i < xml_escaped(s).len() && #[trigger] xml_escaped(s)[i] == '&' ==> entity_at(
                xml_escaped(s),
                i,
            ),
    decreases s.len(),
{
    lemma_entity_texts();
    if s.len() > 0 {
        lemma_escaped_ampersands_start_entities(s.drop_last());
        let e = xml_escaped(s.drop_last());
        let t = escape_char(s.last());
        let whole = xml_escaped(s);
        assert(whole == e + t);
        assert forall|i: int| 0 <= i < whole.len() && #[trigger] whole[i] == '&' implies entity_at(
            whole,
            i,
        ) by {
            if i < e.len() {
                assert(e[i] == '&');
                assert(entity_at(e, i));
                let et = e.skip(i);
                let wt = whole.skip(i);
                assert forall|k: int| 0 <= k < et.len() implies wt[k] == et[k] by {
                    assert(wt[k] == whole[i + k]);
                }
                if has_prefix(et, amp_entity()) {
                    assert(wt.subrange(0, 5) =~= et.subrange(0, 5));
                } else if has_prefix(et, lt_entity()) {
                    assert(wt.subrange(0, 4) =~= et.subrange(0, 4));
                } else if has_prefix(et, gt_entity()) {
                    assert(wt.subrange(0, 4) =~= et.subrange(0, 4));
                } else {
                    assert(wt.subrange(0, 6) =~= et.subrange(0, 6));
                }
            } else {
                let j = i - e.len();
                assert(whole[i] == t[j]);
                let wt = whole.skip(i);
                let c = s.last();
                if c == '&' {
                    assert(j == 0);
                    assert(wt.subrange(0, 5) =~= amp_entity());
                } else if c == '<' {
                    assert(j == 0);
                    assert(wt.subrange(0, 4) =~= lt_entity());
                } else if c == '>' {
                    assert(j == 0);
                    assert(wt.subrange(0, 4) =~= gt_entity());
                } else if c == '"' {
                    assert(j == 0);
                    assert(wt.subrange(0, 6) =~= quot_entity());
                } else {
                    assert(t[j] == c);
                }
            }
        }
    }
}

/// Append `s`, escaped, to `out`.
pub fn push_escaped(out: &mut String, s: &str)
    ensures
        final(out)@ == old(out)@ + xml_escaped(s@),
{
    let ghost start = out@;
    let ghost mut seen: Seq<char> = Seq::empty();
    let mut chars = s.chars();
    loop
        invariant
            s@ == seen + chars.remaining(),
            out@ == start + xml_escaped(seen),
        ensures
            out@ == start + xml_escaped(s@),
        decreases s@.len() - seen.len(),
    {
        let ghost rest = chars.remaining();
        match chars.next() {
            Some(c) => {
                if c == '&' {
                    push_text(out, "&amp;");
                } else if c == '<' {
                    push_text(out, "&lt;");
                } else if c == '>' {
                    push_text(out, "&gt;");
                } else if c == '"' {
                    push_text(out, "&quot;");
                } else {
                    out.push(c);
                }
                proof {
                    assert(seen.push(c).drop_last() =~= seen);
                    assert(seen + rest =~= seen.push(c) + chars.remaining());
                    seen = seen.push(c);
                }
            },
            None => {
                assert(s@ =~= seen);
                break;
            },
        }
    }
}

/// Escape `&`, `<`, `>` and `"` for use in XML text and attribute values.
pub fn xml_escape(s: &str) -> (r: String)
    ensures
        r@ == xml_escaped(s@),
{
    let mut out = String::new();
    push_escaped(&mut out, s);
    out
}

/// Renders reports as JSON; the rendering itself is serde's.
pub struct JsonFormatter;

impl JsonFormatter {
    /// The identifier of this format.
    pub fn format_id(&self) -> (id: &'static str)
        ensures
            id@ == "json"@,
    {
        "json"
    }
}

/// Renders reports as a JUnit XML document.
pub struct JunitFormatter;

/// The `<failure>` line for a violation.
pub open spec fn junit_failure(v: ViolationView) -> Seq<char> {
    "      <failure message=\""@ + xml_escaped(v.message) + "\" type=\""@ + xml_escaped(v.rule)
        + "\"/>\n"@
}

/// The `<failure>` lines for a list of violations, in order.
pub open spec fn junit_failures(vs: Seq<ViolationView>) -> Seq<char>
    decreases vs.len(),
{
    if vs.len() == 0 {
        Seq::empty()
    } else {
        junit_failures(vs.drop_last()) + junit_failure(vs.last())
    }
}

/// The `<testcase>` element for one endpoint result, with its time text.
pub open spec fn junit_case(r: EndpointResultView, time: Seq<char>) -> Seq<char> {
    "    <testcase name=\""@ + xml_escaped(r.method + " "@ + r.path) + "\" time=\""@ + time + "\""@
        + if r.violations.len() == 0 {
        " />\n"@
    } else {
        ">\n"@ + junit_failures(r.violations) + "    </testcase>\n"@
    }
}

/// The `<testcase>` elements for the results, each with the time text at
/// the same position.
pub open spec fn junit_cases(rs: Seq<EndpointResult>, times: Seq<String>) -> Seq<char>
    decreases rs.len(),
{
    if rs.len() == 0 {
        Seq::empty()
    } else {
        junit_cases(rs.drop_last(), times.drop_last()) + junit_case(rs.last()@, times.last()@)
    }
}

/// The JUnit document for a report: one test suite named after the schema,
/// one test case per endpoint result, one failure per violation.
pub open spec fn junit_document(report: ValidationReport, suite_time: Seq<char>, case_times: Seq<String>) -> Seq<char> {
    "<?xml version=\"1.0\" encoding=\"UTF-8\"?>\n"@ + "<testsuites tests=\""@ + decimal(
        report.summary.total as nat,
    ) + "\" failures=\""@ + decimal(report.summary.failed as nat) + "\" errors=\""@ + decimal(
        report.summary.errors as nat,
    ) + "\" time=\""@ + suite_time + "\">\n"@ + "  <testsuite name=\""@ + xml_escaped(
        report.schema_name@,
    ) + "\" tests=\""@ + decimal(report.summary.total as nat) + "\">\n"@ + junit_cases(
        report.results@,
        case_times,
    ) + "  </testsuite>\n</testsuites>\n"@
}

/// The opening of a JUnit document up to the value of the `time` attribute:
/// the XML declaration, then the `<testsuites>` tag with `tests`, `failures`
/// and `errors` set to the decimals of `total`, `failed` and `errors`.
pub open spec fn junit_counts_head(total: nat, failed: nat, errors: nat) -> Seq<char> {
    "<?xml version=\"1.0\" encoding=\"UTF-8\"?>\n"@ + "<testsuites tests=\""@ + decimal(total)
        + "\" failures=\""@ + decimal(failed) + "\" errors=\""@ + decimal(errors) + "\" time=\""@
}

/// The `<testsuites>` tag counts as the summary does: `tests` is its total,
/// `failures` its failed count and `errors` its errored count, so an errored
/// endpoint is never counted as a failure as well. Where the summary is the
/// one its results have, failures and errors together never exceed the
/// tests, and each counts the results with that status.
pub proof fn lemma_junit_counts(report: ValidationReport, suite_time: Seq<char>, case_times: Seq<String>)
    ensures
        has_prefix(
            junit_document(report, suite_time, case_times),
            junit_counts_head(
                report.summary.total as nat,
                report.summary.failed as nat,
                report.summary.errors as nat,
            ),
        ),
        (report.summary == summary_of(report.results@) && report.results@.len() <= usize::MAX) ==> {
            &&& report.summary.failed + report.summary.errors <= report.summary.total
            &&& report.summary.failed == count_status(report.results@, ValidationStatus::Fail)
            &&& report.summary.errors == count_status(report.results@, ValidationStatus::Error)
        },
{
    let doc = junit_document(report, suite_time, case_times);
    let head = junit_counts_head(
        report.summary.total as nat,
        report.summary.failed as nat,
        report.summary.errors as nat,
    );
    assert(doc.subrange(0, head.len() as int) =~= head);
    if report.summary == summary_of(report.results@) && report.results@.len() <= usize::MAX {
        lemma_summary_partitions(report.results@);
        lemma_status_count_bounded(report.results@, ValidationStatus::Fail);
        lemma_status_count_bounded(report.results@, ValidationStatus::Error);
    }
}

fn push_junit_case(xml: &mut String, r: &EndpointResult, time: &str)
    ensures
        final(xml)@ == old(xml)@ + junit_case(r@, time@),
{
    let ghost start = xml@;
    let mut name = r.method.clone();
    push_text(&mut name, " ");
    push_text(&mut name, r.path.as_str());
    push_text(xml, "    <testcase name=\"");
    push_escaped(xml, name.as_str());
    push_text(xml, "\" time=\"");
    push_text(xml, time);
    push_text(xml, "\"");
    let ghost head = xml@;
    if r.violations.len() == 0 {
        push_text(xml, " />\n");
    } else {
        push_text(xml, ">\n");
        let ghost mid = xml@;
        let n = r.violations.len();
        let mut i: usize = 0;
        while i < n
            invariant
                n == r.violations@.len(),
                0 <= i <= n,
                xml@ == mid + junit_failures(r@.violations.take(i as int)),
            decreases n - i,
        {
            let v = &r.violations[i];
            push_text(xml, "      <failure message=\"");
            push_escaped(xml, v.message.as_str());
            push_text(xml, "\" type=\"");
            push_escaped(xml, v.rule.as_str());
            push_text(xml, "\"/>\n");
            assert(r@.violations.take(i + 1).drop_last() =~= r@.violations.take(i as int));
            assert(r@.violations[i as int] == v@);
            i = i + 1;
        }
        assert(r@.violations.take(n as int) =~= r@.violations);
        push_text(xml, "    </testcase>\n");
    }
}

impl JunitFormatter {
    /// The identifier of this format.
    pub fn format_id(&self) -> (id: &'static str)
        ensures
            id@ == "junit"@,
    {
        "junit"
    }

    /// Render `report` as JUnit XML. `suite_time` is the report's duration and
    /// `case_times[i]` the latency of `report.results[i]`, both in seconds
    /// with three decimals.
    pub fn format(&self, report: &ValidationReport, suite_time: &str, case_times: &Vec<String>) -> (xml: String)
        requires
            case_times@.len() == report.results@.len(),
        ensures
            xml@ == junit_document(*report, suite_time@, case_times@),
    {
        let mut xml = owned("<?xml version=\"1.0\" encoding=\"UTF-8\"?>\n");
        push_text(&mut xml, "<testsuites tests=\"");
        push_text(&mut xml, decimal_string(report.summary.total as u64).as_str());
        push_text(&mut xml, "\" failures=\"");
        push_text(&mut xml, decimal_string(report.summary.failed as u64).as_str());
        push_text(&mut xml, "\" errors=\"");
        push_text(&mut xml, decimal_string(report.summary.errors as u64).as_str());
        push_text(&mut xml, "\" time=\"");
        push_text(&mut xml, suite_time);
        push_text(&mut xml, "\">\n");
        push_text(&mut xml, "  <testsuite name=\"");
        push_escaped(&mut xml, report.schema_name.as_str());
        push_text(&mut xml, "\" tests=\"");
        push_text(&mut xml, decimal_string(report.summary.total as u64).as_str());
        push_text(&mut xml, "\">\n");
        let ghost head = xml@;
        let n = report.results.len();
        let mut i: usize = 0;
        while i < n
            invariant
                n == report.results@.len(),
                n == case_times@.len(),
                0 <= i <= n,
                xml@ == head + junit_cases(report.results@.take(i as int), case_times@.take(i as int)),
            decreases n - i,
        {
            push_junit_case(&mut xml, &report.results[i], case_times[i].as_str());
            assert(report.results@.take(i + 1).drop_last() =~= report.results@.take(i as int));
            assert(case_times@.take(i + 1).drop_last() =~= case_times@.take(i as int));
            i = i + 1;
        }
        assert(report.results@.take(n as int) =~= report.results@);
        assert(case_times@.take(n as int) =~= case_times@);
        push_text(&mut xml, "  </testsuite>\n</testsuites>\n");
        xml
    }
}

/// Renders reports as Markdown.
pub struct MarkdownFormatter;

/// The bullet for one violation.
pub open spec fn markdown_violation(v: ViolationView) -> Seq<char> {
    "- `"@ + v.rule + "`: "@ + v.message + "\n"@
}

/// The bullets for a list of violations, in order.
pub open spec fn markdown_violations(vs: Seq<ViolationView>) -> Seq<char>
    decreases vs.len(),
{
    if vs.len() == 0 {
        Seq::empty()
    } else {
        markdown_violations(vs.drop_last()) + markdown_violation(vs.last())
    }
}

/// The section for one endpoint result: empty where it has no violations.
pub open spec fn markdown_block(r: EndpointResultView) -> Seq<char> {
    if r.violations.len() == 0 {
        Seq::empty()
    } else {
        "**"@ + r.method + " "@ + r.path + "**\n"@ + markdown_violations(r.violations) + "\n"@
    }
}

/// The sections for a list of results, in order.
pub open spec fn markdown_blocks(rs: Seq<EndpointResult>) -> Seq<char>
    decreases rs.len(),
{
    if rs.len() == 0 {
        Seq::empty()
    } else {
        markdown_blocks(rs.drop_last()) + markdown_block(rs.last()@)
    }
}

/// Whether no result carries a violation.
pub open spec fn all_clean(rs: Seq<EndpointResult>) -> bool {
    forall|i: int| 0 <= i < rs.len() ==> (#[trigger] rs[i]).violations@.len() == 0
}

/// The Markdown document for a report: a header line, a summary table, then
/// either a note that all endpoints passed or the violations per endpoint.
pub open spec fn markdown_document(report: ValidationReport, duration: Seq<char>) -> Seq<char> {
    let s = report.summary;
    let verdict = if s.failed == 0 && s.errors == 0 { "PASS"@ } else { "FAIL"@ };
    "## ValiForge Validation Report\n\n"@ + "**Schema:** "@ + report.schema_name@ + " | **Target:** "@
        + report.target_url@ + " | **Duration:** "@ + duration + "s\n\n"@
        + "| Status | Total | Passed | Failed | Errors |\n|---|---|---|---|---|\n| "@ + verdict
        + " | "@ + decimal(s.total as nat) + " | "@ + decimal(s.passed as nat) + " | "@ + decimal(
        s.failed as nat,
    ) + " | "@ + decimal(s.errors as nat) + " |\n\n"@ + if all_clean(report.results@) {
        "All endpoints passed validation.\n"@
    } else {
        "### Violations\n\n"@ + markdown_blocks(report.results@)
    }
}

/// The Markdown document up to the verdict cell of its summary table: the
/// title, the line naming schema, target and duration, the table's header
/// row and rule, and the opening of its one row.
pub open spec fn markdown_table_head(report: ValidationReport, duration: Seq<char>) -> Seq<char> {
    "## ValiForge Validation Report\n\n"@ + "**Schema:** "@ + report.schema_name@ + " | **Target:** "@
        + report.target_url@ + " | **Duration:** "@ + duration + "s\n\n"@
        + "| Status | Total | Passed | Failed | Errors |\n|---|---|---|---|---|\n| "@
}

/// The verdict cell of the Markdown summary table reads `PASS` exactly when
/// the report is a success (no endpoint failed and none errored), and `FAIL`
/// otherwise: any errored endpoint makes it `FAIL`. Where the summary is the
/// one its results have, the cell reads `PASS` exactly when no result failed
/// or errored.
pub proof fn lemma_markdown_verdict(report: ValidationReport, duration: Seq<char>)
    ensures
        ({
            let doc = markdown_document(report, duration);
            let head = markdown_table_head(report, duration);
            let cell = doc.subrange(head.len() as int, head.len() + 4int);
            &&& has_prefix(doc, head)
            &&& head.len() + 4 <= doc.len()
            &&& cell == "PASS"@ || cell == "FAIL"@
            &&& (cell == "PASS"@) <==> (report.summary.failed == 0 && report.summary.errors == 0)
            &&& report.summary.errors > 0 ==> cell == "FAIL"@
            &&& report.summary.failed > 0 ==> cell == "FAIL"@
            &&& (report.summary == summary_of(report.results@) && report.results@.len() <= usize::MAX)
                ==> ((cell == "PASS"@) <==> (forall|i: int|
                0 <= i < report.results@.len() ==> (#[trigger] report.results@[i]).status
                    != ValidationStatus::Fail && report.results@[i].status != ValidationStatus::Error))
        }),
{
    let doc = markdown_document(report, duration);
    let head = markdown_table_head(report, duration);
    let succeeded = report.summary.failed == 0 && report.summary.errors == 0;
    let verdict = if succeeded { "PASS"@ } else { "FAIL"@ };
    reveal_strlit("PASS");
    reveal_strlit("FAIL");
    assert(verdict.len() == 4);
    assert("PASS"@ != "FAIL"@) by {
        assert("PASS"@[0] != "FAIL"@[0]);
    }
    assert(doc.subrange(0, head.len() + 4int) =~= head + verdict);
    assert(doc.subrange(0, head.len() as int) =~= head);
    assert(doc.subrange(head.len() as int, head.len() + 4int) =~= verdict);
    if report.summary == summary_of(report.results@) && report.results@.len() <= usize::MAX {
        lemma_success_iff_no_failure(report.results@);
    }
}

fn push_markdown_block(md: &mut String, r: &EndpointResult)
    ensures
        final(md)@ == old(md)@ + markdown_block(r@),
{
    if r.violations.len() == 0 {
        assert(old(md)@ + markdown_block(r@) =~= old(md)@);
        return;
    }
    push_text(md, "**");
    push_text(md, r.method.as_str());
    push_text(md, " ");
    push_text(md, r.path.as_str());
    push_text(md, "**\n");
    let ghost mid = md@;
    let n = r.violations.len();
    let mut i: usize = 0;
    while i < n
        invariant
            n == r.violations@.len(),
            0 <= i <= n,
            md@ == mid + markdown_violations(r@.violations.take(i as int)),
        decreases n - i,
    {
        let v = &r.violations[i];
        push_text(md, "- `");
        push_text(md, v.rule.as_str());
        push_text(md, "`: ");
        push_text(md, v.message.as_str());
        push_text(md, "\n");
        assert(r@.violations.take(i + 1).drop_last() =~= r@.violations.take(i as int));
        assert(r@.violations[i as int] == v@);
        i = i + 1;
    }
    assert(r@.violations.take(n as int) =~= r@.violations);
    push_text(md, "\n");
}

fn results_clean(rs: &Vec<EndpointResult>) -> (b: bool)
    ensures
        b == all_clean(rs@),
{
    let n = rs.len();
    let mut i: usize = 0;
    while i < n
        invariant
            n == rs@.len(),
            0 <= i <= n,
            forall|j: int| 0 <= j < i ==> (#[trigger] rs@[j]).violations@.len() == 0,
        decreases n - i,
    {
        if rs[i].violations.len() != 0 {
            return false;
        }
        i = i + 1;
    }
    true
}

impl MarkdownFormatter {
    /// The identifier of this format.
    pub fn format_id(&self) -> (id: &'static str)
        ensures
            id@ == "markdown"@,
    {
        "markdown"
    }

    /// Render `report` as Markdown. `duration` is the report's duration in
    /// seconds with one decimal.
    pub fn format(&self, report: &ValidationReport, duration: &str) -> (md: String)
        ensures
            md@ == markdown_document(*report, duration@),
    {
        let s = &report.summary;
        let mut md = owned("## ValiForge Validation Report\n\n");
        push_text(&mut md, "**Schema:** ");
        push_text(&mut md, report.schema_name.as_str());
        push_text(&mut md, " | **Target:** ");
        push_text(&mut md, report.target_url.as_str());
        push_text(&mut md, " | **Duration:** ");
        push_text(&mut md, duration);
        push_text(&mut md, "s\n\n");
        push_text(&mut md, "| Status | Total | Passed | Failed | Errors |\n|---|---|---|---|---|\n| ");
        if report.is_success() {
            push_text(&mut md, "PASS");
        } else {
            push_text(&mut md, "FAIL");
        }
        push_text(&mut md, " | ");
        push_text(&mut md, decimal_string(s.total as u64).as_str());
        push_text(&mut md, " | ");
        push_text(&mut md, decimal_string(s.passed as u64).as_str());
        push_text(&mut md, " | ");
        push_text(&mut md, decimal_string(s.failed as u64).as_str());
        push_text(&mut md, " | ");
        push_text(&mut md, decimal_string(s.errors as u64).as_str());
        push_text(&mut md, " |\n\n");
        if results_clean(&report.results) {
            push_text(&mut md, "All endpoints passed validation.\n");
        } else {
            push_text(&mut md, "### Violations\n\n");
            let ghost head = md@;
            let n = report.results.len();
            let mut i: usize = 0;
            while i < n
                invariant
                    n == report.results@.len(),
                    0 <= i <= n,
                    md@ == head + markdown_blocks(report.results@.take(i as int)),
                decreases n - i,
            {
                push_markdown_block(&mut md, &report.results[i]);
                assert(report.results@.take(i + 1).drop_last() =~= report.results@.take(i as int));
                i = i + 1;
            }
            assert(report.results@.take(n as int) =~= report.results@);
        }
        md
    }
}

} // verus!
