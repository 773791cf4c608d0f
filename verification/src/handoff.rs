//! Compact handoff checkpoints that replace forwarding conversation history.

use vstd::prelude::*;
use vstd::string::*;

use crate::health::FailureCategory;
use crate::json::{json_number, json_text, json_text_array, push_json_string, push_json_text_array, push_json_u64, push_text, utf8};
use crate::route::{split_on_slash, split_slash};
use crate::text::{is_blank, is_blank_text};
use crate::util::{copy_strings, first_problem, lemma_first_problem_at};

verus! {

/// Observed state of a test at the handoff point.
#[derive(Debug, Clone, Copy, PartialEq, Eq, Structural)]
pub enum TestStatus {
    /// Finished green.
    Passed,
    /// Finished red.
    Failed,
    /// Not run yet.
    NotRun,
}

/// Compact fact about a test.
#[derive(Debug, Clone, PartialEq, Eq)]
pub struct TestFact {
    /// Command run.
    pub command: String,
    /// Result.
    pub status: TestStatus,
    /// Bounded summary.
    pub summary: String,
}

/// Editable form of a checkpoint.
#[derive(Debug, Clone, PartialEq, Eq)]
pub struct HandoffDraft {
    /// Document version.
    pub schema_version: u16,
    /// Current objective.
    pub objective: String,
    /// Constraints that survive the handoff.
    pub constraints: Vec<String>,
    /// Decisions already taken.
    pub decisions: Vec<String>,
    /// Relevant relative files.
    pub files: Vec<String>,
    /// Summary of the diff, not the history.
    pub diff_summary: String,
    /// Observed tests.
    pub tests: Vec<TestFact>,
    /// Failure category.
    pub failure: FailureCategory,
    /// Bounded literal message.
    pub failure_message: String,
    /// Next executable step.
    pub next_step: String,
    /// Remaining token budget.
    pub remaining_tokens: u64,
    /// Remaining wall budget.
    pub remaining_wall_seconds: u64,
}

/// Incoherent checkpoint.
#[derive(Debug, Clone, PartialEq, Eq)]
pub enum HandoffError {
    /// Unknown version.
    SchemaVersion {
        /// Version received.
        received: u16,
    },
    /// Mandatory field is empty.
    Empty {
        /// Field rejected.
        field: &'static str,
    },
    /// Absolute path or traversal.
    NonRelativeFile {
        /// Path rejected.
        file: String,
    },
}

/// The segment `..`.
pub open spec fn is_parent_segment(seg: Seq<char>) -> bool {
    seg == seq!['.', '.']
}

/// A path that is relative and stays below its base: not absolute, not starting
/// at `.`, with no `..` component.
pub open spec fn is_relative_file(p: Seq<char>) -> bool {
    &&& !(p.len() > 0 && p[0] == '/')
    &&& !(p.len() > 0 && p[0] == '.' && (p.len() == 1 || p[1] == '/'))
    &&& forall|i: int| 0 <= i < split_on_slash(p).len() ==> !#[trigger] is_parent_segment(split_on_slash(p)[i])
}

/// Every listed file is a safe relative path.
pub open spec fn files_relative(files: Seq<String>) -> bool {
    forall|i: int| 0 <= i < files.len() ==> #[trigger] is_relative_file(files[i]@)
}

/// The rules a checkpoint obeys.
pub open spec fn checkpoint_valid(d: HandoffDraft) -> bool {
    &&& d.schema_version == 1
    &&& !is_blank(d.objective@)
    &&& !is_blank(d.failure_message@)
    &&& !is_blank(d.next_step@)
    &&& files_relative(d.files@)
}

/// The file at a position, when it is not a safe relative path.
pub open spec fn file_check(files: Seq<String>) -> spec_fn(int) -> Option<Seq<char>> {
    |i: int| if is_relative_file(files[i]@) { None } else { Some(files[i]@) }
}

/// Checks that a path is relative and has no traversal.
pub fn is_relative_path(p: &str) -> (b: bool)
    ensures
        b == is_relative_file(p@),
{
    let n = p.unicode_len();
    if n > 0 {
        let c0 = p.get_char(0);
        if c0 == '/' {
            return false;
        }
        if c0 == '.' && (n == 1 || p.get_char(1) == '/') {
            return false;
        }
    }
    let parts = split_slash(p);
    let ghost views = parts@.map_values(|s: String| s@);
    let dots = String::from_str("..");
    proof {
        reveal_strlit("..");
        assert(dots@ =~= seq!['.', '.']);
    }
    let mut i: usize = 0;
    while i < parts.len()
        invariant
            views == parts@.map_values(|s: String| s@),
            views == split_on_slash(p@),
            dots@ == seq!['.', '.'],
            i <= parts@.len(),
            forall|j: int| 0 <= j < i ==> !#[trigger] is_parent_segment(views[j]),
        decreases parts@.len() - i,
    {
        if parts[i] == dots {
            assert(is_parent_segment(views[i as int]));
            return false;
        }
        i = i + 1;
    }
    true
}

/// A copy of a test fact.
pub fn copy_test_fact(t: &TestFact) -> (out: TestFact)
    ensures
        out == *t,
{
    TestFact { command: t.command.clone(), status: t.status, summary: t.summary.clone() }
}

/// Two drafts with the same contents.
pub open spec fn same_draft(a: HandoffDraft, b: HandoffDraft) -> bool {
    &&& a.schema_version == b.schema_version
    &&& a.objective == b.objective
    &&& a.constraints@ == b.constraints@
    &&& a.decisions@ == b.decisions@
    &&& a.files@ == b.files@
    &&& a.diff_summary == b.diff_summary
    &&& a.tests@ == b.tests@
    &&& a.failure == b.failure
    &&& a.failure_message == b.failure_message
    &&& a.next_step == b.next_step
    &&& a.remaining_tokens == b.remaining_tokens
    &&& a.remaining_wall_seconds == b.remaining_wall_seconds
}

/// A copy of a draft.
pub fn copy_draft(d: &HandoffDraft) -> (out: HandoffDraft)
    ensures
        same_draft(out, *d),
{
    let mut tests: Vec<TestFact> = Vec::new();
    let mut i: usize = 0;
    while i < d.tests.len()
        invariant
            i <= d.tests@.len(),
            tests@ == d.tests@.subrange(0, i as int),
        decreases d.tests@.len() - i,
    {
        tests.push(copy_test_fact(&d.tests[i]));
        assert(tests@ =~= d.tests@.subrange(0, i + 1));
        i = i + 1;
    }
    assert(tests@ =~= d.tests@);
    let out = HandoffDraft {
        schema_version: d.schema_version,
        objective: d.objective.clone(),
        constraints: copy_strings(&d.constraints),
        decisions: copy_strings(&d.decisions),
        files: copy_strings(&d.files),
        diff_summary: d.diff_summary.clone(),
        tests,
        failure: d.failure,
        failure_message: d.failure_message.clone(),
        next_step: d.next_step.clone(),
        remaining_tokens: d.remaining_tokens,
        remaining_wall_seconds: d.remaining_wall_seconds,
    };
    out
}

/// Validated checkpoint.
#[derive(Debug, PartialEq, Eq)]
pub struct HandoffCheckpoint(HandoffDraft);

impl Clone for HandoffCheckpoint {
    fn clone(&self) -> (c: Self)
        ensures
            same_draft(c@, self@),
    {
        proof {
            use_type_invariant(self);
        }
        HandoffCheckpoint(copy_draft(&self.0))
    }
}

impl View for HandoffCheckpoint {
    type V = HandoffDraft;

    closed spec fn view(&self) -> HandoffDraft {
        self.0
    }
}

impl HandoffCheckpoint {
    #[verifier::type_invariant]
    spec fn well_formed(&self) -> bool {
        checkpoint_valid(self.0)
    }

    /// Validates a draft.
    pub fn try_from(draft: HandoffDraft) -> (r: Result<HandoffCheckpoint, HandoffError>)
        ensures
            r is Ok <==> checkpoint_valid(draft),
            r matches Ok(c) ==> c@ == draft,
            r matches Err(e) ==> if draft.schema_version != 1 {
                e == HandoffError::SchemaVersion { received: draft.schema_version }
            } else if is_blank(draft.objective@) {
                e == HandoffError::Empty { field: "objective" }
            } else if is_blank(draft.failure_message@) {
                e == HandoffError::Empty { field: "failure_message" }
            } else if is_blank(draft.next_step@) {
                e == HandoffError::Empty { field: "next_step" }
            } else {
                e matches HandoffError::NonRelativeFile { file }
                    && Some(file@) == first_problem(file_check(draft.files@), draft.files@.len() as int)
            },
    {
        if draft.schema_version != 1 {
            return Err(HandoffError::SchemaVersion { received: draft.schema_version });
        }
        if is_blank_text(draft.objective.as_str()) {
            return Err(HandoffError::Empty { field: "objective" });
        }
        if is_blank_text(draft.failure_message.as_str()) {
            return Err(HandoffError::Empty { field: "failure_message" });
        }
        if is_blank_text(draft.next_step.as_str()) {
            return Err(HandoffError::Empty { field: "next_step" });
        }
        let mut i: usize = 0;
        while i < draft.files.len()
            invariant
                i <= draft.files@.len(),
                draft.schema_version == 1,
                !is_blank(draft.objective@),
                !is_blank(draft.failure_message@),
                !is_blank(draft.next_step@),
                forall|j: int| 0 <= j < i ==> #[trigger] is_relative_file(draft.files@[j]@),
                first_problem(file_check(draft.files@), i as int) is None,
            decreases draft.files@.len() - i,
        {
            if !is_relative_path(draft.files[i].as_str()) {
                proof { lemma_first_problem_at(file_check(draft.files@), i as int, draft.files@.len() as int); }
                return Err(HandoffError::NonRelativeFile { file: draft.files[i].clone() });
            }
            assert(first_problem(file_check(draft.files@), i + 1) is None);
            i = i + 1;
        }
        Ok(HandoffCheckpoint(draft))
    }

    /// The validated draft.
    pub fn draft(&self) -> (d: &HandoffDraft)
        ensures
            *d == self@,
            checkpoint_valid(*d),
    {
        proof {
            use_type_invariant(self);
        }
        &self.0
    }

    /// Gives the draft back.
    pub fn into_draft(self) -> (d: HandoffDraft)
        ensures
            d == self@,
            checkpoint_valid(d),
    {
        proof {
            use_type_invariant(&self);
        }
        self.0
    }
}


/// Name of a test status in a checkpoint document.
pub open spec fn test_status_name(t: TestStatus) -> Seq<char> {
    match t {
        TestStatus::Passed => "passed"@,
        TestStatus::Failed => "failed"@,
        TestStatus::NotRun => "not_run"@,
    }
}

/// JSON of a test fact.
pub open spec fn test_json(t: TestFact) -> Seq<u8> {
    utf8("{\"command\":"@) + json_text(t.command@) + utf8(",\"status\":"@) + json_text(test_status_name(t.status))
        + utf8(",\"summary\":"@) + json_text(t.summary@) + seq![125u8]
}

/// Test facts of a JSON array, comma separated.
pub open spec fn test_items(ts: Seq<TestFact>) -> Seq<u8>
    decreases ts.len(),
{
    if ts.len() == 0 {
        Seq::empty()
    } else if ts.len() == 1 {
        test_json(ts[0])
    } else {
        test_items(ts.drop_last()) + seq![44u8] + test_json(ts.last())
    }
}

/// Name of a failure category without payload in a checkpoint document.
pub open spec fn category_name(f: FailureCategory) -> Seq<char> {
    match f {
        FailureCategory::RateLimited { .. } => "rate_limited"@,
        FailureCategory::RateLimitedUnknown => "rate_limited_unknown"@,
        FailureCategory::QuotaExhausted => "quota_exhausted"@,
        FailureCategory::Authentication => "authentication"@,
        FailureCategory::Balance => "balance"@,
        FailureCategory::Transient => "transient"@,
        FailureCategory::Timeout => "timeout"@,
        FailureCategory::Permanent => "permanent"@,
    }
}

/// JSON of a failure category: its name, or an object naming it with its delay.
pub open spec fn category_json(f: FailureCategory) -> Seq<u8> {
    match f {
        FailureCategory::RateLimited { retry_after_seconds } => utf8("{\"rate_limited\":{\"retry_after_seconds\":"@)
            + json_number(retry_after_seconds as nat) + utf8("}}"@),
        _ => json_text(category_name(f)),
    }
}

/// Canonical JSON of a checkpoint, the fields in document order.
pub open spec fn checkpoint_json(d: HandoffDraft) -> Seq<u8> {
    utf8("{\"schema_version\":"@) + json_number(d.schema_version as nat) + utf8(",\"objective\":"@) + json_text(d.objective@)
        + utf8(",\"constraints\":"@) + json_text_array(d.constraints@) + utf8(",\"decisions\":"@)
        + json_text_array(d.decisions@) + utf8(",\"files\":"@) + json_text_array(d.files@)
        + utf8(",\"diff_summary\":"@) + json_text(d.diff_summary@) + utf8(",\"tests\":"@)
        + seq![91u8] + test_items(d.tests@) + seq![93u8] + utf8(",\"failure\":"@) + category_json(d.failure)
        + utf8(",\"failure_message\":"@) + json_text(d.failure_message@) + utf8(",\"next_step\":"@)
        + json_text(d.next_step@) + utf8(",\"remaining_tokens\":"@) + json_number(d.remaining_tokens as nat)
        + utf8(",\"remaining_wall_seconds\":"@) + json_number(d.remaining_wall_seconds as nat) + seq![125u8]
}

fn test_status_str(t: TestStatus) -> (s: &'static str)
    ensures
        s@ == test_status_name(t),
{
    proof {
        reveal_strlit("passed");
        reveal_strlit("failed");
        reveal_strlit("not_run");
    }
    match t {
        TestStatus::Passed => "passed",
        TestStatus::Failed => "failed",
        TestStatus::NotRun => "not_run",
    }
}

fn push_tests(out: &mut Vec<u8>, ts: &Vec<TestFact>)
    ensures
        final(out)@ == old(out)@ + seq![91u8] + test_items(ts@) + seq![93u8],
{
    let ghost start = out@;
    out.push(91u8);
    let mut i: usize = 0;
    while i < ts.len()
        invariant
            i <= ts@.len(),
            out@ == start + seq![91u8] + test_items(ts@.subrange(0, i as int)),
        decreases ts@.len() - i,
    {
        if i > 0 {
            out.push(44u8);
        }
        let t = &ts[i];
        push_text(out, "{\"command\":");
        push_json_string(out, t.command.as_str());
        push_text(out, ",\"status\":");
        push_json_string(out, test_status_str(t.status));
        push_text(out, ",\"summary\":");
        push_json_string(out, t.summary.as_str());
        out.push(125u8);
        proof {
            let p = ts@.subrange(0, i + 1);
            assert(p.drop_last() =~= ts@.subrange(0, i as int));
            assert(p.last() == ts@[i as int]);
            if i == 0 {
                assert(test_items(p) == test_json(p[0]));
            }
            assert(out@ =~= start + seq![91u8] + test_items(p));
        }
        i = i + 1;
    }
    out.push(93u8);
    assert(ts@.subrange(0, ts@.len() as int) =~= ts@);
}

fn category_str(f: FailureCategory) -> (s: &'static str)
    ensures
        s@ == category_name(f),
{
    proof {
        reveal_strlit("rate_limited");
        reveal_strlit("rate_limited_unknown");
        reveal_strlit("quota_exhausted");
        reveal_strlit("authentication");
        reveal_strlit("balance");
        reveal_strlit("transient");
        reveal_strlit("timeout");
        reveal_strlit("permanent");
    }
    match f {
        FailureCategory::RateLimited { .. } => "rate_limited",
        FailureCategory::RateLimitedUnknown => "rate_limited_unknown",
        FailureCategory::QuotaExhausted => "quota_exhausted",
        FailureCategory::Authentication => "authentication",
        FailureCategory::Balance => "balance",
        FailureCategory::Transient => "transient",
        FailureCategory::Timeout => "timeout",
        FailureCategory::Permanent => "permanent",
    }
}

fn push_category(out: &mut Vec<u8>, f: FailureCategory)
    ensures
        final(out)@ == old(out)@ + category_json(f),
{
    match f {
        FailureCategory::RateLimited { retry_after_seconds } => {
            push_text(out, "{\"rate_limited\":{\"retry_after_seconds\":");
            push_json_u64(out, retry_after_seconds);
            push_text(out, "}}");
        },
        _ => push_json_string(out, category_str(f)),
    }
}

impl HandoffCheckpoint {
    /// Canonical JSON of the checkpoint, as handed to the next route.
    pub fn json_bytes(&self) -> (b: Vec<u8>)
        ensures
            b@ == checkpoint_json(self@),
    {
        let d = &self.0;
        let mut out: Vec<u8> = Vec::new();
        push_text(&mut out, "{\"schema_version\":");
        push_json_u64(&mut out, d.schema_version as u64);
        push_text(&mut out, ",\"objective\":");
        push_json_string(&mut out, d.objective.as_str());
        push_text(&mut out, ",\"constraints\":");
        push_json_text_array(&mut out, &d.constraints);
        push_text(&mut out, ",\"decisions\":");
        push_json_text_array(&mut out, &d.decisions);
        push_text(&mut out, ",\"files\":");
        push_json_text_array(&mut out, &d.files);
        push_text(&mut out, ",\"diff_summary\":");
        push_json_string(&mut out, d.diff_summary.as_str());
        push_text(&mut out, ",\"tests\":");
        push_tests(&mut out, &d.tests);
        push_text(&mut out, ",\"failure\":");
        push_category(&mut out, d.failure);
        push_text(&mut out, ",\"failure_message\":");
        push_json_string(&mut out, d.failure_message.as_str());
        push_text(&mut out, ",\"next_step\":");
        push_json_string(&mut out, d.next_step.as_str());
        push_text(&mut out, ",\"remaining_tokens\":");
        push_json_u64(&mut out, d.remaining_tokens);
        push_text(&mut out, ",\"remaining_wall_seconds\":");
        push_json_u64(&mut out, d.remaining_wall_seconds);
        out.push(125u8);
        assert(out@ =~= checkpoint_json(self@));
        out
    }
}

} // verus!
