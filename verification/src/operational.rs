//! Sealed operational contracts: capability canaries whose effects are
//! verified outside the model's prose.

use vstd::prelude::*;
use vstd::string::*;

use crate::grant::GrantLimits;
use crate::json::{utf8, push_text, ascii_bytes, json_bool, json_number, json_opt_text, json_opt_u16, json_string, json_text, json_text_array, push_ascii, push_json_bool, push_json_opt_text, push_json_opt_u16, push_json_string, push_json_text_array, push_json_u64};
use crate::order::{lemma_triple_lt, sort, sorted_by, stable_sorted, text_lt, triple_less, triple_lt, Ordered};
use crate::route::RouteRef;
use crate::text::{content_address, content_hash, is_blank, is_blank_text, is_sha256_ref, is_sha256_reference, utf8_len};
use crate::util::{copy_opt_string, first_problem, lemma_first_problem_at};

verus! {

/// Tool event observed; a textual mention never creates one.
#[derive(Debug, Clone, PartialEq, Eq)]
pub struct ToolEventV2 {
    /// Tool invoked.
    pub tool: String,
    /// Known result of the invocation.
    pub success: bool,
    /// Textual result bounded to 4096 bytes.
    pub result: Option<String>,
    /// Digest of the complete result.
    pub result_digest: Option<String>,
    /// Artifact observed, if any.
    pub artifact: Option<String>,
    /// URL observed, if any.
    pub source_url: Option<String>,
    /// HTTP status observed, if any.
    pub source_status: Option<u16>,
}

/// Exact scenario of a capability canary.
#[derive(Debug, Clone, Copy, PartialEq, Eq, PartialOrd, Ord, Structural)]
pub enum CanaryScenarioV2 {
    /// Reads a nonce kept outside the prompt.
    Read,
    /// Writes an exact artifact in the allowed directory.
    Write,
    /// Runs a tool with a verifiable result.
    Tools,
    /// Observes a URL and its contents.
    Web,
}

/// Effects verified outside the model's textual answer.
#[derive(Debug, Clone, Default, PartialEq, Eq)]
pub struct CanaryEffectsV2 {
    /// Nonce written outside the prompt.
    pub expected_nonce: Option<String>,
    /// Exact answer observed.
    pub response: Option<String>,
    /// Allowlisted relative path expected.
    pub expected_artifact: Option<String>,
    /// Relative path actually created.
    pub observed_artifact: Option<String>,
    /// Digest expected of the contents.
    pub expected_artifact_digest: Option<String>,
    /// Digest observed of the contents.
    pub observed_artifact_digest: Option<String>,
    /// Writes outside the allowed artifact.
    pub lateral_writes: Vec<String>,
    /// Web source observed.
    pub source_url: Option<String>,
    /// HTTP status observed.
    pub source_status: Option<u16>,
    /// Digest of the web contents observed.
    pub source_digest: Option<String>,
}

/// Sealed receipt of a canary with verifiable limits and effects.
#[derive(Debug, Clone, PartialEq, Eq)]
pub struct CapabilityCanaryReceiptV2 {
    /// Closed version, 2.
    pub schema_version: u16,
    /// Exact route probed.
    pub route: RouteRef,
    /// Exact revision probed.
    pub model_revision: String,
    /// Scenario run.
    pub scenario: CanaryScenarioV2,
    /// Manifest used.
    pub manifest_hash: String,
    /// Grant consumed.
    pub grant_id: String,
    /// Limits of that run.
    pub limits: GrantLimits,
    /// Events observed, in order.
    pub tool_events: Vec<ToolEventV2>,
    /// Effects observed outside the prose.
    pub effects: CanaryEffectsV2,
    /// Expiry of the receipt.
    pub expires_at: u64,
    /// Positive outcome of the structural validation.
    pub positive: bool,
    /// Canonical hash of the receipt.
    pub receipt_hash: String,
}

/// Stable validation or conflict failure of an operational document.
#[derive(Debug, Clone, PartialEq, Eq)]
pub enum OperationalError {
    /// Invalid document.
    Invalid(String),
    /// Base or contents changed before applying.
    Conflict(&'static str),
    /// The canonical form could not be produced.
    Serialization(String),
}

/// A non-blank text of at most 4096 bytes.
pub open spec fn text_ok(s: Seq<char>) -> bool {
    !is_blank(s) && utf8_len(s) <= 4096
}

/// Checks a bounded, non-blank text field.
pub fn validate_text(field: &str, value: &str) -> (r: Result<(), OperationalError>)
    ensures
        r is Ok <==> text_ok(value@),
        r matches Err(e) ==> e matches OperationalError::Invalid(m) && m@ == text_message(field@),
{
    if is_blank_text(value) || value.as_bytes().len() > 4096 {
        let mut m = String::from_str(field);
        m.append(" must be non-empty and bounded");
        return Err(OperationalError::Invalid(m));
    }
    Ok(())
}

/// Message of a blank or oversized text field.
pub open spec fn text_message(field: Seq<char>) -> Seq<char> {
    field + " must be non-empty and bounded"@
}

/// Message of a malformed hash field.
pub open spec fn hash_message(field: Seq<char>) -> Seq<char> {
    field + " must be sha256:<hex>"@
}

/// An `http://` or `https://` URL.
pub open spec fn url_ok(s: Seq<char>) -> bool {
    (s.len() >= 8 && s.subrange(0, 8) == "https://"@) || (s.len() >= 7 && s.subrange(0, 7) == "http://"@)
}

fn starts_with(s: &str, prefix: &str) -> (r: bool)
    ensures
        r == (s@.len() >= prefix@.len() && s@.subrange(0, prefix@.len() as int) == prefix@),
{
    let n = s.unicode_len();
    let m = prefix.unicode_len();
    if n < m {
        return false;
    }
    let mut i: usize = 0;
    while i < m
        invariant
            n == s@.len(),
            m == prefix@.len(),
            m <= n,
            i <= m,
            forall|j: int| 0 <= j < i ==> s@[j] == prefix@[j],
        decreases m - i,
    {
        if s.get_char(i) != prefix.get_char(i) {
            assert(s@.subrange(0, m as int)[i as int] != prefix@[i as int]);
            return false;
        }
        i = i + 1;
    }
    assert(s@.subrange(0, m as int) =~= prefix@);
    true
}

/// Checks that a source is an HTTP or HTTPS URL.
pub fn validate_url(value: &str) -> (r: Result<(), OperationalError>)
    ensures
        r is Ok <==> url_ok(value@),
        r matches Err(e) ==> e matches OperationalError::Invalid(m) && m@ == "source_url must be http(s)"@,
{
    proof {
        reveal_strlit("https://");
        reveal_strlit("http://");
    }
    if !(starts_with(value, "https://") || starts_with(value, "http://")) {
        return Err(OperationalError::Invalid(String::from_str("source_url must be http(s)")));
    }
    Ok(())
}

/// Checks a `sha256:<hex>` reference.
pub fn validate_hash(field: &str, value: &str) -> (r: Result<(), OperationalError>)
    ensures
        r is Ok <==> is_sha256_ref(value@),
        r matches Err(e) ==> e matches OperationalError::Invalid(m) && m@ == hash_message(field@),
{
    if !is_sha256_reference(value) {
        let mut m = String::from_str(field);
        m.append(" must be sha256:<hex>");
        return Err(OperationalError::Invalid(m));
    }
    Ok(())
}

/// Two optional texts with the same contents.
pub open spec fn same_opt(a: Option<String>, b: Option<String>) -> bool {
    match (a, b) {
        (None, None) => true,
        (Some(x), Some(y)) => x@ == y@,
        _ => false,
    }
}

fn same_opt_exec(a: &Option<String>, b: &Option<String>) -> (r: bool)
    ensures
        r == same_opt(*a, *b),
{
    match (a, b) {
        (None, None) => true,
        (Some(x), Some(y)) => *x == *y,
        _ => false,
    }
}

/// An optional text that is present and a `sha256:<hex>` reference.
pub open spec fn present_hash(o: Option<String>) -> bool {
    o matches Some(h) && is_sha256_ref(h@)
}

/// Every event names a bounded tool, keeps a bounded result and a well-formed digest.
pub open spec fn events_ok(events: Seq<ToolEventV2>) -> bool {
    forall|i: int| 0 <= i < events.len() ==> {
        let e = #[trigger] events[i];
        &&& text_ok(e.tool@)
        &&& (e.result matches Some(r) ==> utf8_len(r@) <= 4096)
        &&& (e.result_digest matches Some(d) ==> is_sha256_ref(d@))
    }
}

/// Some event succeeded.
pub open spec fn has_success(events: Seq<ToolEventV2>) -> bool {
    exists|i: int| 0 <= i < events.len() && (#[trigger] events[i]).success
}

/// Some successful event carries a result digest.
pub open spec fn has_success_digest(events: Seq<ToolEventV2>) -> bool {
    exists|i: int| 0 <= i < events.len() && (#[trigger] events[i]).success && events[i].result_digest is Some
}

/// Some successful event observed this URL with this status.
pub open spec fn has_success_source(events: Seq<ToolEventV2>, url: Seq<char>, status: Option<u16>) -> bool {
    exists|i: int| 0 <= i < events.len() && (#[trigger] events[i]).success
        && (events[i].source_url matches Some(u) && u@ == url) && events[i].source_status == status
}

/// What the scenario demands of the effects.
pub open spec fn scenario_ok(scenario: CanaryScenarioV2, effects: CanaryEffectsV2, events: Seq<ToolEventV2>) -> bool {
    match scenario {
        CanaryScenarioV2::Tools => has_success_digest(events),
        CanaryScenarioV2::Read => effects.expected_nonce is Some && same_opt(effects.expected_nonce, effects.response),
        CanaryScenarioV2::Write => {
            &&& effects.expected_artifact is Some
            &&& same_opt(effects.expected_artifact, effects.observed_artifact)
            &&& effects.expected_artifact_digest is Some
            &&& same_opt(effects.expected_artifact_digest, effects.observed_artifact_digest)
            &&& effects.lateral_writes@.len() == 0
            &&& present_hash(effects.expected_artifact_digest)
        },
        CanaryScenarioV2::Web => {
            &&& effects.source_url matches Some(url) && url_ok(url@)
            &&& effects.source_status matches Some(s) && 200 <= s <= 399
            &&& present_hash(effects.source_digest)
            &&& has_success_source(events, effects.source_url->0@, effects.source_status)
        },
    }
}

/// The effects of a canary receipt are exact and verifiable.
pub open spec fn effects_valid(r: CapabilityCanaryReceiptV2) -> bool {
    &&& text_ok(r.model_revision@)
    &&& text_ok(r.grant_id@)
    &&& is_sha256_ref(r.manifest_hash@)
    &&& r.limits.all_positive()
    &&& r.expires_at != 0
    &&& has_success(r.tool_events@)
    &&& events_ok(r.tool_events@)
    &&& scenario_ok(r.scenario, r.effects, r.tool_events@)
}

/// What is wrong with the tool event at a position, if anything.
pub open spec fn event_problem(events: Seq<ToolEventV2>, i: int) -> Option<Seq<char>> {
    let e = events[i];
    if !text_ok(e.tool@) {
        Some(text_message("tool_events.tool"@))
    } else if e.result is Some && utf8_len(e.result.unwrap()@) > 4096 {
        Some("tool event result exceeds 4096 bytes"@)
    } else if e.result_digest is Some && !is_sha256_ref(e.result_digest.unwrap()@) {
        Some(hash_message("tool_events.result_digest"@))
    } else {
        None
    }
}

/// [`event_problem`] at each position.
pub open spec fn event_check(events: Seq<ToolEventV2>) -> spec_fn(int) -> Option<Seq<char>> {
    |i: int| event_problem(events, i)
}

/// What the scenario finds wrong with the effects, as its message.
pub open spec fn scenario_problem(scenario: CanaryScenarioV2, effects: CanaryEffectsV2, events: Seq<ToolEventV2>) -> Option<Seq<char>> {
    match scenario {
        CanaryScenarioV2::Tools => if has_success_digest(events) { None } else {
            Some("tools requires a successful result digest"@)
        },
        CanaryScenarioV2::Read => if effects.expected_nonce is Some && same_opt(effects.expected_nonce, effects.response) {
            None
        } else {
            Some("read requires the exact external nonce"@)
        },
        CanaryScenarioV2::Write => if !(effects.expected_artifact is Some
            && same_opt(effects.expected_artifact, effects.observed_artifact)
            && effects.expected_artifact_digest is Some
            && same_opt(effects.expected_artifact_digest, effects.observed_artifact_digest)
            && effects.lateral_writes@.len() == 0) {
            Some("write requires one exact artifact and no lateral writes"@)
        } else if !present_hash(effects.expected_artifact_digest) {
            Some(hash_message("effects.expected_artifact_digest"@))
        } else {
            None
        },
        CanaryScenarioV2::Web => if effects.source_url is None {
            Some("web requires a source URL"@)
        } else if !url_ok(effects.source_url->0@) {
            Some("source_url must be http(s)"@)
        } else if !(effects.source_status matches Some(s) && 200 <= s <= 399) {
            Some("web requires a successful source status"@)
        } else if !present_hash(effects.source_digest) {
            Some(hash_message("effects.source_digest"@))
        } else if !has_success_source(events, effects.source_url->0@, effects.source_status) {
            Some("web source must come from a successful tool event"@)
        } else {
            None
        },
    }
}

/// The first rule the effects of a receipt break, as its message.
pub open spec fn effects_problem(r: CapabilityCanaryReceiptV2) -> Option<Seq<char>> {
    if !text_ok(r.model_revision@) {
        Some(text_message("model_revision"@))
    } else if !text_ok(r.grant_id@) {
        Some(text_message("grant_id"@))
    } else if !is_sha256_ref(r.manifest_hash@) {
        Some(hash_message("manifest_hash"@))
    } else if !r.limits.all_positive() {
        Some("all grant limits must be strictly positive"@)
    } else if r.expires_at == 0 {
        Some("expires_at must be positive"@)
    } else if !has_success(r.tool_events@) {
        Some("a successful tool event is required"@)
    } else if first_problem(event_check(r.tool_events@), r.tool_events@.len() as int) is Some {
        first_problem(event_check(r.tool_events@), r.tool_events@.len() as int)
    } else {
        scenario_problem(r.scenario, r.effects, r.tool_events@)
    }
}

fn invalid(message: &str) -> (e: OperationalError)
    ensures
        e matches OperationalError::Invalid(m) && m@ == message@,
{
    OperationalError::Invalid(String::from_str(message))
}

fn find_success(events: &Vec<ToolEventV2>) -> (r: bool)
    ensures
        r == has_success(events@),
{
    let mut i: usize = 0;
    while i < events.len()
        invariant
            i <= events@.len(),
            forall|j: int| 0 <= j < i ==> !(#[trigger] events@[j]).success,
        decreases events@.len() - i,
    {
        if events[i].success {
            return true;
        }
        i = i + 1;
    }
    false
}

fn find_success_digest(events: &Vec<ToolEventV2>) -> (r: bool)
    ensures
        r == has_success_digest(events@),
{
    let mut i: usize = 0;
    while i < events.len()
        invariant
            i <= events@.len(),
            forall|j: int| 0 <= j < i ==> !((#[trigger] events@[j]).success && events@[j].result_digest is Some),
        decreases events@.len() - i,
    {
        if events[i].success && events[i].result_digest.is_some() {
            return true;
        }
        i = i + 1;
    }
    false
}

fn find_success_source(events: &Vec<ToolEventV2>, url: &String, status: Option<u16>) -> (r: bool)
    ensures
        r == has_success_source(events@, url@, status),
{
    let mut i: usize = 0;
    while i < events.len()
        invariant
            i <= events@.len(),
            forall|j: int| 0 <= j < i ==> !((#[trigger] events@[j]).success
                && (events@[j].source_url matches Some(u) && u@ == url@) && events@[j].source_status == status),
        decreases events@.len() - i,
    {
        let e = &events[i];
        let same_url = match &e.source_url {
            Some(u) => *u == *url,
            None => false,
        };
        if e.success && same_url && e.source_status == status {
            return true;
        }
        i = i + 1;
    }
    false
}

fn validate_events(events: &Vec<ToolEventV2>) -> (r: Result<(), OperationalError>)
    ensures
        r is Ok <==> events_ok(events@),
        r is Ok <==> first_problem(event_check(events@), events@.len() as int) is None,
        r matches Err(e) ==> (e matches OperationalError::Invalid(m)
            && Some(m@) == first_problem(event_check(events@), events@.len() as int)),
{
    proof {
        reveal_strlit("tool event result exceeds 4096 bytes");
        reveal_strlit("tool_events.tool");
        reveal_strlit("tool_events.result_digest");
    }
    let ghost f = event_check(events@);
    let mut i: usize = 0;
    while i < events.len()
        invariant
            i <= events@.len(),
            f == event_check(events@),
            first_problem(f, i as int) is None,
            forall|j: int| 0 <= j < i ==> {
                let e = #[trigger] events@[j];
                &&& text_ok(e.tool@)
                &&& (e.result matches Some(r) ==> utf8_len(r@) <= 4096)
                &&& (e.result_digest matches Some(d) ==> is_sha256_ref(d@))
            },
        decreases events@.len() - i,
    {
        let e = &events[i];
        match validate_text("tool_events.tool", e.tool.as_str()) {
            Err(err) => {
                proof { lemma_first_problem_at(f, i as int, events@.len() as int); }
                return Err(err);
            },
            Ok(()) => {},
        }
        if let Some(result) = &e.result {
            if result.as_str().as_bytes().len() > 4096 {
                proof { lemma_first_problem_at(f, i as int, events@.len() as int); }
                return Err(invalid("tool event result exceeds 4096 bytes"));
            }
        }
        if let Some(digest) = &e.result_digest {
            match validate_hash("tool_events.result_digest", digest.as_str()) {
                Err(err) => {
                    proof { lemma_first_problem_at(f, i as int, events@.len() as int); }
                    return Err(err);
                },
                Ok(()) => {},
            }
        }
        assert(event_problem(events@, i as int) is None);
        assert(first_problem(f, i + 1) is None);
        i = i + 1;
    }
    Ok(())
}

fn validate_scenario(scenario: CanaryScenarioV2, effects: &CanaryEffectsV2, events: &Vec<ToolEventV2>) -> (r: Result<(), OperationalError>)
    ensures
        r is Ok <==> scenario_ok(scenario, *effects, events@),
        r is Ok <==> scenario_problem(scenario, *effects, events@) is None,
        r matches Err(e) ==> (e matches OperationalError::Invalid(m) && Some(m@) == scenario_problem(scenario, *effects, events@)),
{
    proof {
        reveal_strlit("tools requires a successful result digest");
        reveal_strlit("read requires the exact external nonce");
        reveal_strlit("write requires one exact artifact and no lateral writes");
        reveal_strlit("effects.expected_artifact_digest");
        reveal_strlit("web requires a source URL");
        reveal_strlit("web requires a successful source status");
        reveal_strlit("effects.source_digest");
        reveal_strlit("effects.source_digest must be sha256:<hex>");
        reveal_strlit(" must be sha256:<hex>");
        reveal_strlit("web source must come from a successful tool event");
    }
    match scenario {
        CanaryScenarioV2::Tools => {
            if !find_success_digest(events) {
                return Err(invalid("tools requires a successful result digest"));
            }
        },
        CanaryScenarioV2::Read => {
            if effects.expected_nonce.is_none() || !same_opt_exec(&effects.expected_nonce, &effects.response) {
                return Err(invalid("read requires the exact external nonce"));
            }
        },
        CanaryScenarioV2::Write => {
            if effects.expected_artifact.is_none() || !same_opt_exec(&effects.expected_artifact, &effects.observed_artifact)
                || effects.expected_artifact_digest.is_none()
                || !same_opt_exec(&effects.expected_artifact_digest, &effects.observed_artifact_digest)
                || effects.lateral_writes.len() != 0 {
                return Err(invalid("write requires one exact artifact and no lateral writes"));
            }
            match &effects.expected_artifact_digest {
                Some(d) => validate_hash("effects.expected_artifact_digest", d.as_str())?,
                None => {},
            }
        },
        CanaryScenarioV2::Web => {
            let url = match &effects.source_url {
                Some(url) => url,
                None => {
                    return Err(invalid("web requires a source URL"));
                },
            };
            validate_url(url.as_str())?;
            let status_ok = match effects.source_status {
                Some(s) => 200 <= s && s <= 399,
                None => false,
            };
            if !status_ok {
                return Err(invalid("web requires a successful source status"));
            }
            match &effects.source_digest {
                Some(d) => validate_hash("effects.source_digest", d.as_str())?,
                None => {
                    return Err(invalid("effects.source_digest must be sha256:<hex>"));
                },
            }
            if !find_success_source(events, url, effects.source_status) {
                return Err(invalid("web source must come from a successful tool event"));
            }
        },
    }
    Ok(())
}

impl CapabilityCanaryReceiptV2 {
    /// Validates the exact effects of the receipt.
    pub fn validate_effects(&self) -> (r: Result<(), OperationalError>)
        ensures
            r is Ok <==> effects_valid(*self),
            r is Ok <==> effects_problem(*self) is None,
            r matches Err(e) ==> (e matches OperationalError::Invalid(m) && Some(m@) == effects_problem(*self)),
    {
        proof {
            reveal_strlit("model_revision");
            reveal_strlit("grant_id");
            reveal_strlit("manifest_hash");
            reveal_strlit("all grant limits must be strictly positive");
            reveal_strlit("expires_at must be positive");
            reveal_strlit("a successful tool event is required");
        }
        validate_text("model_revision", self.model_revision.as_str())?;
        validate_text("grant_id", self.grant_id.as_str())?;
        validate_hash("manifest_hash", self.manifest_hash.as_str())?;
        if self.limits.validate().is_err() {
            return Err(invalid("all grant limits must be strictly positive"));
        }
        if self.expires_at == 0 {
            return Err(invalid("expires_at must be positive"));
        }
        if !find_success(&self.tool_events) {
            return Err(invalid("a successful tool event is required"));
        }
        validate_events(&self.tool_events)?;
        validate_scenario(self.scenario, &self.effects, &self.tool_events)?;
        Ok(())
    }
}

/// Sort key of a tool event: tool, artifact, source URL.
pub open spec fn event_key(e: ToolEventV2) -> (Option<String>, Option<String>, Option<String>) {
    (Some(e.tool), e.artifact, e.source_url)
}

impl Ordered for ToolEventV2 {
    open spec fn precedes(&self, other: &Self) -> bool {
        triple_lt(event_key(*self), event_key(*other))
    }

    proof fn precedes_irreflexive(a: &Self) {
        lemma_triple_lt(event_key(*a), event_key(*a), event_key(*a));
    }

    proof fn precedes_transitive(a: &Self, b: &Self, c: &Self) {
        lemma_triple_lt(event_key(*a), event_key(*b), event_key(*c));
    }

    fn less(&self, other: &Self) -> (r: bool) {
        let a = (Some(self.tool.clone()), copy_opt_string(&self.artifact), copy_opt_string(&self.source_url));
        let b = (Some(other.tool.clone()), copy_opt_string(&other.artifact), copy_opt_string(&other.source_url));
        triple_less(&a, &b)
    }
}

/// JSON of a tool event.
pub open spec fn event_json(e: ToolEventV2) -> Seq<u8> {
    event_head(e) + event_tail(e)
}

/// First half of a tool event's JSON.
pub open spec fn event_head(e: ToolEventV2) -> Seq<u8> {
    utf8("{\"tool\":"@) + json_text(e.tool@) + utf8(",\"success\":"@) + json_bool(e.success)
        + utf8(",\"result\":"@) + json_opt_text(e.result)
}

/// Second half of a tool event's JSON.
pub open spec fn event_tail(e: ToolEventV2) -> Seq<u8> {
    utf8(",\"result_digest\":"@) + json_opt_text(e.result_digest) + utf8(",\"artifact\":"@)
        + json_opt_text(e.artifact) + utf8(",\"source_url\":"@) + json_opt_text(e.source_url)
        + utf8(",\"source_status\":"@) + json_opt_u16(e.source_status) + seq![125u8]
}

/// Items of the JSON array of tool events.
pub open spec fn event_items(es: Seq<ToolEventV2>) -> Seq<u8>
    decreases es.len(),
{
    if es.len() == 0 {
        Seq::empty()
    } else if es.len() == 1 {
        event_json(es[0])
    } else {
        event_items(es.drop_last()) + seq![44u8] + event_json(es.last())
    }
}

/// JSON of the effects, in four parts.
pub open spec fn effects_json(e: CanaryEffectsV2) -> Seq<u8> {
    effects_part1(e) + effects_part2(e) + effects_part3(e) + effects_part4(e)
}

/// Nonce and response.
pub open spec fn effects_part1(e: CanaryEffectsV2) -> Seq<u8> {
    utf8("{\"expected_nonce\":"@) + json_opt_text(e.expected_nonce) + utf8(",\"response\":"@) + json_opt_text(e.response)
}

/// Artifacts.
pub open spec fn effects_part2(e: CanaryEffectsV2) -> Seq<u8> {
    utf8(",\"expected_artifact\":"@) + json_opt_text(e.expected_artifact) + utf8(",\"observed_artifact\":"@)
        + json_opt_text(e.observed_artifact)
}

/// Artifact digests and lateral writes.
pub open spec fn effects_part3(e: CanaryEffectsV2) -> Seq<u8> {
    utf8(",\"expected_artifact_digest\":"@) + json_opt_text(e.expected_artifact_digest)
        + utf8(",\"observed_artifact_digest\":"@) + json_opt_text(e.observed_artifact_digest)
        + utf8(",\"lateral_writes\":"@) + json_text_array(e.lateral_writes@)
}

/// Web source.
pub open spec fn effects_part4(e: CanaryEffectsV2) -> Seq<u8> {
    utf8(",\"source_url\":"@) + json_opt_text(e.source_url) + utf8(",\"source_status\":"@)
        + json_opt_u16(e.source_status) + utf8(",\"source_digest\":"@) + json_opt_text(e.source_digest) + seq![125u8]
}

/// JSON name of a scenario.
pub open spec fn scenario_name(s: CanaryScenarioV2) -> Seq<char> {
    match s {
        CanaryScenarioV2::Read => "read"@,
        CanaryScenarioV2::Write => "write"@,
        CanaryScenarioV2::Tools => "tools"@,
        CanaryScenarioV2::Web => "web"@,
    }
}

/// JSON of grant limits.
pub open spec fn limits_json(l: GrantLimits) -> Seq<u8> {
    utf8("{\"requests\":"@) + json_number(l.requests as nat) + utf8(",\"input_tokens\":"@)
        + json_number(l.input_tokens as nat) + utf8(",\"output_tokens\":"@) + json_number(l.output_tokens as nat)
        + utf8(",\"wall_time_ms\":"@) + json_number(l.wall_time_ms as nat) + seq![125u8]
}

/// Canonical body of a canary receipt: every field but the seal, compact JSON.
pub open spec fn canary_body(r: CapabilityCanaryReceiptV2) -> Seq<u8> {
    utf8("{\"schema_version\":"@) + json_number(r.schema_version as nat) + utf8(",\"route\":"@)
        + json_text(r.route@) + utf8(",\"model_revision\":"@) + json_text(r.model_revision@)
        + utf8(",\"scenario\":"@) + json_text(scenario_name(r.scenario)) + utf8(",\"manifest_hash\":"@)
        + json_text(r.manifest_hash@) + utf8(",\"grant_id\":"@) + json_text(r.grant_id@)
        + utf8(",\"limits\":"@) + limits_json(r.limits) + utf8(",\"tool_events\":"@)
        + seq![91u8] + event_items(r.tool_events@) + seq![93u8] + utf8(",\"effects\":"@)
        + effects_json(r.effects) + utf8(",\"expires_at\":"@) + json_number(r.expires_at as nat)
        + utf8(",\"positive\":"@) + json_bool(r.positive) + seq![125u8]
}

fn push_event_head(out: &mut Vec<u8>, e: &ToolEventV2)
    ensures
        final(out)@ == old(out)@ + event_head(*e),
{
    let ghost start = out@;
    push_text(out, "{\"tool\":");
    push_json_string(out, e.tool.as_str());
    push_text(out, ",\"success\":");
    push_json_bool(out, e.success);
    push_text(out, ",\"result\":");
    push_json_opt_text(out, &e.result);
    assert(out@ =~= start + event_head(*e));
}

fn push_event_tail(out: &mut Vec<u8>, e: &ToolEventV2)
    ensures
        final(out)@ == old(out)@ + event_tail(*e),
{
    let ghost start = out@;
    push_text(out, ",\"result_digest\":");
    push_json_opt_text(out, &e.result_digest);
    push_text(out, ",\"artifact\":");
    push_json_opt_text(out, &e.artifact);
    push_text(out, ",\"source_url\":");
    push_json_opt_text(out, &e.source_url);
    push_text(out, ",\"source_status\":");
    push_json_opt_u16(out, e.source_status);
    out.push(125u8);
    assert(out@ =~= start + event_tail(*e));
}

fn push_event(out: &mut Vec<u8>, e: &ToolEventV2)
    ensures
        final(out)@ == old(out)@ + event_json(*e),
{
    let ghost start = out@;
    push_event_head(out, e);
    push_event_tail(out, e);
    assert(out@ =~= start + event_json(*e));
}

fn push_events(out: &mut Vec<u8>, es: &Vec<ToolEventV2>)
    ensures
        final(out)@ == old(out)@ + seq![91u8] + event_items(es@) + seq![93u8],
{
    let ghost start = out@;
    out.push(91u8);
    let mut i: usize = 0;
    while i < es.len()
        invariant
            i <= es@.len(),
            out@ == start + seq![91u8] + event_items(es@.subrange(0, i as int)),
        decreases es@.len() - i,
    {
        if i > 0 {
            out.push(44u8);
        }
        push_event(out, &es[i]);
        proof {
            let p = es@.subrange(0, i + 1);
            assert(p.drop_last() =~= es@.subrange(0, i as int));
            if i == 0 {
                assert(event_items(p) == event_json(p[0]));
            }
            assert(out@ =~= start + seq![91u8] + event_items(p));
        }
        i = i + 1;
    }
    assert(es@.subrange(0, es@.len() as int) =~= es@);
    out.push(93u8);
    assert(out@ =~= start + seq![91u8] + event_items(es@) + seq![93u8]);
}

fn push_effects_part1(out: &mut Vec<u8>, e: &CanaryEffectsV2)
    ensures
        final(out)@ == old(out)@ + effects_part1(*e),
{
    let ghost start = out@;
    push_text(out, "{\"expected_nonce\":");
    push_json_opt_text(out, &e.expected_nonce);
    push_text(out, ",\"response\":");
    push_json_opt_text(out, &e.response);
    assert(out@ =~= start + effects_part1(*e));
}

fn push_effects_part2(out: &mut Vec<u8>, e: &CanaryEffectsV2)
    ensures
        final(out)@ == old(out)@ + effects_part2(*e),
{
    let ghost start = out@;
    push_text(out, ",\"expected_artifact\":");
    push_json_opt_text(out, &e.expected_artifact);
    push_text(out, ",\"observed_artifact\":");
    push_json_opt_text(out, &e.observed_artifact);
    assert(out@ =~= start + effects_part2(*e));
}

fn push_effects_part3(out: &mut Vec<u8>, e: &CanaryEffectsV2)
    ensures
        final(out)@ == old(out)@ + effects_part3(*e),
{
    let ghost start = out@;
    push_text(out, ",\"expected_artifact_digest\":");
    push_json_opt_text(out, &e.expected_artifact_digest);
    push_text(out, ",\"observed_artifact_digest\":");
    push_json_opt_text(out, &e.observed_artifact_digest);
    push_text(out, ",\"lateral_writes\":");
    push_json_text_array(out, &e.lateral_writes);
    assert(out@ =~= start + effects_part3(*e));
}

fn push_effects_part4(out: &mut Vec<u8>, e: &CanaryEffectsV2)
    ensures
        final(out)@ == old(out)@ + effects_part4(*e),
{
    let ghost start = out@;
    push_text(out, ",\"source_url\":");
    push_json_opt_text(out, &e.source_url);
    push_text(out, ",\"source_status\":");
    push_json_opt_u16(out, e.source_status);
    push_text(out, ",\"source_digest\":");
    push_json_opt_text(out, &e.source_digest);
    out.push(125u8);
    assert(out@ =~= start + effects_part4(*e));
}

fn push_effects(out: &mut Vec<u8>, e: &CanaryEffectsV2)
    ensures
        final(out)@ == old(out)@ + effects_json(*e),
{
    let ghost start = out@;
    push_effects_part1(out, e);
    push_effects_part2(out, e);
    push_effects_part3(out, e);
    push_effects_part4(out, e);
    assert(out@ =~= start + effects_json(*e));
}

/// Appends the JSON of grant limits.
pub fn push_limits(out: &mut Vec<u8>, l: GrantLimits)
    ensures
        final(out)@ == old(out)@ + limits_json(l),
{
    let ghost start = out@;
    push_text(out, "{\"requests\":");
    push_json_u64(out, l.requests);
    push_text(out, ",\"input_tokens\":");
    push_json_u64(out, l.input_tokens);
    push_text(out, ",\"output_tokens\":");
    push_json_u64(out, l.output_tokens);
    push_text(out, ",\"wall_time_ms\":");
    push_json_u64(out, l.wall_time_ms);
    out.push(125u8);
    assert(out@ =~= start + limits_json(l));
}

fn scenario_str(s: CanaryScenarioV2) -> (r: &'static str)
    ensures
        r@ == scenario_name(s),
{
    proof {
        reveal_strlit("read");
        reveal_strlit("write");
        reveal_strlit("tools");
        reveal_strlit("web");
    }
    match s {
        CanaryScenarioV2::Read => "read",
        CanaryScenarioV2::Write => "write",
        CanaryScenarioV2::Tools => "tools",
        CanaryScenarioV2::Web => "web",
    }
}

/// The receipt is positive, unexpired, valid and intact at `now`.
pub open spec fn positive_at(r: CapabilityCanaryReceiptV2, now: u64) -> bool {
    &&& r.positive
    &&& now < r.expires_at
    &&& effects_valid(r)
    &&& content_address(canary_body(r)) == r.receipt_hash@
}

proof fn lemma_events_permutation(s: Seq<ToolEventV2>, t: Seq<ToolEventV2>)
    requires
        s.to_multiset() == t.to_multiset(),
    ensures
        has_success(s) == has_success(t),
        has_success_digest(s) == has_success_digest(t),
        events_ok(s) == events_ok(t),
        forall|url: Seq<char>, status: Option<u16>| has_success_source(s, url, status) == has_success_source(t, url, status),
{
    broadcast use vstd::seq_lib::group_to_multiset_ensures;
    assert forall|a: ToolEventV2| s.contains(a) == t.contains(a) by {
        vstd::seq_lib::to_multiset_contains(s, a);
        vstd::seq_lib::to_multiset_contains(t, a);
    }
    if has_success(s) {
        let i = choose|i: int| 0 <= i < s.len() && (#[trigger] s[i]).success;
        assert(s.contains(s[i]));
        let j = choose|j: int| 0 <= j < t.len() && t[j] == s[i];
        assert(t[j].success);
    }
    if has_success(t) {
        let i = choose|i: int| 0 <= i < t.len() && (#[trigger] t[i]).success;
        assert(t.contains(t[i]));
        let j = choose|j: int| 0 <= j < s.len() && s[j] == t[i];
        assert(s[j].success);
    }
    if has_success_digest(s) {
        let i = choose|i: int| 0 <= i < s.len() && (#[trigger] s[i]).success && s[i].result_digest is Some;
        assert(s.contains(s[i]));
        let j = choose|j: int| 0 <= j < t.len() && t[j] == s[i];
        assert(t[j].success && t[j].result_digest is Some);
    }
    if has_success_digest(t) {
        let i = choose|i: int| 0 <= i < t.len() && (#[trigger] t[i]).success && t[i].result_digest is Some;
        assert(t.contains(t[i]));
        let j = choose|j: int| 0 <= j < s.len() && s[j] == t[i];
        assert(s[j].success && s[j].result_digest is Some);
    }
    if events_ok(s) {
        assert forall|i: int| 0 <= i < t.len() implies {
            let e = #[trigger] t[i];
            &&& text_ok(e.tool@)
            &&& (e.result matches Some(r) ==> utf8_len(r@) <= 4096)
            &&& (e.result_digest matches Some(d) ==> is_sha256_ref(d@))
        } by {
            assert(t.contains(t[i]));
            let j = choose|j: int| 0 <= j < s.len() && s[j] == t[i];
            assert(s[j] == t[i]);
        }
    }
    if events_ok(t) {
        assert forall|i: int| 0 <= i < s.len() implies {
            let e = #[trigger] s[i];
            &&& text_ok(e.tool@)
            &&& (e.result matches Some(r) ==> utf8_len(r@) <= 4096)
            &&& (e.result_digest matches Some(d) ==> is_sha256_ref(d@))
        } by {
            assert(s.contains(s[i]));
            let j = choose|j: int| 0 <= j < t.len() && t[j] == s[i];
            assert(t[j] == s[i]);
        }
    }
    assert forall|url: Seq<char>, status: Option<u16>| has_success_source(s, url, status) == has_success_source(t, url, status) by {
        if has_success_source(s, url, status) {
            let i = choose|i: int| 0 <= i < s.len() && (#[trigger] s[i]).success
                && (s[i].source_url matches Some(u) && u@ == url) && s[i].source_status == status;
            assert(s.contains(s[i]));
            let j = choose|j: int| 0 <= j < t.len() && t[j] == s[i];
            assert(t[j] == s[i]);
        }
        if has_success_source(t, url, status) {
            let i = choose|i: int| 0 <= i < t.len() && (#[trigger] t[i]).success
                && (t[i].source_url matches Some(u) && u@ == url) && t[i].source_status == status;
            assert(t.contains(t[i]));
            let j = choose|j: int| 0 <= j < s.len() && s[j] == t[i];
            assert(s[j] == t[i]);
        }
    }
}

impl CapabilityCanaryReceiptV2 {
    /// Canonical bytes of the receipt body, the seal left out.
    pub fn body_bytes(&self) -> (b: Vec<u8>)
        ensures
            b@ == canary_body(*self),
    {
        let mut out: Vec<u8> = Vec::new();
        push_text(&mut out, "{\"schema_version\":");
        push_json_u64(&mut out, self.schema_version as u64);
        push_text(&mut out, ",\"route\":");
        push_json_string(&mut out, self.route.as_str());
        push_text(&mut out, ",\"model_revision\":");
        push_json_string(&mut out, self.model_revision.as_str());
        push_text(&mut out, ",\"scenario\":");
        push_json_string(&mut out, scenario_str(self.scenario));
        push_text(&mut out, ",\"manifest_hash\":");
        push_json_string(&mut out, self.manifest_hash.as_str());
        push_text(&mut out, ",\"grant_id\":");
        push_json_string(&mut out, self.grant_id.as_str());
        push_text(&mut out, ",\"limits\":");
        push_limits(&mut out, self.limits);
        push_text(&mut out, ",\"tool_events\":");
        push_events(&mut out, &self.tool_events);
        push_text(&mut out, ",\"effects\":");
        push_effects(&mut out, &self.effects);
        push_text(&mut out, ",\"expires_at\":");
        push_json_u64(&mut out, self.expires_at);
        push_text(&mut out, ",\"positive\":");
        push_json_bool(&mut out, self.positive);
        out.push(125u8);
        assert(out@ =~= canary_body(*self));
        out
    }

    /// Canonical hash of the receipt body.
    pub fn calculate_hash(&self) -> (h: String)
        ensures
            h@ == content_address(canary_body(*self)),
    {
        let body = self.body_bytes();
        content_hash(body.as_slice())
    }

    /// Whether the receipt is still positive, intact and unexpired.
    pub fn is_positive_at(&self, now: u64) -> (b: bool)
        ensures
            b == positive_at(*self, now),
    {
        self.positive && now < self.expires_at && self.validate_effects().is_ok() && self.calculate_hash() == self.receipt_hash
    }

    /// Validates exact effects and seals only a positive receipt: tool events
    /// and lateral writes are sorted first, then the body is hashed.
    pub fn new(
        route: RouteRef,
        model_revision: String,
        scenario: CanaryScenarioV2,
        manifest_hash: String,
        grant_id: String,
        limits: GrantLimits,
        tool_events: Vec<ToolEventV2>,
        effects: CanaryEffectsV2,
        expires_at: u64,
    ) -> (r: Result<CapabilityCanaryReceiptV2, OperationalError>)
        ensures
            r matches Err(e) ==> e is Invalid,
            r matches Ok(c) ==> ({
                &&& c.schema_version == 2
                &&& c.route == route
                &&& c.model_revision == model_revision
                &&& c.scenario == scenario
                &&& c.manifest_hash == manifest_hash
                &&& c.grant_id == grant_id
                &&& c.limits == limits
                &&& sorted_by(c.tool_events@)
                &&& c.tool_events@.to_multiset() == tool_events@.to_multiset()
                &&& c.tool_events@ == stable_sorted(tool_events@)
                &&& sorted_by(c.effects.lateral_writes@)
                &&& c.effects.lateral_writes@.to_multiset() == effects.lateral_writes@.to_multiset()
                &&& c.effects.lateral_writes@ == stable_sorted(effects.lateral_writes@)
                &&& c.effects == (CanaryEffectsV2 { lateral_writes: c.effects.lateral_writes, ..effects })
                &&& c.expires_at == expires_at
                &&& c.positive
                &&& c.receipt_hash@ == content_address(canary_body(c))
                &&& forall|now: u64| now < expires_at ==> #[trigger] positive_at(c, now)
            }),
            r is Ok <==> effects_valid(CapabilityCanaryReceiptV2 {
                schema_version: 2,
                route,
                model_revision,
                scenario,
                manifest_hash,
                grant_id,
                limits,
                tool_events,
                effects,
                expires_at,
                positive: true,
                receipt_hash: model_revision,
            }),
    {
        let ghost old_events = tool_events;
        let ghost old_effects = effects;
        let tool_events = sort(tool_events);
        let mut effects = effects;
        let mut writes: Vec<String> = Vec::new();
        std::mem::swap(&mut writes, &mut effects.lateral_writes);
        effects.lateral_writes = sort(writes);
        let mut receipt = CapabilityCanaryReceiptV2 {
            schema_version: 2,
            route,
            model_revision,
            scenario,
            manifest_hash,
            grant_id,
            limits,
            tool_events,
            effects,
            expires_at,
            positive: true,
            receipt_hash: String::new(),
        };
        proof {
            let original = CapabilityCanaryReceiptV2 {
                schema_version: 2,
                route: receipt.route,
                model_revision: receipt.model_revision,
                scenario,
                manifest_hash: receipt.manifest_hash,
                grant_id: receipt.grant_id,
                limits,
                tool_events: old_events,
                effects: old_effects,
                expires_at,
                positive: true,
                receipt_hash: receipt.model_revision,
            };
            lemma_events_permutation(old_events@, receipt.tool_events@);
            vstd::seq_lib::to_multiset_len(old_effects.lateral_writes@);
            vstd::seq_lib::to_multiset_len(receipt.effects.lateral_writes@);
            assert(effects_valid(receipt) == effects_valid(original));
        }
        receipt.validate_effects()?;
        let hash = receipt.calculate_hash();
        receipt.receipt_hash = hash;
        Ok(receipt)
    }
}

} // verus!
