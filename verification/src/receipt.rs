//! Exhaustive, sealed, append-only receipt of a run, and the links it must keep.

use vstd::prelude::*;
use vstd::string::*;

use crate::grant::{body_problem, body_valid, seal_matches, ExecutionGrantV1};
use crate::invocation::{InvocationFailure, TokenUsage};
use crate::journal::{closing_kind, is_terminal, journal_monotonic, check_journal, RunJournalEventV2, RunPhaseV2};
use crate::ledger::{amount_le, dim, nonzero, BudgetAmount};
use crate::route::RouteRef;
use crate::util::{copy_opt_string, first_problem, lemma_first_problem_at, Duplicate};
use crate::text::{content_address, content_hash, is_blank, is_blank_text, is_safe_id, is_safe_identifier, is_sha256_ref, is_sha256_reference, sha256_prefix, starts_with_sha256};

verus! {

/// Candidate evaluated by one generation.
#[derive(Debug, Clone, PartialEq, Eq)]
pub struct RunCandidateReceiptV2 {
    /// Exact route.
    pub route: RouteRef,
    /// Action evaluated.
    pub action: String,
    /// Canonical hash of the materialised candidate.
    pub candidate_hash: String,
}

/// Selection made before an attempt.
#[derive(Debug, Clone, PartialEq, Eq)]
pub struct RunDecisionReceiptV2 {
    /// Attempt number, from one.
    pub attempt: u64,
    /// State manifest opened for this selection.
    pub manifest_hash: String,
    /// Selected route.
    pub route: RouteRef,
    /// Hash of the selected candidate.
    pub candidate_hash: String,
}

/// Nature of a prior reservation.
#[derive(Debug, Clone, Copy, PartialEq, Eq, Structural)]
pub enum RunReservationKindV2 {
    /// Wait of an explicit retry.
    Wait,
    /// A single invocation.
    Attempt,
}

/// Durable reservation made before its effect.
#[derive(Debug, Clone, PartialEq, Eq)]
pub struct RunReservationReceiptV2 {
    /// Unique id within the grant.
    pub id: String,
    /// Kind of effect reserved.
    pub kind: RunReservationKindV2,
    /// Maximum charged before the effect.
    pub amount: BudgetAmount,
}

/// Known consumption, or conservative charge, of a reservation.
#[derive(Debug, Clone, PartialEq, Eq)]
pub struct RunConsumptionReceiptV2 {
    /// Reservation it belongs to.
    pub id: String,
    /// Amount finally charged.
    pub amount: BudgetAmount,
    /// `false` keeps the full reservation for an ambiguous result.
    pub known: bool,
}

/// Result of a single call, without implicit history.
#[derive(Debug, Clone, PartialEq, Eq)]
pub struct RunResultReceiptV2 {
    /// Attempt number.
    pub attempt: u64,
    /// Route invoked.
    pub route: RouteRef,
    /// Bounded output when known.
    pub output: Option<String>,
    /// Observed usage.
    pub usage: TokenUsage,
    /// Observed latency.
    pub latency_ms: u64,
    /// Provenance reported by the harness.
    pub provenance: Option<String>,
    /// Provider manifest actually materialised.
    pub provider_manifest_hash: Option<String>,
    /// Observed failure, if any.
    pub failure: Option<InvocationFailure>,
    /// The start was durable but no reliable result exists.
    pub outcome_unknown: bool,
}

/// The identity of the request a receipt belongs to.
#[derive(Debug, Clone, PartialEq, Eq)]
pub struct RunRequestRef {
    /// Request version.
    pub schema_version: u16,
    /// Run id of the request.
    pub id: String,
    /// Grant named by the request.
    pub grant_id: String,
}

/// Unsealed form of a final receipt: every fact the seal covers and its links check.
#[derive(Debug, Clone, PartialEq, Eq)]
pub struct RunReceiptDraftV2 {
    /// Closed version, 2.
    pub schema_version: u16,
    /// Run id.
    pub id: String,
    /// Creation instant, Unix UTC.
    pub created_at: u64,
    /// Identity of the public request.
    pub request: RunRequestRef,
    /// Complete historical grant.
    pub grant: ExecutionGrantV1,
    /// Explicit copy of the grant seal.
    pub grant_hash: String,
    /// Materialised and sealed candidates.
    pub candidates: Vec<RunCandidateReceiptV2>,
    /// Selections by attempt.
    pub decisions: Vec<RunDecisionReceiptV2>,
    /// Prior reservations.
    pub reservations: Vec<RunReservationReceiptV2>,
    /// Known or conservative consumptions.
    pub consumptions: Vec<RunConsumptionReceiptV2>,
    /// Complete durable journal.
    pub transitions: Vec<RunJournalEventV2>,
    /// Observed results.
    pub results: Vec<RunResultReceiptV2>,
    /// Terminal phase.
    pub final_phase: RunPhaseV2,
}

/// Stable reference published in the run state.
#[derive(Debug, Clone, PartialEq, Eq)]
pub struct RunReceiptReferenceV2 {
    /// Receipt id, equal to the run id.
    pub id: String,
    /// Final seal.
    pub receipt_hash: String,
}

/// Failure to validate a receipt.
#[derive(Debug, Clone, PartialEq, Eq)]
pub enum RunReceiptError {
    /// Incoherent contract.
    Invalid(String),
    /// The seal does not match the contents.
    HashMismatch,
    /// The id already owns an immutable receipt.
    AlreadyExists(String),
}

impl Duplicate for RunCandidateReceiptV2 {
    fn duplicate(&self) -> (r: Self) {
        RunCandidateReceiptV2 { route: self.route.clone(), action: self.action.clone(), candidate_hash: self.candidate_hash.clone() }
    }
}

impl Duplicate for RunDecisionReceiptV2 {
    fn duplicate(&self) -> (r: Self) {
        RunDecisionReceiptV2 {
            attempt: self.attempt,
            manifest_hash: self.manifest_hash.clone(),
            route: self.route.clone(),
            candidate_hash: self.candidate_hash.clone(),
        }
    }
}

impl Duplicate for RunReservationReceiptV2 {
    fn duplicate(&self) -> (r: Self) {
        RunReservationReceiptV2 { id: self.id.clone(), kind: self.kind, amount: self.amount }
    }
}

impl Duplicate for RunConsumptionReceiptV2 {
    fn duplicate(&self) -> (r: Self) {
        RunConsumptionReceiptV2 { id: self.id.clone(), amount: self.amount, known: self.known }
    }
}

impl Duplicate for RunResultReceiptV2 {
    fn duplicate(&self) -> (r: Self) {
        RunResultReceiptV2 {
            attempt: self.attempt,
            route: self.route.clone(),
            output: copy_opt_string(&self.output),
            usage: self.usage,
            latency_ms: self.latency_ms,
            provenance: copy_opt_string(&self.provenance),
            provider_manifest_hash: copy_opt_string(&self.provider_manifest_hash),
            failure: self.failure,
            outcome_unknown: self.outcome_unknown,
        }
    }
}

/// The candidate list holds a route/hash pair.
pub open spec fn has_candidate(cs: Seq<RunCandidateReceiptV2>, route: Seq<char>, hash: Seq<char>) -> bool {
    exists|i: int| 0 <= i < cs.len() && #[trigger] cs[i].route@ == route && cs[i].candidate_hash@ == hash
}

/// Candidates have a non-blank action and a well-formed hash, and no route/hash pair repeats.
pub open spec fn candidates_valid(cs: Seq<RunCandidateReceiptV2>) -> bool {
    &&& forall|i: int| 0 <= i < cs.len() ==> !is_blank((#[trigger] cs[i]).action@) && is_sha256_ref(cs[i].candidate_hash@)
    &&& forall|i: int, j: int| 0 <= i < j < cs.len() ==> !(#[trigger] cs[i].route@ == #[trigger] cs[j].route@ && cs[i].candidate_hash@ == cs[j].candidate_hash@)
}

/// Decisions number attempts from one without repeats, carry well-formed hashes
/// and point at a materialised candidate.
pub open spec fn decisions_valid(ds: Seq<RunDecisionReceiptV2>, cs: Seq<RunCandidateReceiptV2>) -> bool {
    &&& forall|i: int| 0 <= i < ds.len() ==> (#[trigger] ds[i]).attempt > 0
    &&& forall|i: int, j: int| 0 <= i < j < ds.len() ==> #[trigger] ds[i].attempt != #[trigger] ds[j].attempt
    &&& forall|i: int| 0 <= i < ds.len() ==> is_sha256_ref((#[trigger] ds[i]).manifest_hash@) && is_sha256_ref(ds[i].candidate_hash@)
    &&& forall|i: int| 0 <= i < ds.len() ==> has_candidate(cs, (#[trigger] ds[i]).route@, ds[i].candidate_hash@)
}

/// What a reservation of a kind may hold: an attempt reserves exactly one
/// request; a wait reserves wall time only.
pub open spec fn reservation_shape(r: RunReservationReceiptV2) -> bool {
    match r.kind {
        RunReservationKindV2::Attempt => r.amount.requests == 1,
        RunReservationKindV2::Wait => r.amount.requests == 0 && r.amount.input_tokens == 0
            && r.amount.output_tokens == 0 && r.amount.wall_time_ms > 0,
    }
}

/// Reservations have safe unique ids, charge something, and have their kind's shape.
pub open spec fn reservations_valid(rs: Seq<RunReservationReceiptV2>) -> bool {
    &&& forall|i: int| 0 <= i < rs.len() ==> is_safe_id((#[trigger] rs[i]).id@) && nonzero(rs[i].amount) && reservation_shape(rs[i])
    &&& forall|i: int, j: int| 0 <= i < j < rs.len() ==> #[trigger] rs[i].id@ != #[trigger] rs[j].id@
}

/// The reservation a consumption refers to.
pub open spec fn reservation_index(rs: Seq<RunReservationReceiptV2>, id: Seq<char>) -> int {
    choose|k: int| 0 <= k < rs.len() && #[trigger] rs[k].id@ == id
}

/// The reservation list holds an id.
pub open spec fn has_reservation(rs: Seq<RunReservationReceiptV2>, id: Seq<char>) -> bool {
    exists|k: int| 0 <= k < rs.len() && #[trigger] rs[k].id@ == id
}

/// Each consumption has a safe id of its own, refers to a reservation, never
/// exceeds it, and an ambiguous one keeps the whole reservation.
pub open spec fn consumptions_valid(cs: Seq<RunConsumptionReceiptV2>, rs: Seq<RunReservationReceiptV2>) -> bool {
    &&& forall|i: int| 0 <= i < cs.len() ==> is_safe_id((#[trigger] cs[i]).id@) && has_reservation(rs, cs[i].id@)
    &&& forall|i: int, j: int| 0 <= i < j < cs.len() ==> #[trigger] cs[i].id@ != #[trigger] cs[j].id@
    &&& forall|i: int| 0 <= i < cs.len() ==> amount_le((#[trigger] cs[i]).amount, rs[reservation_index(rs, cs[i].id@)].amount)
    &&& forall|i: int| 0 <= i < cs.len() ==> (!(#[trigger] cs[i]).known ==> cs[i].amount == rs[reservation_index(rs, cs[i].id@)].amount)
}

/// The journal is non-empty, monotonic, and closes with the event of the final phase.
pub open spec fn transitions_valid(ts: Seq<RunJournalEventV2>, created_at: u64, phase: RunPhaseV2) -> bool {
    &&& ts.len() > 0
    &&& journal_monotonic(ts, created_at)
    &&& is_terminal(phase)
    &&& ts.last().kind == closing_kind(phase)
}

/// A decision for the attempt names the route.
pub open spec fn decision_route_is(ds: Seq<RunDecisionReceiptV2>, attempt: u64, route: Seq<char>) -> bool {
    exists|k: int| 0 <= k < ds.len() && #[trigger] ds[k].attempt == attempt && ds[k].route@ == route
}

/// Results number attempts from one without repeats, match the decision of
/// their attempt, and claim nothing they cannot know.
pub open spec fn results_valid(res: Seq<RunResultReceiptV2>, ds: Seq<RunDecisionReceiptV2>) -> bool {
    &&& forall|i: int| 0 <= i < res.len() ==> (#[trigger] res[i]).attempt > 0
    &&& forall|i: int, j: int| 0 <= i < j < res.len() ==> #[trigger] res[i].attempt != #[trigger] res[j].attempt
    &&& forall|i: int| 0 <= i < res.len() ==> decision_route_is(ds, (#[trigger] res[i]).attempt, res[i].route@)
    &&& forall|i: int| 0 <= i < res.len() ==> ((#[trigger] res[i]).provider_manifest_hash matches Some(h) ==> is_sha256_ref(h@))
    &&& forall|i: int| 0 <= i < res.len() ==> ((#[trigger] res[i]).outcome_unknown ==> res[i].output is None && res[i].failure is None
        && res[i].usage == TokenUsage { input_tokens: 0, output_tokens: 0 })
    &&& forall|i: int| 0 <= i < res.len() ==> !((#[trigger] res[i]).failure is Some && res[i].output is Some)
}

/// Identity links between receipt, request and grant.
pub open spec fn identity_valid(d: RunReceiptDraftV2) -> bool {
    &&& d.schema_version == 2
    &&& is_safe_id(d.id@)
    &&& d.request.schema_version == 2
    &&& d.request.id@ == d.id@
    &&& d.request.grant_id@ == d.grant.id@
    &&& body_valid(d.grant)
    &&& seal_matches(d.grant)
    &&& d.grant_hash@ == d.grant.grant_hash@
    &&& is_sha256_ref(d.grant_hash@)
    &&& is_terminal(d.final_phase)
}

/// Every link a receipt must keep.
pub open spec fn draft_valid(d: RunReceiptDraftV2) -> bool {
    &&& identity_valid(d)
    &&& candidates_valid(d.candidates@)
    &&& decisions_valid(d.decisions@, d.candidates@)
    &&& reservations_valid(d.reservations@)
    &&& consumptions_valid(d.consumptions@, d.reservations@)
    &&& transitions_valid(d.transitions@, d.created_at, d.final_phase)
    &&& results_valid(d.results@, d.decisions@)
}

/// What is wrong with candidate `i`, given the ones before it.
pub open spec fn candidate_problem(cs: Seq<RunCandidateReceiptV2>, i: int) -> Option<Seq<char>> {
    if is_blank(cs[i].action@) {
        Some("candidate action cannot be empty"@)
    } else if !is_sha256_ref(cs[i].candidate_hash@) {
        Some(hash_problem(cs[i].candidate_hash@))
    } else if exists|j: int| 0 <= j < i && #[trigger] cs[j].route@ == cs[i].route@ && cs[j].candidate_hash@ == cs[i].candidate_hash@ {
        Some("candidate route/hash pairs must be unique"@)
    } else {
        None
    }
}

/// [`candidate_problem`] at each position.
pub open spec fn candidate_check(cs: Seq<RunCandidateReceiptV2>) -> spec_fn(int) -> Option<Seq<char>> {
    |i: int| candidate_problem(cs, i)
}

/// What is wrong with decision `i`, given the ones before it.
pub open spec fn decision_problem(ds: Seq<RunDecisionReceiptV2>, cs: Seq<RunCandidateReceiptV2>, i: int) -> Option<Seq<char>> {
    if ds[i].attempt == 0 || exists|j: int| 0 <= j < i && #[trigger] ds[j].attempt == ds[i].attempt {
        Some("decision attempts must be positive and unique"@)
    } else if !is_sha256_ref(ds[i].manifest_hash@) {
        Some(hash_problem(ds[i].manifest_hash@))
    } else if !is_sha256_ref(ds[i].candidate_hash@) {
        Some(hash_problem(ds[i].candidate_hash@))
    } else if !has_candidate(cs, ds[i].route@, ds[i].candidate_hash@) {
        Some("every decision must reference a materialized candidate"@)
    } else {
        None
    }
}

/// [`decision_problem`] at each position.
pub open spec fn decision_check(ds: Seq<RunDecisionReceiptV2>, cs: Seq<RunCandidateReceiptV2>) -> spec_fn(int) -> Option<Seq<char>> {
    |i: int| decision_problem(ds, cs, i)
}

/// What is wrong with reservation `i`, given the ones before it.
pub open spec fn reservation_problem(rs: Seq<RunReservationReceiptV2>, i: int) -> Option<Seq<char>> {
    if !is_safe_id(rs[i].id@) {
        Some("identifier contains unsupported characters"@)
    } else if !nonzero(rs[i].amount) || exists|j: int| 0 <= j < i && #[trigger] rs[j].id@ == rs[i].id@ {
        Some("reservations must be non-zero and uniquely identified"@)
    } else if !reservation_shape(rs[i]) {
        match rs[i].kind {
            RunReservationKindV2::Attempt => Some("an attempt reserves exactly one request"@),
            RunReservationKindV2::Wait => Some("a wait reserves wall time only"@),
        }
    } else {
        None
    }
}

/// [`reservation_problem`] at each position.
pub open spec fn reservation_check(rs: Seq<RunReservationReceiptV2>) -> spec_fn(int) -> Option<Seq<char>> {
    |i: int| reservation_problem(rs, i)
}

/// What is wrong with consumption `i`, given the ones before it.
pub open spec fn consumption_problem(cs: Seq<RunConsumptionReceiptV2>, rs: Seq<RunReservationReceiptV2>, i: int) -> Option<Seq<char>> {
    if !is_safe_id(cs[i].id@) {
        Some("identifier contains unsupported characters"@)
    } else if exists|j: int| 0 <= j < i && #[trigger] cs[j].id@ == cs[i].id@ {
        Some("a reservation can have at most one final consumption"@)
    } else if !has_reservation(rs, cs[i].id@) {
        Some("every consumption must reference a reservation"@)
    } else if !amount_le(cs[i].amount, rs[reservation_index(rs, cs[i].id@)].amount) {
        Some("consumption cannot exceed its reservation"@)
    } else if !cs[i].known && cs[i].amount != rs[reservation_index(rs, cs[i].id@)].amount {
        Some("ambiguous consumption must retain the full reservation"@)
    } else {
        None
    }
}

/// [`consumption_problem`] at each position.
pub open spec fn consumption_check(cs: Seq<RunConsumptionReceiptV2>, rs: Seq<RunReservationReceiptV2>) -> spec_fn(int) -> Option<Seq<char>> {
    |i: int| consumption_problem(cs, rs, i)
}

/// What is wrong with the journal of a receipt.
pub open spec fn transitions_problem(ts: Seq<RunJournalEventV2>, created_at: u64, phase: RunPhaseV2) -> Option<Seq<char>> {
    if ts.len() == 0 {
        Some("receipt transitions cannot be empty"@)
    } else if !journal_monotonic(ts, created_at) {
        Some("transition sequence and time must be monotonic"@)
    } else if !is_terminal(phase) {
        Some("receipt final phase is not terminal"@)
    } else if ts.last().kind != closing_kind(phase) {
        Some("last transition does not match final phase"@)
    } else {
        None
    }
}

/// What is wrong with result `i`, given the ones before it.
pub open spec fn result_problem(res: Seq<RunResultReceiptV2>, ds: Seq<RunDecisionReceiptV2>, i: int) -> Option<Seq<char>> {
    let r = res[i];
    if r.attempt == 0 || exists|j: int| 0 <= j < i && #[trigger] res[j].attempt == r.attempt {
        Some("result attempts must be positive and unique"@)
    } else if !decision_route_is(ds, r.attempt, r.route@) {
        Some("every result must match an attempt decision"@)
    } else if r.provider_manifest_hash is Some && !is_sha256_ref(r.provider_manifest_hash.unwrap()@) {
        Some(hash_problem(r.provider_manifest_hash.unwrap()@))
    } else if r.outcome_unknown && (r.output is Some || r.failure is Some
        || r.usage != (TokenUsage { input_tokens: 0, output_tokens: 0 })) {
        Some("an ambiguous result cannot claim output, usage or failure"@)
    } else if r.failure is Some && r.output is Some {
        Some("a failed result cannot claim successful output"@)
    } else {
        None
    }
}

/// [`result_problem`] at each position.
pub open spec fn result_check(res: Seq<RunResultReceiptV2>, ds: Seq<RunDecisionReceiptV2>) -> spec_fn(int) -> Option<Seq<char>> {
    |i: int| result_problem(res, ds, i)
}

/// What is wrong with the identity links of a receipt.
pub open spec fn identity_problem(d: RunReceiptDraftV2) -> Option<Seq<char>> {
    if d.schema_version != 2 {
        Some("schema_version must be 2"@)
    } else if !is_safe_id(d.id@) {
        Some("identifier contains unsupported characters"@)
    } else if d.request.schema_version != 2 || d.request.id@ != d.id@ || d.request.grant_id@ != d.grant.id@ {
        Some("request, receipt and grant identifiers must agree"@)
    } else if !body_valid(d.grant) {
        body_problem(d.grant)
    } else if !seal_matches(d.grant) {
        Some("grant_hash_mismatch"@)
    } else if d.grant_hash@ != d.grant.grant_hash@ {
        Some("grant_hash does not match the embedded grant"@)
    } else if !is_sha256_ref(d.grant_hash@) {
        Some(hash_problem(d.grant_hash@))
    } else if !is_terminal(d.final_phase) {
        Some("a receipt can only be sealed in a terminal phase"@)
    } else {
        None
    }
}

/// The first link a receipt breaks, as its message, checked in the order:
/// identity, candidates, decisions, reservations, consumptions, journal, results.
pub open spec fn draft_problem(d: RunReceiptDraftV2) -> Option<Seq<char>> {
    let candidates = first_problem(candidate_check(d.candidates@), d.candidates@.len() as int);
    let decisions = first_problem(decision_check(d.decisions@, d.candidates@), d.decisions@.len() as int);
    let reservations = first_problem(reservation_check(d.reservations@), d.reservations@.len() as int);
    let consumptions = first_problem(consumption_check(d.consumptions@, d.reservations@), d.consumptions@.len() as int);
    let transitions = transitions_problem(d.transitions@, d.created_at, d.final_phase);
    let results = first_problem(result_check(d.results@, d.decisions@), d.results@.len() as int);
    if identity_problem(d) is Some {
        identity_problem(d)
    } else if candidates is Some {
        candidates
    } else if decisions is Some {
        decisions
    } else if reservations is Some {
        reservations
    } else if consumptions is Some {
        consumptions
    } else if transitions is Some {
        transitions
    } else {
        results
    }
}

fn invalid(message: &str) -> (e: RunReceiptError)
    ensures
        e matches RunReceiptError::Invalid(m) && m@ == message@,
{
    RunReceiptError::Invalid(String::from_str(message))
}


/// Message of a text that is not a `sha256:` reference.
pub open spec fn hash_problem(h: Seq<char>) -> Seq<char> {
    if h.len() >= 7 && h.subrange(0, 7) == sha256_prefix() {
        "hash must contain exactly 64 hexadecimal digits"@
    } else {
        "hash must use the sha256 prefix"@
    }
}

/// The failure of a text that is not a `sha256:` reference.
fn hash_error(h: &str) -> (e: RunReceiptError)
    ensures
        e matches RunReceiptError::Invalid(m) && m@ == hash_problem(h@),
{
    if starts_with_sha256(h) {
        RunReceiptError::Invalid(String::from_str("hash must contain exactly 64 hexadecimal digits"))
    } else {
        RunReceiptError::Invalid(String::from_str("hash must use the sha256 prefix"))
    }
}

fn check_identity(d: &RunReceiptDraftV2) -> (r: Result<(), RunReceiptError>)
    ensures
        r is Ok <==> identity_valid(*d),
        r is Ok <==> identity_problem(*d) is None,
        r matches Err(e) ==> (e matches RunReceiptError::Invalid(m) && Some(m@) == identity_problem(*d)),
{
    proof {
        reveal_strlit("schema_version must be 2");
        reveal_strlit("identifier contains unsupported characters");
        reveal_strlit("request, receipt and grant identifiers must agree");
        reveal_strlit("grant_hash does not match the embedded grant");
        reveal_strlit("a receipt can only be sealed in a terminal phase");
    }
    if d.schema_version != 2 {
        return Err(invalid("schema_version must be 2"));
    }
    if !is_safe_identifier(d.id.as_str()) {
        return Err(invalid("identifier contains unsupported characters"));
    }
    if d.request.schema_version != 2 || d.request.id != d.id || d.request.grant_id != d.grant.id {
        return Err(invalid("request, receipt and grant identifiers must agree"));
    }
    match d.grant.validate_seal() {
        Ok(_) => {},
        Err(e) => return Err(RunReceiptError::Invalid(e.message())),
    }
    if d.grant_hash != d.grant.grant_hash {
        return Err(invalid("grant_hash does not match the embedded grant"));
    }
    if !is_sha256_reference(d.grant_hash.as_str()) {
        return Err(hash_error(d.grant_hash.as_str()));
    }
    match d.final_phase {
        RunPhaseV2::Completed | RunPhaseV2::Failed | RunPhaseV2::OutcomeUnknown => Ok(()),
        _ => Err(invalid("a receipt can only be sealed in a terminal phase")),
    }
}

fn check_candidates(cs: &Vec<RunCandidateReceiptV2>) -> (r: Result<(), RunReceiptError>)
    ensures
        r is Ok <==> candidates_valid(cs@),
        r is Ok <==> first_problem(candidate_check(cs@), cs@.len() as int) is None,
        r matches Err(e) ==> (e matches RunReceiptError::Invalid(m)
            && Some(m@) == first_problem(candidate_check(cs@), cs@.len() as int)),
{
    proof {
        reveal_strlit("candidate action cannot be empty");
        reveal_strlit("candidate route/hash pairs must be unique");
    }
    let ghost f = candidate_check(cs@);
    let mut i: usize = 0;
    while i < cs.len()
        invariant
            i <= cs@.len(),
            f == candidate_check(cs@),
            first_problem(f, i as int) is None,
            forall|a: int| 0 <= a < i ==> !is_blank((#[trigger] cs@[a]).action@) && is_sha256_ref(cs@[a].candidate_hash@),
            forall|a: int, b: int| 0 <= a < b < i ==> !(#[trigger] cs@[a].route@ == #[trigger] cs@[b].route@ && cs@[a].candidate_hash@ == cs@[b].candidate_hash@),
        decreases cs@.len() - i,
    {
        if is_blank_text(cs[i].action.as_str()) {
            proof { lemma_first_problem_at(f, i as int, cs@.len() as int); }
            return Err(invalid("candidate action cannot be empty"));
        }
        if !is_sha256_reference(cs[i].candidate_hash.as_str()) {
            proof { lemma_first_problem_at(f, i as int, cs@.len() as int); }
            return Err(hash_error(cs[i].candidate_hash.as_str()));
        }
        let mut j: usize = 0;
        while j < i
            invariant
                j <= i < cs@.len(),
                f == candidate_check(cs@),
                first_problem(f, i as int) is None,
                !is_blank(cs@[i as int].action@) && is_sha256_ref(cs@[i as int].candidate_hash@),
                forall|b: int| 0 <= b < j ==> !(#[trigger] cs@[b].route@ == cs@[i as int].route@ && cs@[b].candidate_hash@ == cs@[i as int].candidate_hash@),
            decreases i - j,
        {
            if cs[j].route.same_as(&cs[i].route) && cs[j].candidate_hash == cs[i].candidate_hash {
                proof {
                    assert(cs@[j as int].route@ == cs@[i as int].route@ && cs@[j as int].candidate_hash@ == cs@[i as int].candidate_hash@);
                    lemma_first_problem_at(f, i as int, cs@.len() as int);
                }
                return Err(invalid("candidate route/hash pairs must be unique"));
            }
            j = j + 1;
        }
        assert(!is_blank(cs@[i as int].action@) && is_sha256_ref(cs@[i as int].candidate_hash@));
        assert(candidate_problem(cs@, i as int) is None);
        assert(first_problem(f, i + 1) is None);
        i = i + 1;
    }
    Ok(())
}

fn find_candidate(cs: &Vec<RunCandidateReceiptV2>, route: &RouteRef, hash: &String) -> (b: bool)
    ensures
        b == has_candidate(cs@, route@, hash@),
{
    let mut i: usize = 0;
    while i < cs.len()
        invariant
            i <= cs@.len(),
            forall|a: int| 0 <= a < i ==> !(#[trigger] cs@[a].route@ == route@ && cs@[a].candidate_hash@ == hash@),
        decreases cs@.len() - i,
    {
        if cs[i].route.same_as(route) && cs[i].candidate_hash == *hash {
            return true;
        }
        i = i + 1;
    }
    false
}

fn check_decisions(ds: &Vec<RunDecisionReceiptV2>, cs: &Vec<RunCandidateReceiptV2>) -> (r: Result<(), RunReceiptError>)
    ensures
        r is Ok <==> decisions_valid(ds@, cs@),
        r is Ok <==> first_problem(decision_check(ds@, cs@), ds@.len() as int) is None,
        r matches Err(e) ==> (e matches RunReceiptError::Invalid(m)
            && Some(m@) == first_problem(decision_check(ds@, cs@), ds@.len() as int)),
{
    proof {
        reveal_strlit("decision attempts must be positive and unique");
        reveal_strlit("every decision must reference a materialized candidate");
    }
    let ghost f = decision_check(ds@, cs@);
    let mut i: usize = 0;
    while i < ds.len()
        invariant
            i <= ds@.len(),
            f == decision_check(ds@, cs@),
            first_problem(f, i as int) is None,
            forall|a: int| 0 <= a < i ==> (#[trigger] ds@[a]).attempt > 0,
            forall|a: int, b: int| 0 <= a < b < i ==> #[trigger] ds@[a].attempt != #[trigger] ds@[b].attempt,
            forall|a: int| 0 <= a < i ==> is_sha256_ref((#[trigger] ds@[a]).manifest_hash@) && is_sha256_ref(ds@[a].candidate_hash@),
            forall|a: int| 0 <= a < i ==> has_candidate(cs@, (#[trigger] ds@[a]).route@, ds@[a].candidate_hash@),
        decreases ds@.len() - i,
    {
        if ds[i].attempt == 0 {
            proof { lemma_first_problem_at(f, i as int, ds@.len() as int); }
            return Err(invalid("decision attempts must be positive and unique"));
        }
        let mut j: usize = 0;
        while j < i
            invariant
                j <= i < ds@.len(),
                f == decision_check(ds@, cs@),
                first_problem(f, i as int) is None,
                forall|b: int| 0 <= b < j ==> #[trigger] ds@[b].attempt != ds@[i as int].attempt,
            decreases i - j,
        {
            if ds[j].attempt == ds[i].attempt {
                proof {
                    assert(ds@[j as int].attempt == ds@[i as int].attempt);
                    lemma_first_problem_at(f, i as int, ds@.len() as int);
                }
                return Err(invalid("decision attempts must be positive and unique"));
            }
            j = j + 1;
        }
        if !is_sha256_reference(ds[i].manifest_hash.as_str()) {
            proof { lemma_first_problem_at(f, i as int, ds@.len() as int); }
            return Err(hash_error(ds[i].manifest_hash.as_str()));
        }
        if !is_sha256_reference(ds[i].candidate_hash.as_str()) {
            proof { lemma_first_problem_at(f, i as int, ds@.len() as int); }
            return Err(hash_error(ds[i].candidate_hash.as_str()));
        }
        if !find_candidate(cs, &ds[i].route, &ds[i].candidate_hash) {
            proof { lemma_first_problem_at(f, i as int, ds@.len() as int); }
            return Err(invalid("every decision must reference a materialized candidate"));
        }
        assert(decision_problem(ds@, cs@, i as int) is None);
        assert(first_problem(f, i + 1) is None);
        i = i + 1;
    }
    Ok(())
}

fn is_zero_amount(a: BudgetAmount) -> (b: bool)
    ensures
        b == !nonzero(a),
{
    let b = a.requests == 0 && a.input_tokens == 0 && a.output_tokens == 0 && a.wall_time_ms == 0;
    proof {
        if b {
            assert forall|d: int| 0 <= d < 4 implies #[trigger] dim(a, d) == 0 by {}
        } else {
            if a.requests != 0 { assert(dim(a, 0) != 0); }
            else if a.input_tokens != 0 { assert(dim(a, 1) != 0); }
            else if a.output_tokens != 0 { assert(dim(a, 2) != 0); }
            else { assert(dim(a, 3) != 0); }
        }
    }
    b
}

fn check_reservations(rs: &Vec<RunReservationReceiptV2>) -> (r: Result<(), RunReceiptError>)
    ensures
        r is Ok <==> reservations_valid(rs@),
        r is Ok <==> first_problem(reservation_check(rs@), rs@.len() as int) is None,
        r matches Err(e) ==> (e matches RunReceiptError::Invalid(m)
            && Some(m@) == first_problem(reservation_check(rs@), rs@.len() as int)),
{
    proof {
        reveal_strlit("identifier contains unsupported characters");
        reveal_strlit("reservations must be non-zero and uniquely identified");
        reveal_strlit("an attempt reserves exactly one request");
        reveal_strlit("a wait reserves wall time only");
    }
    let ghost f = reservation_check(rs@);
    let mut i: usize = 0;
    while i < rs.len()
        invariant
            i <= rs@.len(),
            f == reservation_check(rs@),
            first_problem(f, i as int) is None,
            forall|a: int| 0 <= a < i ==> is_safe_id((#[trigger] rs@[a]).id@) && nonzero(rs@[a].amount) && reservation_shape(rs@[a]),
            forall|a: int, b: int| 0 <= a < b < i ==> #[trigger] rs@[a].id@ != #[trigger] rs@[b].id@,
        decreases rs@.len() - i,
    {
        if !is_safe_identifier(rs[i].id.as_str()) {
            proof { lemma_first_problem_at(f, i as int, rs@.len() as int); }
            return Err(invalid("identifier contains unsupported characters"));
        }
        if is_zero_amount(rs[i].amount) {
            proof { lemma_first_problem_at(f, i as int, rs@.len() as int); }
            return Err(invalid("reservations must be non-zero and uniquely identified"));
        }
        let mut j: usize = 0;
        while j < i
            invariant
                j <= i < rs@.len(),
                f == reservation_check(rs@),
                first_problem(f, i as int) is None,
                is_safe_id(rs@[i as int].id@),
                forall|b: int| 0 <= b < j ==> #[trigger] rs@[b].id@ != rs@[i as int].id@,
            decreases i - j,
        {
            if rs[j].id == rs[i].id {
                proof {
                    assert(rs@[j as int].id@ == rs@[i as int].id@);
                    lemma_first_problem_at(f, i as int, rs@.len() as int);
                }
                return Err(invalid("reservations must be non-zero and uniquely identified"));
            }
            j = j + 1;
        }
        let a = rs[i].amount;
        match rs[i].kind {
            RunReservationKindV2::Attempt => {
                if a.requests != 1 {
                    proof { lemma_first_problem_at(f, i as int, rs@.len() as int); }
                    return Err(invalid("an attempt reserves exactly one request"));
                }
            },
            RunReservationKindV2::Wait => {
                if a.requests != 0 || a.input_tokens != 0 || a.output_tokens != 0 || a.wall_time_ms == 0 {
                    proof { lemma_first_problem_at(f, i as int, rs@.len() as int); }
                    return Err(invalid("a wait reserves wall time only"));
                }
            },
        }
        assert(reservation_problem(rs@, i as int) is None);
        assert(first_problem(f, i + 1) is None);
        i = i + 1;
    }
    Ok(())
}

fn find_reservation(rs: &Vec<RunReservationReceiptV2>, id: &String) -> (r: Option<usize>)
    ensures
        r is None <==> !has_reservation(rs@, id@),
        r matches Some(k) ==> k < rs@.len() && rs@[k as int].id@ == id@,
{
    let mut i: usize = 0;
    while i < rs.len()
        invariant
            i <= rs@.len(),
            forall|a: int| 0 <= a < i ==> #[trigger] rs@[a].id@ != id@,
        decreases rs@.len() - i,
    {
        if rs[i].id == *id {
            return Some(i);
        }
        i = i + 1;
    }
    None
}

proof fn lemma_reservation_index(rs: Seq<RunReservationReceiptV2>, id: Seq<char>, k: int)
    requires
        forall|a: int, b: int| 0 <= a < b < rs.len() ==> #[trigger] rs[a].id@ != #[trigger] rs[b].id@,
        0 <= k < rs.len(),
        rs[k].id@ == id,
    ensures
        reservation_index(rs, id) == k,
{
    let c = reservation_index(rs, id);
    assert(0 <= c < rs.len() && rs[c].id@ == id);
    if c < k {
        assert(rs[c].id@ != rs[k].id@);
    } else if c > k {
        assert(rs[k].id@ != rs[c].id@);
    }
}

fn check_consumptions(cs: &Vec<RunConsumptionReceiptV2>, rs: &Vec<RunReservationReceiptV2>) -> (r: Result<(), RunReceiptError>)
    requires
        reservations_valid(rs@),
    ensures
        r is Ok <==> consumptions_valid(cs@, rs@),
        r is Ok <==> first_problem(consumption_check(cs@, rs@), cs@.len() as int) is None,
        r matches Err(e) ==> (e matches RunReceiptError::Invalid(m)
            && Some(m@) == first_problem(consumption_check(cs@, rs@), cs@.len() as int)),
{
    proof {
        reveal_strlit("identifier contains unsupported characters");
        reveal_strlit("a reservation can have at most one final consumption");
        reveal_strlit("every consumption must reference a reservation");
        reveal_strlit("consumption cannot exceed its reservation");
        reveal_strlit("ambiguous consumption must retain the full reservation");
    }
    let ghost f = consumption_check(cs@, rs@);
    let mut i: usize = 0;
    while i < cs.len()
        invariant
            i <= cs@.len(),
            reservations_valid(rs@),
            f == consumption_check(cs@, rs@),
            first_problem(f, i as int) is None,
            forall|a: int| 0 <= a < i ==> is_safe_id((#[trigger] cs@[a]).id@) && has_reservation(rs@, cs@[a].id@),
            forall|a: int, b: int| 0 <= a < b < i ==> #[trigger] cs@[a].id@ != #[trigger] cs@[b].id@,
            forall|a: int| 0 <= a < i ==> amount_le((#[trigger] cs@[a]).amount, rs@[reservation_index(rs@, cs@[a].id@)].amount),
            forall|a: int| 0 <= a < i ==> (!(#[trigger] cs@[a]).known ==> cs@[a].amount == rs@[reservation_index(rs@, cs@[a].id@)].amount),
        decreases cs@.len() - i,
    {
        if !is_safe_identifier(cs[i].id.as_str()) {
            proof { lemma_first_problem_at(f, i as int, cs@.len() as int); }
            return Err(invalid("identifier contains unsupported characters"));
        }
        let mut j: usize = 0;
        while j < i
            invariant
                j <= i < cs@.len(),
                f == consumption_check(cs@, rs@),
                first_problem(f, i as int) is None,
                is_safe_id(cs@[i as int].id@),
                forall|b: int| 0 <= b < j ==> #[trigger] cs@[b].id@ != cs@[i as int].id@,
            decreases i - j,
        {
            if cs[j].id == cs[i].id {
                proof {
                    assert(cs@[j as int].id@ == cs@[i as int].id@);
                    lemma_first_problem_at(f, i as int, cs@.len() as int);
                }
                return Err(invalid("a reservation can have at most one final consumption"));
            }
            j = j + 1;
        }
        let k = match find_reservation(rs, &cs[i].id) {
            Some(k) => k,
            None => {
                proof { lemma_first_problem_at(f, i as int, cs@.len() as int); }
                return Err(invalid("every consumption must reference a reservation"));
            },
        };
        proof {
            lemma_reservation_index(rs@, cs@[i as int].id@, k as int);
        }
        let reserved = rs[k].amount;
        if !cs[i].amount.fits_within(reserved) {
            proof { lemma_first_problem_at(f, i as int, cs@.len() as int); }
            return Err(invalid("consumption cannot exceed its reservation"));
        }
        if !cs[i].known && cs[i].amount != reserved {
            proof { lemma_first_problem_at(f, i as int, cs@.len() as int); }
            return Err(invalid("ambiguous consumption must retain the full reservation"));
        }
        assert(consumption_problem(cs@, rs@, i as int) is None);
        assert(first_problem(f, i + 1) is None);
        i = i + 1;
    }
    Ok(())
}

fn check_transitions(ts: &Vec<RunJournalEventV2>, created_at: u64, phase: RunPhaseV2) -> (r: Result<(), RunReceiptError>)
    ensures
        r is Ok <==> transitions_valid(ts@, created_at, phase),
        r is Ok <==> transitions_problem(ts@, created_at, phase) is None,
        r matches Err(e) ==> (e matches RunReceiptError::Invalid(m) && Some(m@) == transitions_problem(ts@, created_at, phase)),
{
    proof {
        reveal_strlit("receipt transitions cannot be empty");
        reveal_strlit("transition sequence and time must be monotonic");
        reveal_strlit("receipt final phase is not terminal");
        reveal_strlit("last transition does not match final phase");
    }
    if ts.len() == 0 {
        return Err(invalid("receipt transitions cannot be empty"));
    }
    if !check_journal(ts, created_at) {
        return Err(invalid("transition sequence and time must be monotonic"));
    }
    let expected = match phase {
        RunPhaseV2::Completed => crate::journal::RunJournalKindV2::InvocationSucceeded,
        RunPhaseV2::Failed => crate::journal::RunJournalKindV2::InvocationFailed,
        RunPhaseV2::OutcomeUnknown => crate::journal::RunJournalKindV2::OutcomeUnknown,
        _ => {
            return Err(invalid("receipt final phase is not terminal"));
        },
    };
    if ts[ts.len() - 1].kind != expected {
        return Err(invalid("last transition does not match final phase"));
    }
    Ok(())
}

fn decision_route(ds: &Vec<RunDecisionReceiptV2>, attempt: u64, route: &RouteRef) -> (b: bool)
    requires
        forall|a: int, b: int| 0 <= a < b < ds@.len() ==> #[trigger] ds@[a].attempt != #[trigger] ds@[b].attempt,
    ensures
        b == decision_route_is(ds@, attempt, route@),
{
    let mut i: usize = 0;
    while i < ds.len()
        invariant
            i <= ds@.len(),
            forall|a: int, b: int| 0 <= a < b < ds@.len() ==> #[trigger] ds@[a].attempt != #[trigger] ds@[b].attempt,
            forall|a: int| 0 <= a < i ==> #[trigger] ds@[a].attempt != attempt,
        decreases ds@.len() - i,
    {
        if ds[i].attempt == attempt {
            let found = ds[i].route.same_as(route);
            proof {
                if !found && decision_route_is(ds@, attempt, route@) {
                    let k = choose|k: int| 0 <= k < ds@.len() && #[trigger] ds@[k].attempt == attempt && ds@[k].route@ == route@;
                    if k < i {
                    } else if k > i {
                        assert(ds@[i as int].attempt != ds@[k].attempt);
                    }
                }
            }
            return found;
        }
        i = i + 1;
    }
    false
}

fn check_results(res: &Vec<RunResultReceiptV2>, ds: &Vec<RunDecisionReceiptV2>) -> (r: Result<(), RunReceiptError>)
    requires
        forall|a: int, b: int| 0 <= a < b < ds@.len() ==> #[trigger] ds@[a].attempt != #[trigger] ds@[b].attempt,
    ensures
        r is Ok <==> results_valid(res@, ds@),
        r is Ok <==> first_problem(result_check(res@, ds@), res@.len() as int) is None,
        r matches Err(e) ==> (e matches RunReceiptError::Invalid(m)
            && Some(m@) == first_problem(result_check(res@, ds@), res@.len() as int)),
{
    proof {
        reveal_strlit("result attempts must be positive and unique");
        reveal_strlit("every result must match an attempt decision");
        reveal_strlit("an ambiguous result cannot claim output, usage or failure");
        reveal_strlit("a failed result cannot claim successful output");
    }
    let ghost f = result_check(res@, ds@);
    let mut i: usize = 0;
    while i < res.len()
        invariant
            i <= res@.len(),
            f == result_check(res@, ds@),
            first_problem(f, i as int) is None,
            forall|a: int, b: int| 0 <= a < b < ds@.len() ==> #[trigger] ds@[a].attempt != #[trigger] ds@[b].attempt,
            forall|a: int| 0 <= a < i ==> (#[trigger] res@[a]).attempt > 0,
            forall|a: int, b: int| 0 <= a < b < i ==> #[trigger] res@[a].attempt != #[trigger] res@[b].attempt,
            forall|a: int| 0 <= a < i ==> decision_route_is(ds@, (#[trigger] res@[a]).attempt, res@[a].route@),
            forall|a: int| 0 <= a < i ==> ((#[trigger] res@[a]).provider_manifest_hash matches Some(h) ==> is_sha256_ref(h@)),
            forall|a: int| 0 <= a < i ==> ((#[trigger] res@[a]).outcome_unknown ==> res@[a].output is None && res@[a].failure is None
                && res@[a].usage == TokenUsage { input_tokens: 0, output_tokens: 0 }),
            forall|a: int| 0 <= a < i ==> !((#[trigger] res@[a]).failure is Some && res@[a].output is Some),
        decreases res@.len() - i,
    {
        let r = &res[i];
        if r.attempt == 0 {
            proof { lemma_first_problem_at(f, i as int, res@.len() as int); }
            return Err(invalid("result attempts must be positive and unique"));
        }
        let mut j: usize = 0;
        while j < i
            invariant
                j <= i < res@.len(),
                f == result_check(res@, ds@),
                first_problem(f, i as int) is None,
                forall|b: int| 0 <= b < j ==> #[trigger] res@[b].attempt != res@[i as int].attempt,
            decreases i - j,
        {
            if res[j].attempt == res[i].attempt {
                proof {
                    assert(res@[j as int].attempt == res@[i as int].attempt);
                    lemma_first_problem_at(f, i as int, res@.len() as int);
                }
                return Err(invalid("result attempts must be positive and unique"));
            }
            j = j + 1;
        }
        if !decision_route(ds, r.attempt, &r.route) {
            proof { lemma_first_problem_at(f, i as int, res@.len() as int); }
            return Err(invalid("every result must match an attempt decision"));
        }
        if let Some(h) = &r.provider_manifest_hash {
            if !is_sha256_reference(h.as_str()) {
                proof { lemma_first_problem_at(f, i as int, res@.len() as int); }
                return Err(hash_error(h.as_str()));
            }
        }
        if r.outcome_unknown && (r.output.is_some() || r.failure.is_some() || r.usage.input_tokens != 0 || r.usage.output_tokens != 0) {
            proof { lemma_first_problem_at(f, i as int, res@.len() as int); }
            return Err(invalid("an ambiguous result cannot claim output, usage or failure"));
        }
        if r.failure.is_some() && r.output.is_some() {
            proof { lemma_first_problem_at(f, i as int, res@.len() as int); }
            return Err(invalid("a failed result cannot claim successful output"));
        }
        assert(result_problem(res@, ds@, i as int) is None);
        assert(first_problem(f, i + 1) is None);
        i = i + 1;
    }
    Ok(())
}

/// Checks every link a receipt must keep, the embedded grant's seal against
/// its own canonical body among them.
pub fn validate_draft(d: &RunReceiptDraftV2) -> (r: Result<(), RunReceiptError>)
    ensures
        r is Ok <==> draft_valid(*d),
        r is Ok <==> draft_problem(*d) is None,
        r matches Err(e) ==> (e matches RunReceiptError::Invalid(m) && Some(m@) == draft_problem(*d)),
{
    check_identity(d)?;
    check_candidates(&d.candidates)?;
    check_decisions(&d.decisions, &d.candidates)?;
    check_reservations(&d.reservations)?;
    check_consumptions(&d.consumptions, &d.reservations)?;
    check_transitions(&d.transitions, d.created_at, d.final_phase)?;
    check_results(&d.results, &d.decisions)?;
    Ok(())
}

/// Validates a draft and seals it: the receipt hash is the content address of
/// the draft's canonical bytes.
pub fn seal(d: &RunReceiptDraftV2, draft_bytes: &[u8]) -> (r: Result<String, RunReceiptError>)
    ensures
        r is Ok <==> draft_valid(*d),
        r matches Ok(h) ==> h@ == content_address(draft_bytes@),
        r matches Err(e) ==> (e matches RunReceiptError::Invalid(m) && Some(m@) == draft_problem(*d)),
{
    validate_draft(d)?;
    Ok(content_hash(draft_bytes))
}

/// Revalidates links and seal of a stored receipt.
pub fn validate_receipt(d: &RunReceiptDraftV2, draft_bytes: &[u8], receipt_hash: &str) -> (r: Result<(), RunReceiptError>)
    ensures
        r is Ok <==> draft_valid(*d) && content_address(draft_bytes@) == receipt_hash@,
        r matches Err(e) ==> (!draft_valid(*d) ==> (e matches RunReceiptError::Invalid(m)
            && Some(m@) == draft_problem(*d))),
        r matches Err(e) ==> (draft_valid(*d) ==> e is HashMismatch),
{
    validate_draft(d)?;
    let h = content_hash(draft_bytes);
    if h != String::from_str(receipt_hash) {
        return Err(RunReceiptError::HashMismatch);
    }
    Ok(())
}

} // verus!
