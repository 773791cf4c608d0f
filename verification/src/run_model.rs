//! Durable state of a run: its request, attempts, next action and status, and
//! the checks a stored status must pass.

use vstd::prelude::*;
use vstd::string::*;

use crate::grant::ExecutionGrantV1;
use crate::handoff::HandoffCheckpoint;
use crate::invocation::InvocationFailure;
use crate::journal::{check_journal, journal_monotonic, next_event, push_event, RunJournalEventV2, RunJournalKindV2, RunPhaseV2};
use crate::ledger::BudgetAmount;
use crate::policy::ExecutionPolicyV2;
use crate::receipt::{RunCandidateReceiptV2, RunConsumptionReceiptV2, RunDecisionReceiptV2, RunReceiptReferenceV2, RunReservationReceiptV2, RunResultReceiptV2};
use crate::route::RouteRef;
use crate::text::{invalid_identifier, invalid_identifier_message, is_blank, is_blank_text, is_safe_id, is_safe_identifier};

verus! {

/// Public request of a run, holding what the coordinator reads of the task and
/// of the routing intent.
#[derive(Debug, Clone, PartialEq, Eq)]
pub struct RunRequestV2 {
    /// Closed version, 2.
    pub schema_version: u16,
    /// Durable identifier.
    pub id: String,
    /// Self-contained objective; it holds no conversation history.
    pub objective: String,
    /// Action routed.
    pub action: String,
    /// Predicted tokens of the routing request.
    pub predicted_tokens: u64,
    /// Timeout of the task, in seconds.
    pub timeout_seconds: u32,
    /// Grant already created.
    pub grant_id: String,
}

/// Durable facts of one attempt.
#[derive(Debug, Clone, PartialEq, Eq)]
pub struct RunAttemptV2 {
    /// Number from one.
    pub number: u32,
    /// Exact route.
    pub route: RouteRef,
    /// State manifest used to select.
    pub state_manifest_hash: String,
    /// Exact selected candidate.
    pub candidate_hash: String,
    /// Manifest the adapter materialised.
    pub provider_manifest_hash: Option<String>,
    /// Reservation made before this call.
    pub reservation_id: String,
    /// Maximum reserved.
    pub reserved: BudgetAmount,
    /// Durable start, Unix UTC milliseconds.
    pub started_at_ms: Option<u64>,
    /// Known end, Unix UTC milliseconds.
    pub finished_at_ms: Option<u64>,
    /// Known failure.
    pub failure: Option<InvocationFailure>,
    /// No reliable result exists after the start.
    pub outcome_unknown: bool,
    /// The health observation was already published.
    pub health_recorded: bool,
}

/// Durable action that `run resume` can continue.
#[derive(Debug, Clone, PartialEq, Eq)]
pub enum RunNextActionV2 {
    /// Repeat the same route only for an observed `Retry-After`.
    RetrySameRoute {
        /// Exact route.
        route: RouteRef,
        /// Earliest instant, Unix UTC milliseconds.
        not_before_ms: u64,
        /// Duration reserved for the wait.
        wait_ms: u64,
        /// Wall reservation of the wait.
        wait_reservation_id: String,
        /// Reservation of the attempt that follows.
        attempt_reservation_id: String,
        /// Number of that attempt.
        attempt: u32,
    },
}

/// Typed coordinator failure.
#[derive(Debug, Clone, PartialEq, Eq)]
pub enum RunCoordinatorError {
    /// Invalid input or state.
    Invalid(String),
    /// Run id already used.
    AlreadyExists(String),
    /// Grant missing, expired or revoked.
    Grant(String),
    /// Selection impossible.
    Route(String),
    /// Budget exhausted or incoherent.
    Budget(String),
    /// Invalid manifest or state generation.
    State(String),
    /// Invalid or unstorable receipt.
    Receipt(String),
    /// A durable wait has not elapsed yet.
    ProbeNotDue {
        /// Earliest instant, Unix UTC milliseconds.
        next_action_at: u64,
    },
    /// Inter-process exclusion.
    Lease(String),
}


/// Recoverable public state of a run.
#[derive(Debug, Clone, PartialEq, Eq)]
pub struct RunStatusV2 {
    /// Closed version, 2.
    pub schema_version: u16,
    /// Run id.
    pub id: String,
    /// Durable request needed to resume.
    pub request: RunRequestV2,
    /// Grant used.
    pub grant_id: String,
    /// Seal of the grant when the run was opened.
    pub grant_hash: String,
    /// Creation instant, Unix UTC seconds.
    pub created_at: u64,
    /// Conservative deadline, Unix UTC milliseconds.
    pub deadline_at_ms: u64,
    /// Closed policy that governs recovery.
    pub execution_policy: ExecutionPolicyV2,
    /// Durable phase.
    pub phase: RunPhaseV2,
    /// Current consumption or charge of this run only.
    pub consumed: BudgetAmount,
    /// Historical sum of the maxima reserved by this run.
    pub total_reserved: BudgetAmount,
    /// Route of the current or final attempt.
    pub route: Option<RouteRef>,
    /// Every attempt and its manifests.
    pub attempts: Vec<RunAttemptV2>,
    /// Next durable action.
    pub next_action: Option<RunNextActionV2>,
    /// Indexable copy of `not_before_ms`.
    pub next_action_at: Option<u64>,
    /// Route changes already used.
    pub handoffs: u32,
    /// Synced journal.
    pub journal: Vec<RunJournalEventV2>,
    /// Last compact checkpoint.
    pub checkpoint: Option<HandoffCheckpoint>,
    /// Every checkpoint the receipt uses.
    pub checkpoints: Vec<HandoffCheckpoint>,
    /// Forbids retry and fallback.
    pub outcome_unknown: bool,
    /// Known, bounded final output.
    pub output: Option<String>,
    /// Last known failure.
    pub failure: Option<InvocationFailure>,
    /// Reference to the append-only final receipt.
    pub receipt: Option<RunReceiptReferenceV2>,
    /// Sealed candidates gathered so far.
    pub candidates: Vec<RunCandidateReceiptV2>,
    /// Decisions by attempt.
    pub decisions: Vec<RunDecisionReceiptV2>,
    /// Prior reservations.
    pub reservations: Vec<RunReservationReceiptV2>,
    /// Consumptions or conservative charges.
    pub consumptions: Vec<RunConsumptionReceiptV2>,
    /// Results by attempt.
    pub results: Vec<RunResultReceiptV2>,
}

/// Checks the identifier format of runs and grants.
pub fn validate_id(id: &str) -> (r: Result<(), RunCoordinatorError>)
    ensures
        r is Ok <==> is_safe_id(id@),
        r matches Err(e) ==> e matches RunCoordinatorError::Invalid(m) && m@ == invalid_identifier_message(id@),
{
    if !is_safe_identifier(id) {
        return Err(RunCoordinatorError::Invalid(invalid_identifier(id)));
    }
    Ok(())
}

/// A request has version 2, safe run and grant ids and a non-blank objective.
pub open spec fn request_valid(r: RunRequestV2) -> bool {
    &&& r.schema_version == 2
    &&& is_safe_id(r.id@)
    &&& is_safe_id(r.grant_id@)
    &&& !is_blank(r.objective@)
}

/// The first rule a run request breaks, as its message.
pub open spec fn run_request_problem(r: RunRequestV2) -> Option<Seq<char>> {
    if r.schema_version != 2 {
        Some("run request schema_version must be 2"@)
    } else if !is_safe_id(r.id@) {
        Some(invalid_identifier_message(r.id@))
    } else if !is_safe_id(r.grant_id@) {
        Some(invalid_identifier_message(r.grant_id@))
    } else if is_blank(r.objective@) {
        Some("run objective cannot be empty"@)
    } else {
        None
    }
}

/// Validates a public run request.
pub fn validate_request(request: &RunRequestV2) -> (r: Result<(), RunCoordinatorError>)
    ensures
        r is Ok <==> request_valid(*request),
        r is Ok <==> run_request_problem(*request) is None,
        r matches Err(e) ==> (e matches RunCoordinatorError::Invalid(m) && Some(m@) == run_request_problem(*request)),
{
    proof {
        reveal_strlit("run request schema_version must be 2");
        reveal_strlit("run objective cannot be empty");
    }
    if request.schema_version != 2 {
        return Err(RunCoordinatorError::Invalid(String::from_str("run request schema_version must be 2")));
    }
    validate_id(request.id.as_str())?;
    validate_id(request.grant_id.as_str())?;
    if is_blank_text(request.objective.as_str()) {
        return Err(RunCoordinatorError::Invalid(String::from_str("run objective cannot be empty")));
    }
    Ok(())
}

/// Number expected at a position of the attempt list: the position plus one,
/// saturated at `u32::MAX`.
pub open spec fn expected_number(i: int) -> u32 {
    if i + 1 <= u32::MAX { (i + 1) as u32 } else { u32::MAX }
}

/// Attempts are numbered from one without gaps.
pub open spec fn attempts_numbered(attempts: Seq<RunAttemptV2>) -> bool {
    forall|i: int| 0 <= i < attempts.len() ==> #[trigger] attempts[i].number == expected_number(i)
}

/// The identity, version and attempts of a stored status agree with its id.
pub open spec fn identity_valid(s: RunStatusV2, id: Seq<char>) -> bool {
    &&& s.schema_version == 2
    &&& s.id@ == id
    &&& s.request.id@ == id
    &&& s.request.grant_id@ == s.grant_id@
    &&& s.journal@.len() > 0
    &&& s.attempts@.len() > 0
}

/// A stored status that can be resumed.
pub open spec fn status_valid(s: RunStatusV2, id: Seq<char>) -> bool {
    &&& identity_valid(s, id)
    &&& journal_monotonic(s.journal@, s.created_at)
    &&& attempts_numbered(s.attempts@)
    &&& s.outcome_unknown == (s.phase == RunPhaseV2::OutcomeUnknown)
}

/// The first rule a stored status breaks, as its message.
pub open spec fn run_status_problem(s: RunStatusV2, id: Seq<char>) -> Option<Seq<char>> {
    if !identity_valid(s, id) {
        Some("run status identity, version, attempts or journal is invalid"@)
    } else if !journal_monotonic(s.journal@, s.created_at) {
        Some("run journal is not contiguous and monotonic"@)
    } else if !attempts_numbered(s.attempts@) {
        Some("run attempt sequence is not contiguous"@)
    } else if s.outcome_unknown != (s.phase == RunPhaseV2::OutcomeUnknown) {
        Some("outcome_unknown flag and phase disagree"@)
    } else {
        None
    }
}

/// Checks a status read back for the run `id`.
pub fn validate_status(status: &RunStatusV2, id: &str) -> (r: Result<(), RunCoordinatorError>)
    ensures
        r is Ok <==> status_valid(*status, id@),
        r is Ok <==> run_status_problem(*status, id@) is None,
        r matches Err(e) ==> (e matches RunCoordinatorError::Invalid(m) && Some(m@) == run_status_problem(*status, id@)),
{
    proof {
        reveal_strlit("run status identity, version, attempts or journal is invalid");
        reveal_strlit("run journal is not contiguous and monotonic");
        reveal_strlit("run attempt sequence is not contiguous");
        reveal_strlit("outcome_unknown flag and phase disagree");
    }
    let wanted = String::from_str(id);
    if status.schema_version != 2 || status.id != wanted || status.request.id != wanted
        || status.request.grant_id != status.grant_id || status.journal.len() == 0
        || status.attempts.len() == 0 {
        return Err(RunCoordinatorError::Invalid(String::from_str("run status identity, version, attempts or journal is invalid")));
    }
    if !check_journal(&status.journal, status.created_at) {
        return Err(RunCoordinatorError::Invalid(String::from_str("run journal is not contiguous and monotonic")));
    }
    let mut i: usize = 0;
    while i < status.attempts.len()
        invariant
            i <= status.attempts@.len(),
            forall|k: int| 0 <= k < i ==> #[trigger] status.attempts@[k].number == expected_number(k),
            identity_valid(*status, id@),
            journal_monotonic(status.journal@, status.created_at),
        decreases status.attempts@.len() - i,
    {
        let expected: u32 = if i < 4294967295 { i as u32 + 1 } else { 4294967295 };
        if status.attempts[i].number != expected {
            return Err(RunCoordinatorError::Invalid(String::from_str("run attempt sequence is not contiguous")));
        }
        i = i + 1;
    }
    let unknown_phase = match status.phase {
        RunPhaseV2::OutcomeUnknown => true,
        _ => false,
    };
    if status.outcome_unknown != unknown_phase {
        return Err(RunCoordinatorError::Invalid(String::from_str("outcome_unknown flag and phase disagree")));
    }
    Ok(())
}

/// Conservative deadline of a run: the earlier of grant expiry and the grant's
/// wall budget counted from now, both saturating.
pub open spec fn deadline_spec(expires_at: u64, now_ms: u64, wall_time_ms: u64) -> u64 {
    let a: u64 = if expires_at as int * 1000 > u64::MAX { u64::MAX } else { (expires_at * 1000) as u64 };
    let b = now_ms.saturating_add(wall_time_ms);
    if a <= b { a } else { b }
}

/// Deadline of a run opened at `now_ms` under a grant.
pub fn deadline_at_ms(expires_at: u64, now_ms: u64, wall_time_ms: u64) -> (d: u64)
    ensures
        d == deadline_spec(expires_at, now_ms, wall_time_ms),
{
    let a: u64 = if expires_at > u64::MAX / 1000 { u64::MAX } else { expires_at * 1000 };
    let b = now_ms.saturating_add(wall_time_ms);
    if a <= b { a } else { b }
}

impl RunStatusV2 {
    /// Fresh status of a run opened at `now_ms` under a grant and a policy.
    pub fn empty(request: RunRequestV2, grant: &ExecutionGrantV1, policy: ExecutionPolicyV2, now_ms: u64) -> (s: RunStatusV2)
        ensures
            s.schema_version == 2,
            s.id@ == request.id@,
            s.request == request,
            s.grant_id@ == request.grant_id@,
            s.grant_hash@ == grant.grant_hash@,
            s.created_at == now_ms / 1000,
            s.deadline_at_ms == deadline_spec(grant.expires_at, now_ms, grant.limits.wall_time_ms),
            s.execution_policy == policy,
            s.phase == RunPhaseV2::Planned,
            s.consumed == (BudgetAmount { requests: 0, input_tokens: 0, output_tokens: 0, wall_time_ms: 0 }),
            s.total_reserved == (BudgetAmount { requests: 0, input_tokens: 0, output_tokens: 0, wall_time_ms: 0 }),
            s.route is None,
            s.attempts@.len() == 0,
            s.next_action is None,
            s.next_action_at is None,
            s.handoffs == 0,
            s.journal@.len() == 0,
            s.checkpoint is None,
            s.checkpoints@.len() == 0,
            !s.outcome_unknown,
            s.output is None,
            s.failure is None,
            s.receipt is None,
            s.candidates@.len() == 0,
            s.decisions@.len() == 0,
            s.reservations@.len() == 0,
            s.consumptions@.len() == 0,
            s.results@.len() == 0,
    {
        let id = request.id.clone();
        let grant_id = request.grant_id.clone();
        RunStatusV2 {
            schema_version: 2,
            id,
            request,
            grant_id,
            grant_hash: grant.grant_hash.clone(),
            created_at: now_ms / 1000,
            deadline_at_ms: deadline_at_ms(grant.expires_at, now_ms, grant.limits.wall_time_ms),
            execution_policy: policy,
            phase: RunPhaseV2::Planned,
            consumed: BudgetAmount::zero(),
            total_reserved: BudgetAmount::zero(),
            route: None,
            attempts: Vec::new(),
            next_action: None,
            next_action_at: None,
            handoffs: 0,
            journal: Vec::new(),
            checkpoint: None,
            checkpoints: Vec::new(),
            outcome_unknown: false,
            output: None,
            failure: None,
            receipt: None,
            candidates: Vec::new(),
            decisions: Vec::new(),
            reservations: Vec::new(),
            consumptions: Vec::new(),
            results: Vec::new(),
        }
    }

    /// Appends a journal event at `now_ms`.
    pub fn push(&mut self, now_ms: u64, kind: RunJournalKindV2, route: Option<RouteRef>)
        ensures
            final(self).journal@ == old(self).journal@.push(next_event(old(self).journal@.len(), now_ms, kind, route)),
            *final(self) == (RunStatusV2 { journal: final(self).journal, ..*old(self) }),
    {
        push_event(&mut self.journal, now_ms, kind, route);
        assert(self.journal@ =~= old(self).journal@.push(self.journal@.last()));
    }
}

} // verus!
