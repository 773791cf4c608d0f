use batuta_routing::coordinator::{
    append_attempt, apply_known_result, invocation_objective, finish_known_step, finish_unknown_step, health_recorded_step, FinishAction, apply_unknown_result, begin_invocation, check_invocation,
    checkpoint_for, enter_phase, fallback_exhausted, receipt_draft, record_reservations,
    reservation_for, reservation_id, resume_step, retry_due, retry_reservations, retry_window,
    upsert_consumption, ResumeStep,
};
use batuta_routing::grant::{authorize, ExecutionGrantDraftV1, ExecutionGrantV1, GrantError, GrantLimits, GrantOperation};
use batuta_routing::health::HealthOutcomeV2;
use batuta_routing::invocation::{InvocationFailure, NormalizedInvocationResult, TokenUsage};
use batuta_routing::journal::{RunJournalKindV2, RunPhaseV2};
use batuta_routing::ledger::{confirm, mark_outcome_unknown, reserve_many, status as ledger_status, BudgetAmount, BudgetError, LedgerStatus};
use batuta_routing::policy::ExecutionPolicyV2;
use batuta_routing::receipt::{validate_draft, RunConsumptionReceiptV2, RunReceiptError, RunReservationKindV2, RunReservationReceiptV2};
use batuta_routing::text::content_hash;
use batuta_routing::route::RouteRef;
use batuta_routing::run_model::{
    deadline_at_ms, validate_id, validate_request, validate_status, RunCoordinatorError,
    RunRequestV2, RunStatusV2,
};

const NOW: u64 = 1_000_000;

fn route(text: &str) -> RouteRef {
    RouteRef::parse(text).expect("valid route")
}

fn hash(c: char) -> String {
    format!("sha256:{}", c.to_string().repeat(64))
}

fn limits() -> GrantLimits {
    GrantLimits { requests: 10, input_tokens: 10_000, output_tokens: 10_000, wall_time_ms: 3_600_000 }
}

fn grant() -> ExecutionGrantV1 {
    ExecutionGrantV1 {
        schema_version: 1,
        id: "grant-1".to_string(),
        issued_at: 100,
        expires_at: 10_000,
        manifest_hash: hash('a'),
        routes: vec![route("dsh/openai/gpt-5"), route("dsh/anthropic/sonnet")],
        actions: vec!["code".to_string()],
        operations: vec![GrantOperation::Run],
        limits: limits(),
        grant_hash: hash('b'),
    }
}

fn request() -> RunRequestV2 {
    RunRequestV2 {
        schema_version: 2,
        id: "run-1".to_string(),
        objective: "fix the failing parser test".to_string(),
        action: "code".to_string(),
        predicted_tokens: 100,
        timeout_seconds: 60,
        grant_id: "grant-1".to_string(),
    }
}

fn policy(max_attempts: u32) -> ExecutionPolicyV2 {
    ExecutionPolicyV2::new(max_attempts, 5_000, 2).expect("valid policy")
}

fn planned(max_attempts: u32) -> RunStatusV2 {
    let g = grant();
    let mut status = RunStatusV2::empty(request(), &g, policy(max_attempts), NOW);
    append_attempt(&mut status, route("dsh/openai/gpt-5"), hash('c'), hash('d'), NOW).expect("first attempt");
    status
}

fn reserved(max_attempts: u32) -> (RunStatusV2, LedgerStatus) {
    let mut status = planned(max_attempts);
    let attempt = status.attempts.last().unwrap().clone();
    let pairs = vec![(attempt.reservation_id.clone(), attempt.reserved)];
    let ledger = reserve_many(None, "grant-1", limits(), &pairs).expect("reserve");
    let requested = vec![RunReservationReceiptV2 {
        id: attempt.reservation_id.clone(),
        kind: RunReservationKindV2::Attempt,
        amount: attempt.reserved,
    }];
    record_reservations(&mut status, &requested, &ledger).expect("record");
    enter_phase(&mut status, RunPhaseV2::Reserved, RunJournalKindV2::Reserved, Some(attempt.route.clone()), NOW + 10);
    (status, ledger)
}

fn result(failure: Option<InvocationFailure>) -> NormalizedInvocationResult {
    NormalizedInvocationResult {
        output: "patched".to_string(),
        usage: TokenUsage { input_tokens: 40, output_tokens: 20 },
        latency_ms: 1_500,
        provenance: Some("session_log".to_string()),
        manifest_hash: Some(hash('e')),
        failure,
    }
}

#[test]
fn reservation_for_charges_one_request_and_the_task_timeout() {
    let a = reservation_for(0, 30);
    assert_eq!(a, BudgetAmount { requests: 1, input_tokens: 1, output_tokens: 1, wall_time_ms: 30_000 });
    let b = reservation_for(250, 2);
    assert_eq!(b, BudgetAmount { requests: 1, input_tokens: 250, output_tokens: 250, wall_time_ms: 2_000 });
}

#[test]
fn reservation_ids_are_deterministic_and_distinct_by_kind_and_attempt() {
    let a1 = reservation_id("run-1", RunReservationKindV2::Attempt, 1);
    let w1 = reservation_id("run-1", RunReservationKindV2::Wait, 1);
    let a2 = reservation_id("run-1", RunReservationKindV2::Attempt, 2);
    assert!(a1.starts_with("r-"));
    assert_eq!(a1.len(), 36);
    assert!(a1.ends_with("a1"));
    assert!(w1.ends_with("w1"));
    assert_eq!(a1[..34], w1[..34]);
    assert_ne!(a1, w1);
    assert_ne!(a1, a2);
    assert_eq!(a1, reservation_id("run-1", RunReservationKindV2::Attempt, 1));
    // The 32 hex digits are the start of SHA-256("run-1").
    assert_eq!(a1, "r-4e65d3fbe8ad6535681b021b30785b12a1");
}

#[test]
fn deadline_is_the_earlier_of_expiry_and_wall_budget() {
    assert_eq!(deadline_at_ms(100, 50_000, 1_000_000), 100_000);
    assert_eq!(deadline_at_ms(10_000, 50_000, 1_000), 51_000);
    assert_eq!(deadline_at_ms(u64::MAX, u64::MAX - 1, 10), u64::MAX);
}

#[test]
fn ids_and_requests_are_validated() {
    assert!(validate_id("run-1.a_b").is_ok());
    assert!(matches!(validate_id(""), Err(RunCoordinatorError::Invalid(_))));
    assert!(matches!(validate_id("run/1"), Err(RunCoordinatorError::Invalid(_))));
    assert!(validate_id(&"x".repeat(128)).is_ok());
    assert!(validate_id(&"x".repeat(129)).is_err());
    assert!(validate_request(&request()).is_ok());
    let mut blank = request();
    blank.objective = " \t\n".to_string();
    assert!(matches!(validate_request(&blank), Err(RunCoordinatorError::Invalid(_))));
    let mut version = request();
    version.schema_version = 1;
    assert!(validate_request(&version).is_err());
}

#[test]
fn a_planned_run_has_a_valid_status() {
    let status = planned(3);
    assert_eq!(status.attempts.len(), 1);
    assert_eq!(status.attempts[0].number, 1);
    assert_eq!(status.attempts[0].reservation_id, reservation_id("run-1", RunReservationKindV2::Attempt, 1));
    assert_eq!(status.phase, RunPhaseV2::Planned);
    assert_eq!(status.journal.len(), 1);
    assert_eq!(status.journal[0].sequence, 0);
    assert_eq!(status.journal[0].at, NOW / 1000);
    assert_eq!(status.candidates.len(), 1);
    assert_eq!(status.decisions.len(), 1);
    assert!(validate_status(&status, "run-1").is_ok());
    assert!(validate_status(&status, "run-2").is_err());
}

#[test]
fn the_attempt_limit_of_the_policy_is_enforced() {
    let mut status = planned(1);
    let before = status.clone();
    let r = append_attempt(&mut status, route("dsh/anthropic/sonnet"), hash('c'), hash('d'), NOW + 1);
    assert!(matches!(r, Err(RunCoordinatorError::Invalid(_))));
    assert_eq!(status, before);
    assert!(fallback_exhausted(&status));
}

#[test]
fn a_known_success_completes_the_run_and_charges_the_actual_usage() {
    let (mut status, ledger) = reserved(3);
    let route_ref = check_invocation(&status, &grant()).expect("permitted");
    assert_eq!(route_ref.as_str(), "dsh/openai/gpt-5");
    let bounds = begin_invocation(&mut status, NOW + 20).expect("started");
    assert_eq!(bounds.max_output_bytes, 800);
    assert_eq!(bounds.timeout_ms, 60_000);
    assert_eq!(resume_step(&status), ResumeStep::FinishUnknown);
    let rid = status.attempts[0].reservation_id.clone();
    let actual = BudgetAmount { requests: 1, input_tokens: 40, output_tokens: 20, wall_time_ms: 1_500 };
    let ledger = confirm(Some(ledger), "grant-1", limits(), &rid, actual).expect("confirm");
    apply_known_result(&mut status, &ledger, rid, 1, result(None), NOW + 2_000).expect("known");
    assert_eq!(status.phase, RunPhaseV2::Completed);
    assert_eq!(status.output.as_deref(), Some("patched"));
    assert_eq!(status.consumed, actual);
    assert_eq!(status.total_reserved, reservation_for(100, 60));
    assert_eq!(status.consumptions.len(), 1);
    assert!(status.consumptions[0].known);
    assert_eq!(status.results.len(), 1);
    assert_eq!(status.journal.last().unwrap().kind, RunJournalKindV2::InvocationSucceeded);
    assert!(validate_status(&status, "run-1").is_ok());
    assert_eq!(resume_step(&status), ResumeStep::FinalizeReceipt);
    let draft = receipt_draft(&status, &grant()).expect("terminal");
    assert_eq!(draft.final_phase, RunPhaseV2::Completed);
    assert_eq!(draft.transitions.len(), status.journal.len());
}

#[test]
fn an_ambiguous_call_keeps_the_whole_reservation_and_ends_the_run() {
    let (mut status, ledger) = reserved(3);
    begin_invocation(&mut status, NOW + 20).expect("started");
    let rid = status.attempts[0].reservation_id.clone();
    let ledger = mark_outcome_unknown(Some(ledger), "grant-1", limits(), &rid).expect("unknown");
    apply_unknown_result(&mut status, &ledger, NOW + 3_000).expect("ambiguous");
    assert_eq!(status.phase, RunPhaseV2::OutcomeUnknown);
    assert!(status.outcome_unknown);
    assert!(status.next_action.is_none());
    assert_eq!(status.consumed, reservation_for(100, 60));
    assert!(!status.consumptions[0].known);
    assert!(status.results[0].outcome_unknown);
    assert_eq!(status.results[0].latency_ms, 60_000);
    assert!(validate_status(&status, "run-1").is_ok());
    assert_eq!(resume_step(&status), ResumeStep::FinalizeReceipt);
    assert!(matches!(retry_window(&status, NOW + 4_000), Err(RunCoordinatorError::Invalid(_))));
}

#[test]
fn a_rate_limit_with_retry_after_opens_a_retry_window() {
    let (mut status, ledger) = reserved(3);
    begin_invocation(&mut status, NOW + 20).expect("started");
    let rid = status.attempts[0].reservation_id.clone();
    let actual = BudgetAmount { requests: 1, input_tokens: 40, output_tokens: 20, wall_time_ms: 1_500 };
    let ledger = confirm(Some(ledger), "grant-1", limits(), &rid, actual).expect("confirm");
    let failure = InvocationFailure::RateLimited { retry_after_ms: Some(1_500) };
    apply_known_result(&mut status, &ledger, rid, 1, result(Some(failure)), NOW + 2_000).expect("known");
    assert_eq!(status.phase, RunPhaseV2::AttemptFailed);
    assert_eq!(status.output, None);
    assert_eq!(resume_step(&status), ResumeStep::RecoverKnownFailure);
    assert_eq!(retry_window(&status, NOW + 2_000).unwrap(), Some((1_500, NOW + 3_500)));
    status.failure = Some(InvocationFailure::RateLimited { retry_after_ms: Some(6_000) });
    assert_eq!(retry_window(&status, NOW + 2_000).unwrap(), None);
    status.failure = Some(InvocationFailure::Quota);
    assert_eq!(retry_window(&status, NOW + 2_000).unwrap(), None);
    status.failure = Some(InvocationFailure::RateLimited { retry_after_ms: None });
    assert_eq!(retry_window(&status, NOW + 2_000).unwrap(), None);
}

#[test]
fn a_retry_is_not_due_before_its_instant() {
    let status = planned(3);
    assert!(matches!(retry_due(&status, NOW), Err(RunCoordinatorError::Invalid(_))));
    assert!(matches!(retry_reservations(&status), Err(RunCoordinatorError::Invalid(_))));
}

#[test]
fn the_handoff_checkpoint_carries_no_history() {
    let (mut status, _) = reserved(3);
    status.failure = Some(InvocationFailure::RateLimited { retry_after_ms: Some(1_500) });
    let next = route("dsh/anthropic/sonnet");
    let checkpoint = checkpoint_for(&status, &grant(), &next).expect("checkpoint");
    let d = checkpoint.draft();
    assert_eq!(d.schema_version, 1);
    assert_eq!(d.objective, "fix the failing parser test");
    assert_eq!(d.constraints, vec!["do not replay conversation history".to_string(), "grant=grant-1".to_string()]);
    assert_eq!(d.decisions, vec!["attempt 1 used dsh/openai/gpt-5".to_string()]);
    assert_eq!(d.failure_message, "observed harness result: RateLimited { retry_after_ms: Some(1500) }");
    assert_eq!(d.next_step, "continue the objective on exact route dsh/anthropic/sonnet");
    assert_eq!(d.diff_summary, "no previous model output forwarded");
    assert_eq!(d.remaining_tokens, 20_000 - 200);
    assert_eq!(d.remaining_wall_seconds, (3_600_000 - 60_000) / 1000);
    assert_eq!(String::from_utf8(invocation_objective(&status)).unwrap(), "fix the failing parser test");
    let mut handed = status.clone();
    handed.checkpoint = Some(checkpoint.clone());
    let text = String::from_utf8(invocation_objective(&handed)).unwrap();
    let json: serde_json::Value = serde_json::from_str(&text).expect("valid JSON");
    assert_eq!(json["schema_version"], 1);
    assert_eq!(json["objective"], "fix the failing parser test");
    assert_eq!(json["failure"]["rate_limited"]["retry_after_seconds"], 2);
    assert!(json["tests"].as_array().expect("array").is_empty());
    assert!(text.starts_with("{\"schema_version\":1,\"objective\":\"fix the failing parser test\",\"constraints\":[\"do not replay"));
    status.failure = None;
    assert!(matches!(checkpoint_for(&status, &grant(), &next), Err(RunCoordinatorError::Invalid(_))));
}

#[test]
fn recording_a_consumption_twice_is_idempotent() {
    let c = RunConsumptionReceiptV2 {
        id: "r-1".to_string(),
        amount: BudgetAmount { requests: 1, input_tokens: 1, output_tokens: 1, wall_time_ms: 1 },
        known: true,
    };
    let mut cs = Vec::new();
    upsert_consumption(&mut cs, c.clone()).unwrap();
    upsert_consumption(&mut cs, c.clone()).unwrap();
    assert_eq!(cs.len(), 1);
    let mut other = c.clone();
    other.known = false;
    assert!(matches!(upsert_consumption(&mut cs, other), Err(RunCoordinatorError::Invalid(_))));
    assert_eq!(cs, vec![c]);
}

#[test]
fn recording_the_same_reservations_again_changes_nothing() {
    let (mut status, ledger) = reserved(3);
    let before = status.clone();
    let requested = status.reservations.clone();
    record_reservations(&mut status, &requested, &ledger).expect("again");
    assert_eq!(status, before);
    let mut changed = requested.clone();
    changed[0].amount.requests = 2;
    assert!(matches!(record_reservations(&mut status, &changed, &ledger), Err(RunCoordinatorError::Invalid(_))));
}

#[test]
fn a_run_that_is_not_terminal_cannot_be_sealed() {
    let status = planned(3);
    assert!(matches!(receipt_draft(&status, &grant()), Err(RunCoordinatorError::Invalid(_))));
}

fn invalid_receipt(text: &str) -> Result<(), RunReceiptError> {
    Err(RunReceiptError::Invalid(text.to_string()))
}

#[test]
fn a_receipt_draft_reports_the_first_broken_link() {
    let (mut status, ledger) = reserved(3);
    begin_invocation(&mut status, NOW + 20).expect("started");
    let rid = status.attempts[0].reservation_id.clone();
    let actual = BudgetAmount { requests: 1, input_tokens: 40, output_tokens: 20, wall_time_ms: 1_500 };
    let ledger = confirm(Some(ledger), "grant-1", limits(), &rid, actual).expect("confirm");
    apply_known_result(&mut status, &ledger, rid, 1, result(None), NOW + 2_000).expect("known");
    let mut sealed = grant();
    sealed.grant_hash = content_hash(&sealed.body_bytes());
    let mut draft = receipt_draft(&status, &sealed).expect("terminal");
    draft.grant_hash = sealed.grant_hash.clone();
    assert_eq!(validate_draft(&draft), Ok(()));

    let mut tampered = draft.clone();
    tampered.grant.expires_at += 1;
    assert_eq!(validate_draft(&tampered), invalid_receipt("grant_hash_mismatch"));

    let mut blank = draft.clone();
    blank.candidates[0].action = " ".to_string();
    assert_eq!(validate_draft(&blank), invalid_receipt("candidate action cannot be empty"));

    let mut copied = draft.clone();
    copied.grant_hash = hash('f');
    assert_eq!(validate_draft(&copied), invalid_receipt("grant_hash does not match the embedded grant"));

    let mut unnumbered = draft.clone();
    unnumbered.results[0].attempt = 0;
    assert_eq!(validate_draft(&unnumbered), invalid_receipt("result attempts must be positive and unique"));

    let mut prefix = draft.clone();
    prefix.decisions[0].manifest_hash = "md5:x".to_string();
    assert_eq!(validate_draft(&prefix), invalid_receipt("hash must use the sha256 prefix"));

    let mut silent = draft.clone();
    silent.transitions.clear();
    assert_eq!(validate_draft(&silent), invalid_receipt("receipt transitions cannot be empty"));

    let mut over = draft.clone();
    over.consumptions[0].amount.requests = 2;
    assert_eq!(validate_draft(&over), invalid_receipt("consumption cannot exceed its reservation"));

    let mut bad_grant = draft.clone();
    bad_grant.grant.actions = vec!["code".to_string(), "bad action".to_string()];
    assert_eq!(validate_draft(&bad_grant), invalid_receipt("invalid identifier 'bad action'"));
}

fn amount(requests: u64, tokens: u64, wall_time_ms: u64) -> BudgetAmount {
    BudgetAmount { requests, input_tokens: tokens, output_tokens: tokens, wall_time_ms }
}

#[test]
fn the_ledger_names_the_first_reason_it_refuses() {
    let one = amount(1, 10, 100);
    let pair = |id: &str, a: BudgetAmount| (id.to_string(), a);
    assert_eq!(
        reserve_many(None, "grant-1", limits(), &vec![]),
        Err(BudgetError::Invalid("at least one reservation is required".to_string()))
    );
    assert_eq!(
        reserve_many(None, "grant-1", limits(), &vec![pair("a", one), pair("bad id", one)]),
        Err(BudgetError::Invalid("invalid identifier 'bad id'".to_string()))
    );
    assert_eq!(
        reserve_many(None, "grant-1", limits(), &vec![pair("a", one), pair("a", one)]),
        Err(BudgetError::DuplicateReservation("a".to_string()))
    );
    assert_eq!(
        reserve_many(None, "grant-1", limits(), &vec![pair("z", amount(0, 0, 0))]),
        Err(BudgetError::Invalid("a reservation must charge at least one dimension".to_string()))
    );
    assert_eq!(
        reserve_many(None, "grant-1", limits(), &vec![pair("a", one), pair("b", amount(10, 10, 100))]),
        Err(BudgetError::Exceeded)
    );
    assert_eq!(
        reserve_many(None, "grant-1", limits(), &vec![pair("a", amount(1, u64::MAX, 1)), pair("b", one)]),
        Err(BudgetError::Exceeded)
    );
    let ledger = reserve_many(None, "grant-1", limits(), &vec![pair("a", one)]).expect("reserved");
    assert_eq!(ledger.consumed, one);
    assert_eq!(
        reserve_many(Some(ledger.clone()), "grant-1", limits(), &vec![pair("a", one)]),
        Err(BudgetError::DuplicateReservation("a".to_string()))
    );
    assert_eq!(
        reserve_many(Some(ledger.clone()), "grant-2", limits(), &vec![pair("b", one)]),
        Err(BudgetError::Invalid("ledger identity mismatch".to_string()))
    );
    let mut huge = ledger.clone();
    huge.reservations[0].reservation.reserved = amount(1, u64::MAX, 100);
    assert_eq!(
        reserve_many(Some(huge.clone()), "grant-1", limits(), &vec![pair("b", one)]),
        Err(BudgetError::Overflow)
    );
    assert_eq!(
        reserve_many(Some(huge.clone()), "grant-1", limits(), &vec![pair("a", one)]),
        Err(BudgetError::DuplicateReservation("a".to_string()))
    );
    huge.reservations.push(huge.reservations[0].clone());
    huge.reservations[1].id = "b".to_string();
    assert_eq!(
        reserve_many(Some(huge), "grant-1", limits(), &vec![pair("c", one)]),
        Err(BudgetError::Overflow)
    );
    assert_eq!(
        confirm(Some(ledger.clone()), "grant-1", limits(), "missing", one),
        Err(BudgetError::MissingReservation("missing".to_string()))
    );
    assert_eq!(
        confirm(Some(ledger.clone()), "grant-1", limits(), "a", amount(2, 10, 100)),
        Err(BudgetError::ActualExceedsReservation)
    );
    assert_eq!(
        mark_outcome_unknown(Some(ledger.clone()), "grant-1", limits(), "missing"),
        Err(BudgetError::MissingReservation("missing".to_string()))
    );
    assert_eq!(
        ledger_status(ledger.clone(), "bad grant"),
        Err(BudgetError::Invalid("invalid identifier 'bad grant'".to_string()))
    );
    let mut repeated = ledger.clone();
    repeated.reservations.push(repeated.reservations[0].clone());
    assert_eq!(
        ledger_status(repeated, "grant-1"),
        Err(BudgetError::Invalid("ledger reservation ids repeat".to_string()))
    );
}

#[test]
fn a_grant_seal_binds_its_own_fields() {
    let draft = ExecutionGrantDraftV1 {
        schema_version: 1,
        id: "grant-1".to_string(),
        issued_at: 100,
        expires_at: 10_000,
        manifest_hash: hash('a'),
        routes: vec![route("dsh/anthropic/sonnet"), route("dsh/openai/gpt-5")],
        actions: vec!["code".to_string()],
        operations: vec![GrantOperation::Route, GrantOperation::Run],
        limits: limits(),
    };
    let sealed = draft.seal().expect("sealed");
    let expected = format!(
        "{{\"schema_version\":1,\"id\":\"grant-1\",\"issued_at\":100,\"expires_at\":10000,\"manifest_hash\":\"{}\",\"routes\":[\"dsh/anthropic/sonnet\",\"dsh/openai/gpt-5\"],\"actions\":[\"code\"],\"operations\":[\"route\",\"run\"],\"limits\":{{\"requests\":10,\"input_tokens\":10000,\"output_tokens\":10000,\"wall_time_ms\":3600000}}}}",
        hash('a')
    );
    assert_eq!(String::from_utf8(sealed.body_bytes()).unwrap(), expected);
    assert_eq!(sealed.grant_hash, content_hash(expected.as_bytes()));
    assert_eq!(sealed.validate_seal(), Ok(()));
    assert_eq!(sealed.validate_at(100), Ok(()));
    assert_eq!(authorize(&sealed, &vec![], "grant-1", 500), Ok(()));
    let mut widened = sealed.clone();
    widened.limits.requests = 1_000;
    assert_eq!(widened.validate_seal(), Err(GrantError::HashMismatch));
    let mut rerouted = sealed.clone();
    rerouted.routes.push(route("dsh/other/model"));
    assert_eq!(rerouted.validate_seal(), Err(GrantError::HashMismatch));
    assert_eq!(authorize(&rerouted, &vec![], "grant-1", 500), Err(GrantError::HashMismatch));
}

#[test]
fn a_refused_confirmation_takes_the_unknown_outcome_path() {
    let (mut status, ledger) = reserved(3);
    begin_invocation(&mut status, NOW + 20).expect("started");
    let rid = status.attempts[0].reservation_id.clone();
    let before = status.clone();
    let refused: Result<LedgerStatus, BudgetError> = Err(BudgetError::Exceeded);
    let action = finish_known_step(&mut status, &refused, rid.clone(), 1, result(None), NOW + 2_000).expect("step");
    assert_eq!(action, FinishAction::MarkOutcomeUnknown { reservation_id: rid.clone() });
    assert_eq!(status, before);
    let marked = mark_outcome_unknown(Some(ledger), "grant-1", limits(), &rid).expect("marked");
    let action = finish_unknown_step(&mut status, &marked, NOW + 3_000).expect("unknown");
    assert_eq!(
        action,
        FinishAction::RecordHealth {
            route: route("dsh/openai/gpt-5"),
            outcome: HealthOutcomeV2::Ambiguous,
            latency_ms: 60_000,
        }
    );
    assert_eq!(status.phase, RunPhaseV2::OutcomeUnknown);
    assert_eq!(health_recorded_step(&mut status), ResumeStep::FinalizeReceipt);
    assert!(status.attempts[0].health_recorded);
}

#[test]
fn a_confirmed_result_records_known_health_then_seals_or_recovers() {
    for (failure, outcome, next) in [
        (None, HealthOutcomeV2::KnownSuccess, ResumeStep::FinalizeReceipt),
        (Some(InvocationFailure::Transient), HealthOutcomeV2::KnownFailure, ResumeStep::RecoverKnownFailure),
    ] {
        let (mut status, ledger) = reserved(3);
        begin_invocation(&mut status, NOW + 20).expect("started");
        let rid = status.attempts[0].reservation_id.clone();
        let actual = BudgetAmount { requests: 1, input_tokens: 40, output_tokens: 20, wall_time_ms: 1_500 };
        let confirmed = confirm(Some(ledger), "grant-1", limits(), &rid, actual);
        let action = finish_known_step(&mut status, &confirmed, rid, 1, result(failure), NOW + 2_000).expect("step");
        assert_eq!(action, FinishAction::RecordHealth { route: route("dsh/openai/gpt-5"), outcome, latency_ms: 1_500 });
        assert_eq!(health_recorded_step(&mut status), next);
    }
}
