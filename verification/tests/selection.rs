use batuta_routing::application::{
    admitted_candidates, check_new_snapshot, check_stored_snapshot, check_versions, find_profile, validate_parts,
};
use batuta_routing::policy::ExecutionPolicyV2;
use batuta_routing::discard::DiscardKind;
use batuta_routing::route::RouteRef;
use batuta_routing::seal::{AuthorizationDecision, DecisionSealV2, RouteClass, SelectionAuthorizations};
use batuta_routing::selector::{
    check_request, choose_finalist, decision_record, filter_reasons, open_selection, resolve, sift, GateCandidate, GateRequest,
    ProfileFacts, Reason, RequestDraftFacts, RequestProblem, ScoreStanding, SelectError, SelectionStop, Standing,
};

fn route(text: &str) -> RouteRef {
    RouteRef::parse(text).expect("valid route")
}

fn no_authorizations() -> SelectionAuthorizations {
    let none = AuthorizationDecision { requested: false, permitted: false };
    SelectionAuthorizations { allow_any_eligible: none, allow_unverified_quality: none }
}

fn request() -> GateRequest {
    GateRequest {
        schema_version: 2,
        predicted_tokens: 1_000,
        minimum_quality_valid: true,
        margin_valid: true,
        action: "review".to_string(),
        class: RouteClass::Production,
        required_capabilities: vec!["code".to_string(), "tools".to_string()],
        required_context: 32_000,
        effort: Some("high".to_string()),
        now: 500,
        fallback: false,
        authorizations: no_authorizations(),
    }
}

fn candidate(text: &str) -> GateCandidate {
    GateCandidate {
        route: route(text),
        enabled: true,
        class: RouteClass::Production,
        capabilities: vec!["code".to_string(), "tools".to_string()],
        sensitivity_fits: true,
        context_window: 128_000,
        supported_efforts: vec!["low".to_string(), "high".to_string()],
        cooldown_until: None,
        projection_route: route(text),
        projection_action: "review".to_string(),
        score: ScoreStanding::Sufficient,
        verified: true,
        approved_fallback: false,
        economics_valid: true,
        cost_finite: true,
        latency_p95_ms: 900,
        alias: None,
        evidence_hash: format!("sha256:{}", "e".repeat(64)),
    }
}

#[test]
fn a_healthy_candidate_passes_every_gate() {
    assert_eq!(filter_reasons(&request(), &candidate("dsh/openai/gpt-5")), vec![]);
}

#[test]
fn every_failed_gate_is_reported_in_gate_order() {
    let mut c = candidate("dsh/openai/gpt-5");
    c.enabled = false;
    c.class = RouteClass::ProbeTest;
    c.capabilities = vec!["tools".to_string()];
    c.sensitivity_fits = false;
    c.context_window = 8_000;
    c.supported_efforts = vec!["low".to_string()];
    c.cooldown_until = Some(501);
    c.projection_action = "other".to_string();
    c.score = ScoreStanding::BelowMinimum;
    c.verified = false;
    c.economics_valid = false;
    let reasons = filter_reasons(&request(), &c);
    assert_eq!(
        reasons,
        vec![
            Reason::Disabled,
            Reason::ClassMismatch,
            Reason::MissingCapability("code".to_string()),
            Reason::SensitivityTooHigh,
            Reason::ContextTooSmall { available: 8_000, required: 32_000 },
            Reason::UnsupportedEffort("high".to_string()),
            Reason::Cooldown(501),
            Reason::ProjectionMismatch,
            Reason::BelowMinimum,
            Reason::UnverifiedQuality,
            Reason::InvalidEconomics,
        ]
    );
    assert_eq!(reasons[2].kind(), DiscardKind::MissingCapability);
}

#[test]
fn an_ended_cooldown_and_permitted_exceptions_do_not_discard() {
    let mut r = request();
    r.fallback = true;
    r.authorizations.allow_unverified_quality = AuthorizationDecision { requested: true, permitted: true };
    let mut c = candidate("dsh/openai/gpt-5");
    c.cooldown_until = Some(500);
    c.verified = false;
    assert_eq!(filter_reasons(&r, &c), vec![Reason::UnapprovedFallback]);
    r.authorizations.allow_any_eligible = AuthorizationDecision { requested: true, permitted: true };
    assert_eq!(filter_reasons(&r, &c), vec![]);
    c.score = ScoreStanding::Missing;
    assert_eq!(filter_reasons(&r, &c), vec![Reason::NoQualityScore]);
}

#[test]
fn sifting_splits_candidates_and_flags_infinite_costs() {
    let mut bad = candidate("dsh/anthropic/sonnet");
    bad.enabled = false;
    let mut infinite = candidate("dsh/google/gemini");
    infinite.cost_finite = false;
    let cs = vec![candidate("dsh/openai/gpt-5"), bad, infinite, candidate("dsh/openai/gpt-5-mini")];
    let sifted = sift(&request(), &cs);
    assert_eq!(sifted.eligible, vec![0, 3]);
    assert_eq!(sifted.discarded.len(), 2);
    assert_eq!(sifted.discarded[0].index, 1);
    assert_eq!(sifted.discarded[0].reasons, vec![Reason::Disabled]);
    assert_eq!(sifted.discarded[1].index, 2);
    assert_eq!(sifted.discarded[1].route.as_str(), "dsh/google/gemini");
    assert_eq!(sifted.discarded[1].reasons, vec![Reason::InvalidEconomics]);
}

#[test]
fn the_cheapest_finalist_wins_and_ties_go_to_latency_then_route() {
    let mut slow = candidate("dsh/a/slow");
    slow.latency_p95_ms = 2_000;
    let cs = vec![
        candidate("dsh/z/cheap"),
        slow,
        candidate("dsh/b/cheap"),
        candidate("dsh/c/expensive"),
        candidate("dsh/d/narrow"),
    ];
    let sifted = sift(&request(), &cs);
    assert_eq!(sifted.eligible, vec![0, 1, 2, 3, 4]);
    let standings = vec![
        Standing { within_margin: true, cost_key: 10 },
        Standing { within_margin: true, cost_key: 10 },
        Standing { within_margin: true, cost_key: 10 },
        Standing { within_margin: true, cost_key: 20 },
        Standing { within_margin: false, cost_key: 1 },
    ];
    let selection = choose_finalist(&cs, sifted, &standings);
    assert_eq!(selection.selected, 2);
    let routes: Vec<&str> = selection.discarded.iter().map(|d| d.route.as_str()).collect();
    assert_eq!(routes, vec!["dsh/a/slow", "dsh/c/expensive", "dsh/d/narrow", "dsh/z/cheap"]);
    assert_eq!(selection.discarded[0].reasons, vec![Reason::HigherExpectedCost]);
    assert_eq!(selection.discarded[2].reasons, vec![Reason::OutsideSelectionMargin]);
}

#[test]
fn every_candidate_is_chosen_or_discarded_exactly_once() {
    let mut off = candidate("dsh/e/off");
    off.enabled = false;
    let cs = vec![candidate("dsh/b/one"), off, candidate("dsh/a/two"), candidate("dsh/c/three")];
    let sifted = sift(&request(), &cs);
    let standings = vec![
        Standing { within_margin: true, cost_key: 5 },
        Standing { within_margin: false, cost_key: 1 },
        Standing { within_margin: true, cost_key: 7 },
    ];
    let selection = choose_finalist(&cs, sifted, &standings);
    let mut seen: Vec<usize> = selection.discarded.iter().map(|d| d.index).collect();
    seen.push(selection.selected);
    seen.sort();
    assert_eq!(seen, vec![0, 1, 2, 3]);
    assert_eq!(selection.selected, 0);
    assert!(selection.discarded.iter().all(|d| !d.reasons.is_empty()));
}

#[test]
fn requests_are_checked_before_selection() {
    assert_eq!(check_request(2, "review", 10, true, true), Ok(()));
    assert_eq!(check_request(3, "review", 10, true, true), Err(RequestProblem::UnsupportedVersion));
    assert_eq!(check_request(1, "  ", 10, true, true), Err(RequestProblem::EmptyAction));
    assert_eq!(check_request(1, "review", 4_294_967_296, true, true), Err(RequestProblem::TooManyTokens));
    assert_eq!(check_request(1, "review", 4_294_967_295, true, true), Ok(()));
    assert_eq!(check_request(1, "review", 1, false, false), Err(RequestProblem::MinimumQualityOutOfRange));
    assert_eq!(check_request(1, "review", 1, true, false), Err(RequestProblem::MarginOutOfRange));
}

#[test]
fn resolution_requires_the_same_action_and_the_profile_permission() {
    let draft = RequestDraftFacts {
        schema_version: 2,
        action: "review".to_string(),
        predicted_tokens: 10,
        allow_any_eligible: Some(true),
        allow_unverified_quality: Some(true),
    };
    let profile = ProfileFacts { action: "review".to_string(), allow_any_eligible: true, allow_unverified_quality: false };
    let a = resolve(&draft, &profile, true, true).expect("resolves");
    assert_eq!(a.allow_any_eligible, AuthorizationDecision { requested: true, permitted: true });
    assert_eq!(a.allow_unverified_quality, AuthorizationDecision { requested: true, permitted: false });
    let other = ProfileFacts { action: "plan".to_string(), ..profile.clone() };
    assert_eq!(resolve(&draft, &other, true, true), Err(RequestProblem::ActionMismatch));
    let quiet = RequestDraftFacts { allow_any_eligible: None, allow_unverified_quality: Some(false), ..draft };
    let b = resolve(&quiet, &profile, true, true).expect("resolves");
    assert_eq!(b, no_authorizations());
}

#[test]
fn a_selection_stops_on_a_bad_request_a_bad_seal_or_no_eligible_route() {
    let seal = DecisionSealV2::legacy("sha256:policy");
    let cs = vec![candidate("dsh/openai/gpt-5")];
    assert!(open_selection(&request(), &seal, &cs).is_ok());
    let mut bad = request();
    bad.schema_version = 7;
    assert_eq!(
        open_selection(&bad, &seal, &cs),
        Err(SelectionStop::Request(RequestProblem::UnsupportedVersion))
    );
    let mut broken = seal.clone();
    broken.catalog_hash = "nope".to_string();
    assert!(matches!(open_selection(&request(), &broken, &cs), Err(SelectionStop::Seal(_))));
    let mut off = candidate("dsh/openai/gpt-5");
    off.enabled = false;
    match open_selection(&request(), &seal, &vec![off]) {
        Err(SelectionStop::NoEligible(d)) => {
            assert_eq!(d.len(), 1);
            let e = SelectError::no_eligible(d);
            assert_eq!(e.code, "no_eligible_route");
            assert_eq!(e.message, "no route passed capability, evidence, policy and health filters");
        },
        other => panic!("unexpected {other:?}"),
    }
    let invalid = SelectError::invalid("bad".to_string());
    assert_eq!(invalid.code, "invalid_route_request");
    assert!(invalid.discarded.is_empty());
}

#[test]
fn snapshot_parts_must_be_coherent() {
    let profiles = vec![("plan".to_string(), "plan".to_string()), ("review".to_string(), "review".to_string())];
    let projections = vec![(route("dsh/a/m"), "plan".to_string()), (route("dsh/a/m"), "review".to_string())];
    assert_eq!(validate_parts("sha256:p", &profiles, &projections), Ok(()));
    assert_eq!(validate_parts(" ", &profiles, &projections), Err("policy_hash cannot be empty".to_string()));
    let wrong = vec![("plan".to_string(), "review".to_string())];
    assert_eq!(
        validate_parts("sha256:p", &wrong, &projections),
        Err("profile key 'plan' does not match action 'review'".to_string())
    );
    let twice = vec![
        (route("dsh/a/m"), "plan".to_string()),
        (route("dsh/b/m"), "plan".to_string()),
        (route("dsh/a/m"), "plan".to_string()),
    ];
    assert_eq!(
        validate_parts("sha256:p", &profiles, &twice),
        Err("duplicate candidate projection for route 'dsh/a/m' and action 'plan'".to_string())
    );
}

#[test]
fn public_requests_need_version_two_and_a_profile() {
    assert_eq!(check_versions(2, 2, 2), Ok(()));
    assert_eq!(
        check_versions(1, 2, 2),
        Err("route request and envelope schema_version must be 2; received 1/2".to_string())
    );
    assert_eq!(
        check_versions(2, 2, 3),
        Err("routing snapshot schema_version 3 is unsupported; supported: 2".to_string())
    );
    let profiles = vec![("plan".to_string(), "plan".to_string()), ("review".to_string(), "review".to_string())];
    assert_eq!(find_profile(&profiles, "review"), Ok(1));
    assert_eq!(find_profile(&profiles, "deploy"), Err("no routing profile for action 'deploy'".to_string()));
}

#[test]
fn only_allowed_and_unexcluded_projections_of_the_action_are_admitted() {
    let projections = vec![
        (route("dsh/a/m"), "review".to_string()),
        (route("dsh/b/m"), "plan".to_string()),
        (route("dsh/c/m"), "review".to_string()),
        (route("dsh/d/m"), "review".to_string()),
    ];
    assert_eq!(admitted_candidates(&projections, "review", None, &vec![]), vec![0, 2, 3]);
    let allowed = vec![route("dsh/c/m"), route("dsh/d/m"), route("dsh/b/m")];
    let excluded = vec![route("dsh/d/m")];
    assert_eq!(admitted_candidates(&projections, "review", Some(&allowed), &excluded), vec![2]);
}

#[test]
fn snapshots_check_their_limits_version_and_parts() {
    let execution = ExecutionPolicyV2::new(3, 1_000, 1).expect("valid");
    let profiles = vec![("plan".to_string(), "plan".to_string())];
    let projections = vec![(route("dsh/a/m"), "plan".to_string())];
    assert_eq!(check_new_snapshot(execution, "sha256:p", &profiles, &projections), Ok(()));
    let broken = ExecutionPolicyV2 { max_attempts: 0, ..execution };
    let e = check_new_snapshot(broken, "sha256:p", &profiles, &projections).expect_err("invalid limits");
    assert_eq!(e.code, "invalid_route_request");
    assert_eq!(e.message, "invalid routing policy setting execution.attempts_or_retry_after=attempts=0, retry_after_ms=1000");
    let e = check_stored_snapshot(1, execution, "sha256:p", &profiles, &projections).expect_err("old version");
    assert_eq!(e.message, "routing snapshot schema_version 1 is unsupported; supported: 2");
    let e = check_stored_snapshot(2, execution, "", &profiles, &projections).expect_err("no hash");
    assert_eq!(e.message, "policy_hash cannot be empty");
}

#[test]
fn a_decision_records_the_choice_with_the_seal_and_the_request() {
    let mut chosen = candidate("dsh/a/two");
    chosen.alias = Some("two".to_string());
    let cs = vec![candidate("dsh/b/one"), chosen];
    let sifted = sift(&request(), &cs);
    let standings = vec![
        Standing { within_margin: true, cost_key: 9 },
        Standing { within_margin: true, cost_key: 5 },
    ];
    let selection = choose_finalist(&cs, sifted, &standings);
    let seal = DecisionSealV2::legacy("sha256:policy");
    let record = decision_record(&request(), &seal, &cs, selection);
    assert_eq!(record.route.as_str(), "dsh/a/two");
    assert_eq!(record.alias.as_deref(), Some("two"));
    assert_eq!(record.evidence_hash, format!("sha256:{}", "e".repeat(64)));
    assert_eq!(record.policy_hash, "sha256:policy");
    assert_eq!(record.manifest_hash, seal.manifest_hash);
    assert_eq!(record.schema_version, request().schema_version);
    assert_eq!(record.authorizations, request().authorizations);
    assert_eq!(record.discarded.len(), 1);
    assert_eq!(record.discarded[0].route.as_str(), "dsh/b/one");
}

#[test]
fn a_decision_lists_the_seal_receipts_ascending_and_once() {
    let cs = vec![candidate("dsh/a/two")];
    let sifted = sift(&request(), &cs);
    let selection = choose_finalist(&cs, sifted, &[Standing { within_margin: true, cost_key: 1 }].to_vec());
    let mut seal = DecisionSealV2::legacy("sha256:policy");
    let e = format!("sha256:{}", "e".repeat(64));
    let f = format!("sha256:{}", "f".repeat(64));
    seal.capability_receipt_hashes = vec![f.clone(), e.clone(), f.clone()];
    let record = decision_record(&request(), &seal, &cs, selection);
    assert_eq!(record.capability_receipt_hashes, vec![e, f]);
}

#[test]
fn reordering_candidates_keeps_the_decision() {
    let standing = |c: &GateCandidate| match c.route.as_str() {
        "dsh/a/one" => Standing { within_margin: true, cost_key: 7 },
        "dsh/b/two" => Standing { within_margin: true, cost_key: 3 },
        _ => Standing { within_margin: false, cost_key: 1 },
    };
    let pick = |cs: Vec<GateCandidate>| {
        let sifted = sift(&request(), &cs);
        let standings: Vec<Standing> = sifted.eligible.iter().map(|&i| standing(&cs[i])).collect();
        let selection = choose_finalist(&cs, sifted, &standings);
        cs[selection.selected].route.as_str().to_string()
    };
    let forward = pick(vec![candidate("dsh/a/one"), candidate("dsh/b/two"), candidate("dsh/c/three")]);
    let backward = pick(vec![candidate("dsh/c/three"), candidate("dsh/b/two"), candidate("dsh/a/one")]);
    assert_eq!(forward, "dsh/b/two");
    assert_eq!(backward, forward);
}
