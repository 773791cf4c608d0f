use batuta_routing::discard::{from_public, DiscardKind};
use batuta_routing::assembly::{assemble_plan, AssemblyError, AssemblyInput, CapabilityFacts, CatalogEntryFacts};
use batuta_routing::catalog::{CatalogClass, DiscoveredRoute, DshCatalogBridge};
use batuta_routing::grant::GrantLimits;
use batuta_routing::operational::{
    validate_hash, validate_text, validate_url, CanaryEffectsV2, CanaryScenarioV2, CapabilityCanaryReceiptV2,
    OperationalError, ToolEventV2,
};
use batuta_routing::policy::ExecutionPolicyV2;
use batuta_routing::route::RouteRef;
use batuta_routing::routing_receipt::{
    validate_routing_receipt, ProjectionKey, RoutingReceiptError, RoutingReceiptFacts, RoutingTransition,
};
use batuta_routing::state::{commit_generation, new_manifest, StateStoreError};
use batuta_routing::text::{content_hash, decimal_string, hex_encode};

fn route(text: &str) -> RouteRef {
    RouteRef::parse(text).expect("valid route")
}

fn hash(c: char) -> String {
    format!("sha256:{}", c.to_string().repeat(64))
}

#[test]
fn content_hash_is_the_sha256_of_the_bytes() {
    assert_eq!(
        content_hash(b""),
        "sha256:e3b0c44298fc1c149afbf4c8996fb92427ae41e4649b934ca495991b7852b855"
    );
    assert_eq!(
        content_hash(b"abc"),
        "sha256:ba7816bf8f01cfea414140de5dae2223b00361a396177a9cb410ff61f20015ad"
    );
    assert_eq!(hex_encode(&[0, 15, 16, 255]), "000f10ff");
    assert_eq!(decimal_string(0), "0");
    assert_eq!(decimal_string(1_234_567), "1234567");
    assert_eq!(decimal_string(u64::MAX), "18446744073709551615");
}

fn event(tool: &str, success: bool) -> ToolEventV2 {
    ToolEventV2 {
        tool: tool.to_string(),
        success,
        result: Some("ok".to_string()),
        result_digest: None,
        artifact: None,
        source_url: None,
        source_status: None,
    }
}

fn limits() -> GrantLimits {
    GrantLimits { requests: 1, input_tokens: 100, output_tokens: 100, wall_time_ms: 1_000 }
}

fn read_canary(response: &str, events: Vec<ToolEventV2>) -> Result<CapabilityCanaryReceiptV2, OperationalError> {
    CapabilityCanaryReceiptV2::new(
        route("dsh/openai/gpt-5"),
        "2025-01".to_string(),
        CanaryScenarioV2::Read,
        hash('a'),
        "grant-1".to_string(),
        limits(),
        events,
        CanaryEffectsV2 {
            expected_nonce: Some("nonce-7".to_string()),
            response: Some(response.to_string()),
            ..CanaryEffectsV2::default()
        },
        2_000,
    )
}

#[test]
fn a_read_canary_needs_the_exact_nonce() {
    let receipt = read_canary("nonce-7", vec![event("zeta", true), event("alpha", false)]).expect("positive");
    assert!(receipt.positive);
    assert_eq!(receipt.tool_events[0].tool, "alpha");
    assert_eq!(receipt.tool_events[1].tool, "zeta");
    assert!(receipt.is_positive_at(1_999));
    assert!(!receipt.is_positive_at(2_000));
    assert_eq!(receipt.receipt_hash, receipt.calculate_hash());
    let body = String::from_utf8(receipt.body_bytes()).unwrap();
    assert!(body.starts_with("{\"schema_version\":2,\"route\":\"dsh/openai/gpt-5\",\"model_revision\":\"2025-01\",\"scenario\":\"read\""));
    assert!(body.ends_with(",\"expires_at\":2000,\"positive\":true}"));
    assert!(matches!(read_canary("nonce-8", vec![event("a", true)]), Err(OperationalError::Invalid(_))));
    assert!(matches!(read_canary("nonce-7", vec![event("a", false)]), Err(OperationalError::Invalid(_))));
}

#[test]
fn an_altered_canary_is_no_longer_positive() {
    let mut receipt = read_canary("nonce-7", vec![event("a", true)]).expect("positive");
    receipt.expires_at = 3_000;
    assert!(!receipt.is_positive_at(10));
}

#[test]
fn a_write_canary_forbids_lateral_writes() {
    let effects = CanaryEffectsV2 {
        expected_artifact: Some("out/a.txt".to_string()),
        observed_artifact: Some("out/a.txt".to_string()),
        expected_artifact_digest: Some(hash('c')),
        observed_artifact_digest: Some(hash('c')),
        lateral_writes: vec!["b".to_string()],
        ..CanaryEffectsV2::default()
    };
    let r = CapabilityCanaryReceiptV2::new(
        route("dsh/openai/gpt-5"),
        "rev".to_string(),
        CanaryScenarioV2::Write,
        hash('a'),
        "grant-1".to_string(),
        limits(),
        vec![event("write", true)],
        effects.clone(),
        10,
    );
    assert!(matches!(r, Err(OperationalError::Invalid(_))));
    let mut clean = effects;
    clean.lateral_writes.clear();
    assert!(CapabilityCanaryReceiptV2::new(
        route("dsh/openai/gpt-5"),
        "rev".to_string(),
        CanaryScenarioV2::Write,
        hash('a'),
        "grant-1".to_string(),
        limits(),
        vec![event("write", true)],
        clean,
        10,
    )
    .is_ok());
}

#[test]
fn a_web_canary_needs_its_source_from_a_successful_event() {
    let url = "https://example.org/page".to_string();
    let effects = CanaryEffectsV2 {
        source_url: Some(url.clone()),
        source_status: Some(200),
        source_digest: Some(hash('d')),
        ..CanaryEffectsV2::default()
    };
    let mut fetch = event("fetch", true);
    fetch.source_url = Some(url.clone());
    fetch.source_status = Some(200);
    let make = |events: Vec<ToolEventV2>| {
        CapabilityCanaryReceiptV2::new(
            route("dsh/openai/gpt-5"),
            "rev".to_string(),
            CanaryScenarioV2::Web,
            hash('a'),
            "grant-1".to_string(),
            limits(),
            events,
            effects.clone(),
            10,
        )
    };
    assert!(make(vec![fetch.clone()]).is_ok());
    let mut other = fetch.clone();
    other.source_status = Some(404);
    assert!(make(vec![other, event("x", true)]).is_err());
}

#[test]
fn field_checks_of_operational_documents() {
    assert!(validate_text("f", "ok").is_ok());
    assert!(validate_text("f", "  ").is_err());
    assert!(validate_text("f", &"x".repeat(4_097)).is_err());
    assert!(validate_url("https://a").is_ok());
    assert!(validate_url("http://a").is_ok());
    assert!(validate_url("ftp://a").is_err());
    assert!(validate_hash("f", &hash('A')).is_ok());
    assert!(validate_hash("f", "sha256:xyz").is_err());
}

fn discovered(provider: &str, model: &str, revision: Option<&str>, zero: bool) -> DiscoveredRoute {
    DiscoveredRoute {
        provider: provider.to_string(),
        model: model.to_string(),
        revision: revision.map(str::to_string),
        cost_proven_zero: zero,
    }
}

#[test]
fn catalog_import_keeps_safe_unique_routes_in_order() {
    let items = vec![
        discovered("openai", "gpt-5", None, false),
        discovered("opencode", "free", None, false),
        discovered("opencode", "zero", Some("v1"), true),
        discovered("bad provider", "x", None, true),
        discovered("openai", "gpt-5", None, true),
        discovered("anthropic", "sonnet", None, false),
    ];
    let plan = DshCatalogBridge::import(&items);
    let routes: Vec<&str> = plan.routes.iter().map(|r| r.route.as_str()).collect();
    assert_eq!(routes, vec!["dsh/anthropic/sonnet", "dsh/openai/gpt-5", "dsh/opencode/zero/v1"]);
    assert_eq!(plan.routes[1].index, 0);
    assert!(plan.routes.iter().all(|r| r.class == CatalogClass::ProbeTest));
    let codes: Vec<(&str, &str)> = plan.rejected.iter().map(|r| (r.provider.as_str(), r.code.as_str())).collect();
    assert_eq!(
        codes,
        vec![
            ("bad provider", "invalid_route_ref"),
            ("openai", "duplicate_route_ref"),
            ("opencode", "opencode_cost_not_proven_zero"),
        ]
    );
    assert_eq!(plan.rejected[2].message, "every OpenCode cost component must be known, finite and zero");
    assert_eq!(plan.rejected[0].message, "provider, model or revision is not a safe route segment");
}

fn entry(text: &str, policy: bool, health: bool, capability: Option<CapabilityFacts>) -> CatalogEntryFacts {
    CatalogEntryFacts {
        route: route(text),
        has_policy: policy,
        economics_valid: true,
        has_health: health,
        capability,
    }
}

fn input(routes: Vec<CatalogEntryFacts>) -> AssemblyInput {
    AssemblyInput {
        catalog_version: 2,
        policy_version: 2,
        evidence_version: 2,
        health_version: 2,
        capabilities_version: 2,
        profiles: vec![("code".to_string(), "code".to_string()), ("review".to_string(), "review".to_string())],
        execution: ExecutionPolicyV2::new(3, 1_000, 1).unwrap(),
        projections: vec![
            (route("dsh/openai/gpt-5"), "code".to_string()),
            (route("dsh/openai/gpt-5"), "review".to_string()),
            (route("dsh/anthropic/sonnet"), "code".to_string()),
        ],
        routes,
    }
}

#[test]
fn assembly_makes_one_candidate_per_complete_route_and_action() {
    let live = CapabilityFacts { expires_at: 500, receipt_hashes: vec![hash('f'), hash('e'), hash('f')] };
    let expired = CapabilityFacts { expires_at: 50, receipt_hashes: vec![hash('9')] };
    let manifest = new_manifest(3, hash('1'), hash('2'), hash('3'), hash('4'), hash('5'));
    let i = input(vec![
        entry("dsh/anthropic/sonnet", true, true, Some(expired)),
        entry("dsh/openai/gpt-5", true, true, Some(live)),
        entry("dsh/zeta/model", true, false, None),
    ]);
    let plan = assemble_plan(&i, &manifest, 100).expect("assembled");
    let candidates: Vec<(&str, &str)> =
        plan.candidates.iter().map(|c| (c.route.as_str(), c.action.as_str())).collect();
    assert_eq!(
        candidates,
        vec![("dsh/anthropic/sonnet", "code"), ("dsh/openai/gpt-5", "code"), ("dsh/openai/gpt-5", "review")]
    );
    let sources: Vec<(usize, usize, bool)> =
        plan.candidates.iter().map(|c| (c.route_index, c.projection_index, c.capabilities_live)).collect();
    assert_eq!(sources, vec![(0, 2, false), (1, 0, true), (1, 1, true)]);
    assert_eq!(plan.discarded[1].message, "route 'dsh/zeta/model' has incomplete health.routes");
    let discards: Vec<(&str, Option<&str>, &str)> = plan
        .discarded
        .iter()
        .map(|d| (d.route.as_str(), d.action.as_deref(), d.code.as_str()))
        .collect();
    assert_eq!(
        discards,
        vec![
            ("dsh/anthropic/sonnet", Some("review"), "missing_quality_projection"),
            ("dsh/zeta/model", None, "missing_health_route"),
        ]
    );
    assert_eq!(plan.seal.capability_receipt_hashes, vec![hash('e'), hash('f')]);
    assert_eq!(plan.seal.manifest_hash, manifest.manifest_hash());
    assert_eq!(plan.seal.catalog_hash, hash('1'));
}

#[test]
fn assembly_refuses_invalid_generations() {
    let manifest = new_manifest(3, hash('1'), hash('2'), hash('3'), hash('4'), hash('5'));
    let mut versions = input(vec![]);
    versions.health_version = 1;
    assert!(matches!(assemble_plan(&versions, &manifest, 0), Err(AssemblyError::Invalid(_))));
    let mut duplicate = input(vec![]);
    duplicate.projections.push((route("dsh/openai/gpt-5"), "code".to_string()));
    assert_eq!(
        assemble_plan(&duplicate, &manifest, 0),
        Err(AssemblyError::Invalid("duplicate evidence projection for route and action".to_string()))
    );
    let bad = CapabilityFacts { expires_at: 500, receipt_hashes: vec!["sha256:XYZ".to_string()] };
    let hashes = input(vec![entry("dsh/openai/gpt-5", true, true, Some(bad))]);
    assert_eq!(
        assemble_plan(&hashes, &manifest, 0),
        Err(AssemblyError::Invalid("invalid capability receipt hash 'sha256:XYZ'".to_string()))
    );
    let mut economics = input(vec![entry("dsh/openai/gpt-5", true, true, Some(CapabilityFacts { expires_at: 0, receipt_hashes: vec![] }))]);
    economics.routes[0].economics_valid = false;
    assert_eq!(
        assemble_plan(&economics, &manifest, 0),
        Err(AssemblyError::Invalid("invalid economics for route 'dsh/openai/gpt-5'".to_string()))
    );
    let mut profile = input(vec![]);
    profile.profiles[0].1 = "other".to_string();
    assert_eq!(
        assemble_plan(&profile, &manifest, 0),
        Err(AssemblyError::Invalid("profile key 'code' does not match action 'other'".to_string()))
    );
}

fn receipt_facts() -> RoutingReceiptFacts {
    RoutingReceiptFacts {
        schema_version: 2,
        id: "rr-1".to_string(),
        request_schema_version: 2,
        request_action: "code".to_string(),
        decision_schema_version: 2,
        decision_route: route("dsh/openai/gpt-5"),
        decision_policy_hash: hash('f'),
        decision_evidence_hash: hash('e'),
        policy_hash: hash('f'),
        evidence_hash: hash('e'),
        projections: vec![
            ProjectionKey { route: route("dsh/openai/gpt-5"), action: "code".to_string(), evidence_hash: hash('e') },
            ProjectionKey { route: route("dsh/anthropic/sonnet"), action: "code".to_string(), evidence_hash: hash('e') },
        ],
        transitions: vec![
            RoutingTransition::new(10, "planned", "running", Some(route("dsh/openai/gpt-5"))),
            RoutingTransition::new(12, "running", "completed", None),
        ],
    }
}

#[test]
fn routing_receipts_are_checked_in_order() {
    assert!(validate_routing_receipt(&receipt_facts()).is_ok());
    let mut id = receipt_facts();
    id.id = "bad id".to_string();
    assert_eq!(validate_routing_receipt(&id), Err(RoutingReceiptError::InvalidId("bad id".to_string())));
    let mut version = receipt_facts();
    version.decision_schema_version = 1;
    assert_eq!(validate_routing_receipt(&version), Err(RoutingReceiptError::SchemaVersion));
    let mut hashes = receipt_facts();
    hashes.evidence_hash = hash('0');
    assert_eq!(validate_routing_receipt(&hashes), Err(RoutingReceiptError::HashMismatch));
    let mut twice = receipt_facts();
    let first = twice.projections[0].clone();
    twice.projections.push(first);
    assert_eq!(validate_routing_receipt(&twice), Err(RoutingReceiptError::SelectedProjectionMismatch));
    let mut order = receipt_facts();
    order.transitions[1].at = 9;
    assert_eq!(validate_routing_receipt(&order), Err(RoutingReceiptError::InvalidTransitions));
    let mut empty = receipt_facts();
    empty.transitions[0].to = String::new();
    assert_eq!(validate_routing_receipt(&empty), Err(RoutingReceiptError::InvalidTransitions));
}

#[test]
fn discard_reasons_have_a_stable_public_form() {
    assert_eq!(DiscardKind::Cooldown.public_parts(), ("cooldown", "health.cooldown_until", "route is cooling down"));
    assert_eq!(DiscardKind::BelowMinimum.detail_names(), vec!["score", "minimum"]);
    let until = vec!["until".to_string()];
    assert_eq!(from_public("cooldown", "health.cooldown_until", "route is cooling down", &until), Ok(DiscardKind::Cooldown));
    assert!(from_public("cooldown", "health.cooldown_until", "route is cooling down", &vec![]).is_err());
    let extra = vec!["until".to_string(), "why".to_string()];
    assert!(from_public("cooldown", "health.cooldown_until", "route is cooling down", &extra).is_err());
    assert!(from_public("cooldown", "health.other", "route is cooling down", &until).is_err());
    assert!(from_public("teleported", "x", "y", &vec![]).is_err());
    let (code, field, message) = DiscardKind::InvalidEconomics.public_parts();
    assert_eq!(from_public(code, field, message, &vec![]), Ok(DiscardKind::InvalidEconomics));
}

#[test]
fn a_commit_publishes_the_next_generation_only_on_its_base() {
    let manifest = new_manifest(3, hash('1'), hash('2'), hash('3'), hash('4'), hash('5'));
    let base = manifest.manifest_hash();
    assert_eq!(commit_generation(None, None), Ok(1));
    assert_eq!(commit_generation(None, Some(&manifest)), Ok(4));
    assert_eq!(commit_generation(Some(&base), Some(&manifest)), Ok(4));
    assert_eq!(commit_generation(Some(&base), None), Err(StateStoreError::NotFound));
    assert_eq!(
        commit_generation(Some("sha256:x"), Some(&manifest)),
        Err(StateStoreError::Invalid("invalid content hash 'sha256:x'".to_string()))
    );
    assert_eq!(
        commit_generation(Some(&hash('9')), Some(&manifest)),
        Err(StateStoreError::Conflict { expected: hash('9'), actual: base.clone() })
    );
}

#[test]
fn canary_events_of_equal_rank_keep_their_input_order() {
    let mut first = event("read", true);
    first.result = Some("first".to_string());
    let mut second = event("read", true);
    second.result = Some("second".to_string());
    let a = read_canary("nonce-7", vec![event("zeta", true), first.clone(), second.clone()]).expect("positive");
    assert_eq!(a.tool_events[0].result.as_deref(), Some("first"));
    assert_eq!(a.tool_events[1].result.as_deref(), Some("second"));
    assert_eq!(a.tool_events[2].tool, "zeta");
    let b = read_canary("nonce-7", vec![second, event("zeta", true), first]).expect("positive");
    assert_eq!(b.tool_events[0].result.as_deref(), Some("second"));
    assert_eq!(b.tool_events[1].result.as_deref(), Some("first"));
    assert_ne!(a.receipt_hash, b.receipt_hash);
}

#[test]
fn json_strings_are_escaped_as_serde_json_escapes_them() {
    for text in ["plain", "quote \" and \\ slash", "lines\n\r\t\u{8}\u{c}", "\u{1}\u{1f}\u{7f}", "ñandú ✓ 😀"] {
        let mut out = Vec::new();
        batuta_routing::json::push_json_string(&mut out, text);
        assert_eq!(String::from_utf8(out).unwrap(), serde_json::to_string(text).unwrap());
    }
}
