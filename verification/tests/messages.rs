use batuta_routing::coordinator::check_run_permitted;
use batuta_routing::discard::from_public;
use batuta_routing::dsh::DshSidecarError;
use batuta_routing::grant::{ExecutionGrantV1, GrantError, GrantLimits, GrantOperation};
use batuta_routing::handoff::HandoffError;
use batuta_routing::ledger::BudgetError;
use batuta_routing::operational::OperationalError;
use batuta_routing::policy::{AliasError, PolicyError};
use batuta_routing::policy_migration::PolicyMigrationError;
use batuta_routing::receipt::RunReceiptError;
use batuta_routing::route::RouteRef;
use batuta_routing::routing_receipt::RoutingReceiptError;
use batuta_routing::run_model::{validate_id, RunCoordinatorError};
use batuta_routing::run_state::RunTransitionError;
use batuta_routing::selector::SelectError;
use batuta_routing::state::{StateManifestV2, StateStore, StateStoreError};
use batuta_routing::stores::{
    validate_profile_hash, validate_profile_id, CatalogStoreError, ExecutionProfileStoreError, GrantStore,
    HealthStoreError, RunReceiptStoreV2, RunStoreError,
};

fn hash(c: char) -> String {
    format!("sha256:{}", c.to_string().repeat(64))
}

fn grant(actions: Vec<&str>, operations: Vec<GrantOperation>) -> ExecutionGrantV1 {
    ExecutionGrantV1 {
        schema_version: 1,
        id: "grant-1".to_string(),
        issued_at: 100,
        expires_at: 10_000,
        manifest_hash: hash('a'),
        routes: vec![RouteRef::parse("dsh/openai/gpt-5").expect("route")],
        actions: actions.into_iter().map(|a| a.to_string()).collect(),
        operations,
        limits: GrantLimits { requests: 1, input_tokens: 1, output_tokens: 1, wall_time_ms: 1 },
        grant_hash: hash('b'),
    }
}

#[test]
fn sidecar_failures_read_as_the_command_line_prints_them() {
    assert_eq!(DshSidecarError::Timeout.message(), "DSH sidecar timed out");
    assert_eq!(
        DshSidecarError::Protocol("bad".to_string()).message(),
        "DSH sidecar protocol error: bad"
    );
    let remote = DshSidecarError::Remote { code: "c".to_string(), field: "f".to_string(), message: "m".to_string() };
    assert_eq!(remote.message(), "DSH sidecar c at f: m");
    let exit = DshSidecarError::Exit { code: Some(-9), stderr: "boom".to_string() };
    assert_eq!(exit.message(), "DSH sidecar exited Some(-9): boom");
    let killed = DshSidecarError::Exit { code: None, stderr: String::new() };
    assert_eq!(killed.message(), "DSH sidecar exited None: ");
}

#[test]
fn grant_budget_and_state_failures_carry_their_values() {
    let window = GrantError::NotActive { now: 5, issued_at: 10, expires_at: 20 };
    assert_eq!(window.message(), "grant_not_active: 5 not in [10, 20)");
    assert_eq!(GrantError::Revoked("g".to_string()).message(), "grant_revoked: g");
    assert_eq!(BudgetError::DuplicateReservation("r".to_string()).message(), "reservation already exists: r");
    assert_eq!(BudgetError::Exceeded.message(), "grant budget exceeded");
    let conflict = StateStoreError::Conflict { expected: "a".to_string(), actual: "b".to_string() };
    assert_eq!(conflict.message(), "state manifest changed: expected a, received b");
    assert_eq!(StateStoreError::Invalid("x".to_string()).message(), "invalid state store: x");
}

#[test]
fn store_failures_name_what_they_concern() {
    assert_eq!(
        CatalogStoreError::InvalidId("x y".to_string()).message(),
        "invalid catalog proposal id 'x y'"
    );
    assert_eq!(CatalogStoreError::BaseConflict.message(), "active catalog changed since proposal creation");
    let conflict = ExecutionProfileStoreError::Conflict { expected: "a".to_string(), actual: "b".to_string() };
    assert_eq!(conflict.message(), "execution_profile_conflict: expected a, received b");
    assert_eq!(
        HealthStoreError::SchemaVersion { received: 3 }.message(),
        "invalid health schema_version 3; supported: 1"
    );
    let route = RouteRef::parse("dsh/a/m").expect("route");
    assert_eq!(HealthStoreError::InvalidHealth { route }.message(), "invalid health for route 'dsh/a/m'");
    assert_eq!(RunStoreError::InvalidId("../x".to_string()).message(), "invalid run id '../x'");
    assert_eq!(RunReceiptError::Invalid("why".to_string()).message(), "invalid run receipt: why");
    assert_eq!(RunReceiptError::AlreadyExists("r".to_string()).message(), "run receipt 'r' already exists");
}

#[test]
fn run_and_document_failures_read_as_printed() {
    assert_eq!(
        RunCoordinatorError::ProbeNotDue { next_action_at: 42 }.message(),
        "probe_not_due: next action at 42"
    );
    assert_eq!(RunCoordinatorError::Budget("b".to_string()).message(), "b");
    assert_eq!(RunCoordinatorError::AlreadyExists("r".to_string()).message(), "run already exists: r");
    assert_eq!(
        HandoffError::Empty { field: "objective" }.message(),
        "checkpoint field 'objective' cannot be empty"
    );
    assert_eq!(RoutingReceiptError::InvalidTransitions.message(), "routing receipt transitions are invalid");
    let refused = RunTransitionError { state: "completed", event: "start" };
    assert_eq!(refused.message(), "cannot apply 'start' while run is 'completed'; one active route is allowed");
    assert_eq!(PolicyMigrationError::BackupConflict.message(), "policy v1 backup exists with different bytes");
    assert_eq!(OperationalError::Conflict("manifest").message(), "stale_operational_base: manifest");
    assert_eq!(
        SelectError::invalid("bad".to_string()).message(),
        "invalid_route_request: bad"
    );
}

#[test]
fn policy_failures_print_versions_settings_and_aliases() {
    assert_eq!(
        PolicyError::SchemaVersion { received: -1 }.message(),
        "unsupported routing policy schema_version -1; supported: 2"
    );
    assert_eq!(
        PolicyError::SchemaVersion { received: i64::MIN }.message(),
        "unsupported routing policy schema_version -9223372036854775808; supported: 2"
    );
    let setting = PolicyError::InvalidSetting { field: "minimum_quality", value: "NaN".to_string() };
    assert_eq!(setting.message(), "invalid routing policy setting minimum_quality=NaN");
    let unknown = AliasError::Unknown { value: "x".to_string(), aliases: vec!["fast".to_string(), "slow".to_string()] };
    assert_eq!(unknown.message(), format!("unknown route or alias 'x'; aliases: {:?}", vec!["fast", "slow"]));
    let none = AliasError::Unknown { value: "x".to_string(), aliases: vec![] };
    assert_eq!(none.message(), "unknown route or alias 'x'; aliases: []");
    assert_eq!(PolicyError::Alias(none).message(), "unknown route or alias 'x'; aliases: []");
}

#[test]
fn identifiers_and_hashes_are_named_in_their_failures() {
    assert_eq!(
        validate_id("bad id"),
        Err(RunCoordinatorError::Invalid("invalid identifier 'bad id'".to_string()))
    );
    assert_eq!(
        validate_profile_id(""),
        Err(ExecutionProfileStoreError::Invalid("invalid identifier ''".to_string()))
    );
    assert_eq!(
        validate_profile_hash("sha256:XYZ"),
        Err(ExecutionProfileStoreError::Invalid("invalid content hash 'sha256:XYZ'".to_string()))
    );
    let grants = GrantStore::open("/var/grants".to_string());
    assert_eq!(grants.grant_path("a/b"), Err(GrantError::Invalid("invalid identifier 'a/b'".to_string())));
    let receipts = RunReceiptStoreV2::open("/var/receipts".to_string());
    assert_eq!(
        receipts.path_for("a b"),
        Err(RunReceiptError::Invalid("identifier contains unsupported characters".to_string()))
    );
    let store = StateStore::open("/var/state".to_string());
    assert_eq!(
        store.object_path("sha256:abc"),
        Err(StateStoreError::Invalid("invalid content hash 'sha256:abc'".to_string()))
    );
    let manifest = StateManifestV2 {
        schema_version: 3,
        generation: 1,
        catalog_hash: hash('a'),
        policy_hash: hash('a'),
        evidence_hash: hash('a'),
        health_hash: hash('a'),
        capabilities_hash: hash('a'),
    };
    assert_eq!(
        manifest.validate(),
        Err(StateStoreError::Invalid("state manifest schema_version 3 is unsupported; supported: 2".to_string()))
    );
}

#[test]
fn an_object_whose_bytes_changed_names_both_hashes() {
    let store = StateStore::open("/var/state".to_string());
    let expected = hash('0');
    match store.check_object(&expected, b"{}") {
        Err(StateStoreError::Invalid(m)) => {
            assert!(m.starts_with(&format!("object hash mismatch for '/var/state/objects/{}.json': expected {expected}, received sha256:", "0".repeat(64))));
        },
        other => panic!("unexpected {other:?}"),
    }
}

#[test]
fn a_run_needs_its_action_and_the_run_operation() {
    assert_eq!(check_run_permitted(&grant(vec!["code"], vec![GrantOperation::Run]), "code"), Ok(()));
    let refused = Err(RunCoordinatorError::Grant("grant does not permit the exact action and run operation".to_string()));
    assert_eq!(check_run_permitted(&grant(vec!["code"], vec![GrantOperation::Run]), "review"), refused);
    assert_eq!(check_run_permitted(&grant(vec!["code"], vec![]), "code"), refused);
}

#[test]
fn stored_discards_name_the_unknown_code_or_missing_detail() {
    assert_eq!(from_public("teleported", "x", "y", &vec![]), Err("unknown discard code: teleported".to_string()));
    assert_eq!(
        from_public("cooldown", "health.cooldown_until", "route is cooling down", &vec![]),
        Err("missing discard detail: until".to_string())
    );
}
