use batuta_routing::runtime::ExecutionBusy;
use batuta_routing::state::{after_failed_commit, CommitRetry, StateStoreError, HEALTH_COMMIT_ATTEMPTS};
use batuta_routing::stores::catalog_status;
use batuta_routing::dsh::{
    process_outcome,
    absorb_chunk, check_reply, request_line, single_line, DshSidecarClient, DshSidecarError, SidecarRemoteError,
    SidecarReply,
};
use batuta_routing::policy_migration::{MigrationStep, PolicyMigration, PolicyMigrationError};
use batuta_routing::stores::{
    check_apply_request, check_profile_apply_request, check_profile_base, check_proposal, check_run_document,
    profile_status, validate_profile_proposal, validate_run_id, ProfileProposalFacts, CatalogStore, CatalogStoreError, ExecutionProfileStore,
    ExecutionProfileStoreError, GrantStore, LedgerStore, RunReceiptStoreV2, RunStoreError,
    EMPTY_EXECUTION_PROFILE_HASH,
};
use batuta_routing::text::content_hash;

fn hash(c: char) -> String {
    format!("sha256:{}", c.to_string().repeat(64))
}

#[test]
fn sidecar_configuration_needs_positive_limits() {
    let ok = DshSidecarClient::new("dsh".to_string(), vec!["catalog".to_string()], vec![], 1_000, 10, 10);
    assert!(ok.is_ok());
    for (t, o, e) in [(0, 10, 10), (1, 0, 10), (1, 10, 0)] {
        let r = DshSidecarClient::new("dsh".to_string(), vec![], vec![], t, o, e);
        assert!(matches!(r, Err(DshSidecarError::Configuration)));
    }
}

#[test]
fn the_sidecar_request_is_one_json_line() {
    let line = request_line("snap-1").unwrap();
    assert_eq!(line, b"{\"schema_version\":1,\"id\":\"snap-1\",\"method\":\"catalog_snapshot\"}\n".to_vec());
    assert!(matches!(request_line("bad id"), Err(DshSidecarError::Configuration)));
}

#[test]
fn captured_output_is_bounded() {
    let mut kept = Vec::new();
    assert!(!absorb_chunk(&mut kept, b"abc", 5));
    assert!(absorb_chunk(&mut kept, b"defg", 5));
    assert_eq!(kept, b"abcde".to_vec());
    assert!(absorb_chunk(&mut kept, b"h", 5));
    assert_eq!(kept, b"abcde".to_vec());
    assert!(!absorb_chunk(&mut kept, b"", 5));
}

#[test]
fn the_sidecar_emits_exactly_one_line() {
    assert_eq!(single_line(b"{}\n").unwrap(), b"{}".to_vec());
    assert_eq!(single_line(b"{}\r\n").unwrap(), b"{}".to_vec());
    assert_eq!(single_line(b"{}").unwrap(), b"{}".to_vec());
    assert_eq!(single_line(b"{}\r").unwrap(), b"{}\r".to_vec());
    assert!(matches!(single_line(b""), Err(DshSidecarError::Protocol(_))));
    assert!(matches!(single_line(b"a\nb\n"), Err(DshSidecarError::Protocol(_))));
    assert!(matches!(single_line(b"a\nb"), Err(DshSidecarError::Protocol(_))));
    assert!(matches!(single_line(&[0xff, b'\n']), Err(DshSidecarError::Protocol(_))));
}

fn reply(id: &str, ok: bool, has_result: bool, error: Option<SidecarRemoteError>) -> SidecarReply {
    SidecarReply { schema_version: 1, id: id.to_string(), ok, has_result, error }
}

#[test]
fn sidecar_replies_are_correlated() {
    assert!(check_reply(reply("snap-1", true, true, None), "snap-1").is_ok());
    assert!(matches!(check_reply(reply("snap-2", true, true, None), "snap-1"), Err(DshSidecarError::Protocol(_))));
    assert!(matches!(check_reply(reply("snap-1", true, false, None), "snap-1"), Err(DshSidecarError::Protocol(_))));
    assert!(matches!(check_reply(reply("snap-1", false, false, None), "snap-1"), Err(DshSidecarError::Protocol(_))));
    let remote = SidecarRemoteError { code: "auth".to_string(), field: "token".to_string(), message: "expired".to_string() };
    assert_eq!(
        check_reply(reply("snap-1", false, false, Some(remote)), "snap-1"),
        Err(DshSidecarError::Remote { code: "auth".to_string(), field: "token".to_string(), message: "expired".to_string() })
    );
}

#[test]
fn store_locations_follow_the_layout() {
    let catalog = CatalogStore::open("/state/catalog".to_string());
    assert_eq!(catalog.active_path(), "/state/catalog/active.json");
    assert_eq!(catalog.proposals(), "/state/catalog/proposals");
    assert_eq!(catalog.proposal_path("p1").unwrap(), "/state/catalog/proposals/p1.json");
    assert_eq!(catalog.proposal_path("../x"), Err(CatalogStoreError::InvalidId("../x".to_string())));
    let profiles = ExecutionProfileStore::open("/s/profile/".to_string(), "/s/leases".to_string());
    assert_eq!(profiles.staged_path("p2"), "/s/profile/staging/p2.json");
    assert_eq!(profiles.active_path(), "/s/profile/active.json");
    let grants = GrantStore::open("grants".to_string());
    assert_eq!(grants.grant_path("g1").unwrap(), "grants/objects/g1.json");
    assert_eq!(grants.revocations_path(), "grants/revocations.jsonl");
    assert!(grants.grant_path("").is_err());
    assert_eq!(LedgerStore::open("ledger".to_string(), "leases".to_string()).path("g1"), "ledger/g1.json");
    assert_eq!(RunReceiptStoreV2::open("receipts".to_string()).path_for("run-1").unwrap(), "receipts/run-1.json");
}

#[test]
fn catalog_activation_needs_confirmation_seals_and_base() {
    assert_eq!(check_apply_request("p1", false), Err(CatalogStoreError::NotConfirmed));
    assert_eq!(check_apply_request("bad id", true), Err(CatalogStoreError::InvalidId("bad id".to_string())));
    assert!(check_apply_request("p1", true).is_ok());
    let (a, b, c) = (hash('a'), hash('b'), hash('c'));
    assert!(check_proposal("p1", 2, "p1", &a, &a, &b, &b, &c, &c).is_ok());
    assert_eq!(check_proposal("p1", 1, "p1", &a, &a, &b, &b, &c, &c), Err(CatalogStoreError::ProposalHashMismatch));
    assert_eq!(check_proposal("p1", 2, "p2", &a, &a, &b, &b, &c, &c), Err(CatalogStoreError::ProposalHashMismatch));
    assert_eq!(check_proposal("p1", 2, "p1", &a, &b, &b, &b, &c, &c), Err(CatalogStoreError::ProposalHashMismatch));
    assert_eq!(check_proposal("p1", 2, "p1", &a, &a, &b, &b, &c, &a), Err(CatalogStoreError::BaseConflict));
    assert_eq!(CatalogStoreError::BaseConflict.code(), "catalog_base_conflict");
}

#[test]
fn profile_publication_is_compare_and_swap() {
    assert_eq!(EMPTY_EXECUTION_PROFILE_HASH.len(), 71);
    assert!(check_profile_apply_request("p1", EMPTY_EXECUTION_PROFILE_HASH, true).is_ok());
    assert_eq!(check_profile_apply_request("p1", &hash('a'), false), Err(ExecutionProfileStoreError::ConfirmationRequired));
    assert!(matches!(check_profile_apply_request("p1", &hash('A'), true), Err(ExecutionProfileStoreError::Invalid(_))));
    let (a, b) = (hash('a'), hash('b'));
    assert!(check_profile_base("p1", "p1", &a, &a, &a).is_ok());
    assert_eq!(
        check_profile_base("p1", "p1", &b, &a, &a),
        Err(ExecutionProfileStoreError::Conflict { expected: b.clone(), actual: a.clone() })
    );
    assert_eq!(
        check_profile_base("p1", "p1", &a, &a, &b),
        Err(ExecutionProfileStoreError::Conflict { expected: a.clone(), actual: b.clone() })
    );
    assert!(validate_profile_proposal(1, "p1", &a, &b, true, &b, &a, &a).is_ok());
    assert_eq!(validate_profile_proposal(1, "p1", &a, &b, true, &a, &a, &a), Err(ExecutionProfileStoreError::HashMismatch));
    assert!(matches!(validate_profile_proposal(2, "p1", &a, &b, true, &b, &a, &a), Err(ExecutionProfileStoreError::Invalid(_))));
}

#[test]
fn run_documents_belong_to_their_run() {
    assert!(validate_run_id("run-1").is_ok());
    assert_eq!(validate_run_id("run 1"), Err(RunStoreError::InvalidId("run 1".to_string())));
    assert!(check_run_document(2, "run-1", "run-1").is_ok());
    assert_eq!(check_run_document(1, "run-1", "run-1"), Err(RunStoreError::IdentityMismatch));
    assert_eq!(check_run_document(2, "run-2", "run-1"), Err(RunStoreError::IdentityMismatch));
}

#[test]
fn policy_migration_is_idempotent_and_guarded() {
    let source = b"schema_version = 1\n".to_vec();
    let migrated = b"schema_version = 2\n".to_vec();
    let plan = PolicyMigration::new("policy.toml".to_string(), "policy.toml.v1.bak".to_string(), source.clone(), migrated.clone(), 3);
    assert_eq!(
        plan.diff(),
        format!("schema_version: 1 -> 2\nlegacy_models: 3\nsource: {}\nresult: {}", content_hash(&source), content_hash(&migrated))
    );
    assert_eq!(plan.check_apply(&migrated, false), Ok(MigrationStep::Done));
    assert_eq!(plan.check_apply(&source, false), Err(PolicyMigrationError::NotConfirmed));
    assert_eq!(plan.check_apply(b"other", true), Err(PolicyMigrationError::BaseConflict));
    assert_eq!(plan.check_apply(&source, true), Ok(MigrationStep::BackupThenWrite));
    assert_eq!(plan.check_backup(None), Ok(true));
    assert_eq!(plan.check_backup(Some(&source)), Ok(false));
    assert_eq!(plan.check_backup(Some(b"x")), Err(PolicyMigrationError::BackupConflict));
}

#[test]
fn catalog_status_lists_json_proposals_in_order() {
    let names = vec![
        "zeta.json".to_string(),
        "notes.txt".to_string(),
        "alpha.json".to_string(),
        ".json".to_string(),
        "a.b.json".to_string(),
    ];
    let status = catalog_status("sha256:x".to_string(), 3, &names);
    assert_eq!(status.active_hash, "sha256:x");
    assert_eq!(status.active_routes, 3);
    assert_eq!(status.staged, vec!["a.b".to_string(), "alpha".to_string(), "zeta".to_string()]);
}

#[test]
fn health_commits_retry_only_conflicts_and_held_leases() {
    let conflict = StateStoreError::Conflict { expected: "a".to_string(), actual: "b".to_string() };
    assert_eq!(after_failed_commit(1, conflict.clone()), CommitRetry::Again);
    assert_eq!(after_failed_commit(255, StateStoreError::Lease("held".to_string())), CommitRetry::Again);
    assert_eq!(after_failed_commit(HEALTH_COMMIT_ATTEMPTS, conflict.clone()), CommitRetry::Stop(conflict));
    assert_eq!(
        after_failed_commit(1, StateStoreError::NotFound),
        CommitRetry::Stop(StateStoreError::NotFound)
    );
}

#[test]
fn a_taken_execution_slot_says_so() {
    assert_eq!(ExecutionBusy.message(), "another route invocation is already active");
}

#[test]
fn a_stopped_sidecar_is_judged_by_time_then_size_then_exit() {
    assert_eq!(process_outcome(true, true, false, Some(1), "x".to_string()), Err(DshSidecarError::Timeout));
    assert_eq!(process_outcome(false, true, false, Some(1), "x".to_string()), Err(DshSidecarError::Truncated));
    assert_eq!(
        process_outcome(false, false, false, Some(3), "boom".to_string()),
        Err(DshSidecarError::Exit { code: Some(3), stderr: "boom".to_string() })
    );
    assert_eq!(process_outcome(false, false, true, Some(0), String::new()), Ok(()));
}

fn proposal(id: &str, intact: bool) -> ProfileProposalFacts {
    let (a, b) = (hash('a'), hash('b'));
    ProfileProposalFacts {
        schema_version: 1,
        id: id.to_string(),
        expected_active_hash: a.clone(),
        proposed_profile_hash: b.clone(),
        profile_valid: true,
        recomputed_profile_hash: if intact { b } else { a.clone() },
        recomputed_proposal_hash: a.clone(),
        proposal_hash: a,
    }
}

#[test]
fn profile_status_orders_proposals_and_fails_on_any_broken_one() {
    let status = profile_status(None, vec![proposal("p2", true), proposal("p1", true)]).expect("status");
    assert_eq!(status.active_hash, EMPTY_EXECUTION_PROFILE_HASH);
    let ids: Vec<&str> = status.proposals.iter().map(|p| p.id.as_str()).collect();
    assert_eq!(ids, vec!["p1", "p2"]);
    assert_eq!(profile_status(Some(hash('c')), vec![]).expect("status").active_hash, hash('c'));
    assert_eq!(
        profile_status(None, vec![proposal("p1", true), proposal("p2", false)]),
        Err(ExecutionProfileStoreError::HashMismatch)
    );
    assert_eq!(
        profile_status(None, vec![proposal("bad id", true), proposal("p2", false)]),
        Err(ExecutionProfileStoreError::Invalid("invalid identifier 'bad id'".to_string()))
    );
}
