use batuta_routing::policy::{
    check_legacy_version, check_policy_version, validate_policy, AliasCatalog, AliasError, version_verdict, MigrationSettingsFacts, PolicyError,
};
use batuta_routing::route::RouteRef;
use batuta_routing::stores::{check_health_document, HealthStoreError};

fn settings() -> MigrationSettingsFacts {
    MigrationSettingsFacts {
        minimum_quality_text: "70".to_string(),
        minimum_quality_valid: true,
        selection_margin_text: "5".to_string(),
        selection_margin_valid: true,
        minimum_coverage: 60,
        max_evidence_age_seconds: 86_400,
        allow_any_eligible: false,
        allow_unverified_quality: false,
        max_attempts: 3,
        max_retry_after_ms: 60_000,
        max_handoffs: 1,
    }
}

#[test]
fn only_version_two_loads_and_version_one_needs_migration() {
    assert_eq!(check_policy_version("schema_version = 2\n"), Ok(()));
    assert_eq!(check_policy_version("schema_version = 1\n[modelos]\n"), Err(PolicyError::MigrationRequired));
    assert_eq!(check_policy_version("schema_version = 7\n"), Err(PolicyError::SchemaVersion { received: 7 }));
    assert_eq!(check_policy_version("title = 'x'\n"), Err(PolicyError::MissingSchemaVersion));
    assert_eq!(check_policy_version("schema_version = '2'\n"), Err(PolicyError::MissingSchemaVersion));
    assert!(matches!(check_policy_version("schema_version = = 2"), Err(PolicyError::Parse(_))));
}

#[test]
fn the_version_verdict_is_exact_for_every_parse_outcome() {
    assert_eq!(version_verdict(Ok(Some(2))), Ok(()));
    assert_eq!(version_verdict(Ok(Some(1))), Err(PolicyError::MigrationRequired));
    assert_eq!(version_verdict(Ok(Some(-3))), Err(PolicyError::SchemaVersion { received: -3 }));
    assert_eq!(version_verdict(Ok(None)), Err(PolicyError::MissingSchemaVersion));
    assert_eq!(version_verdict(Err("bad".to_string())), Err(PolicyError::Parse("bad".to_string())));
}

#[test]
fn a_legacy_document_must_be_version_one() {
    assert_eq!(check_legacy_version(1), Ok(()));
    assert_eq!(check_legacy_version(2), Err(PolicyError::SchemaVersion { received: 2 }));
}

#[test]
fn settings_report_their_first_invalid_value() {
    assert_eq!(settings().validate(), Ok(()));
    let mut s = settings();
    s.minimum_quality_valid = false;
    s.minimum_quality_text = "NaN".to_string();
    s.selection_margin_valid = false;
    assert_eq!(
        s.validate(),
        Err(PolicyError::InvalidSetting { field: "minimum_quality", value: "NaN".to_string() })
    );
    let mut s = settings();
    s.selection_margin_valid = false;
    s.selection_margin_text = "101".to_string();
    assert_eq!(
        s.validate(),
        Err(PolicyError::InvalidSetting { field: "selection_margin", value: "101".to_string() })
    );
    let mut s = settings();
    s.minimum_coverage = 101;
    assert_eq!(
        s.validate(),
        Err(PolicyError::InvalidSetting { field: "coverage_or_age", value: "coverage=101, age=86400".to_string() })
    );
    let mut s = settings();
    s.max_attempts = 0;
    assert!(matches!(s.validate(), Err(PolicyError::InvalidSetting { field: "execution.attempts_or_retry_after", .. })));
    assert_eq!(settings().execution_policy().expect("valid").max_attempts, 3);
}

#[test]
fn a_policy_needs_valid_settings_and_alias_names() {
    let route = RouteRef::parse("dsh/openai/gpt-5").expect("route");
    assert!(validate_policy(&settings(), vec![("fast".to_string(), route.clone())]).is_ok());
    assert!(matches!(
        validate_policy(&settings(), vec![("bad alias".to_string(), route.clone())]),
        Err(PolicyError::Alias(_))
    ));
    let mut s = settings();
    s.max_evidence_age_seconds = 0;
    assert!(matches!(validate_policy(&s, vec![]), Err(PolicyError::InvalidSetting { .. })));
}

#[test]
fn health_documents_are_version_one_with_valid_rates() {
    let a = RouteRef::parse("dsh/a/m").expect("route");
    let b = RouteRef::parse("dsh/b/m").expect("route");
    assert_eq!(check_health_document(1, &vec![(a.clone(), true), (b.clone(), true)]), Ok(()));
    assert_eq!(check_health_document(2, &vec![]), Err(HealthStoreError::SchemaVersion { received: 2 }));
    assert_eq!(
        check_health_document(1, &vec![(a.clone(), true), (b.clone(), false), (a, false)]),
        Err(HealthStoreError::InvalidHealth { route: b })
    );
}

#[test]
fn the_first_unsafe_alias_in_name_order_is_reported() {
    let route = RouteRef::parse("dsh/openai/gpt-5").expect("route");
    let aliases = vec![
        ("a".to_string(), route.clone()),
        ("b c".to_string(), route.clone()),
        ("d e".to_string(), route.clone()),
    ];
    match AliasCatalog::new(aliases) {
        Err(AliasError::InvalidAlias { alias }) => assert_eq!(alias, "b c"),
        other => panic!("unexpected {other:?}"),
    }
    let catalog = AliasCatalog::new(vec![("fast".to_string(), route.clone()), ("slow".to_string(), route.clone())])
        .expect("valid");
    match catalog.resolve("nothing") {
        Err(AliasError::Unknown { aliases, .. }) => assert_eq!(aliases, vec!["fast".to_string(), "slow".to_string()]),
        other => panic!("unexpected {other:?}"),
    }
}
