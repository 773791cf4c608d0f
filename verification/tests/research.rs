use batuta_routing::operational::OperationalError;
use batuta_routing::research::{validate_source, ObservationFacts, ResearchProposalV2, ResearchSourceV2};
use batuta_routing::route::RouteRef;
use batuta_routing::text::content_hash;

fn route(text: &str) -> RouteRef {
    RouteRef::parse(text).expect("valid route")
}

fn hash(c: char) -> String {
    format!("sha256:{}", c.to_string().repeat(64))
}

fn source(url: &str, metric: &str) -> ResearchSourceV2 {
    ResearchSourceV2 {
        source_url: url.to_string(),
        publication: "Lab report".to_string(),
        query: "model benchmark".to_string(),
        benchmark: "swe-bench".to_string(),
        benchmark_version: "1.0".to_string(),
        scenario: "verified".to_string(),
        configuration: "default".to_string(),
        route: route("dsh/openai/gpt-5"),
        model_revision: "2025-01".to_string(),
        metric: metric.to_string(),
        source_kind: "primary_independent".to_string(),
    }
}

fn observation(id: &str, metric: &str, url: &str) -> ObservationFacts {
    ObservationFacts {
        id: id.to_string(),
        route: route("dsh/openai/gpt-5"),
        source_url: url.to_string(),
        benchmark: "swe-bench".to_string(),
        benchmark_version: "1.0".to_string(),
        scenario: "verified".to_string(),
        configuration: "default".to_string(),
        model_revision: "2025-01".to_string(),
        metric: metric.to_string(),
        source_kind: "primary_independent".to_string(),
    }
}

fn proposal() -> Result<ResearchProposalV2, OperationalError> {
    ResearchProposalV2::new(
        "proposal-1".to_string(),
        100,
        route("dsh/anthropic/sonnet"),
        "grant-1".to_string(),
        hash('a'),
        hash('b'),
        vec![observation("obs-2", "pass@1", "https://b.example"), observation("obs-1", "resolved", "https://a.example")],
        vec![source("https://b.example", "pass@1"), source("https://a.example", "resolved")],
    )
}

#[test]
fn a_new_proposal_orders_its_parts_and_starts_unsealed() {
    let p = proposal().expect("valid proposal");
    assert_eq!(p.schema_version, 2);
    assert_eq!(p.observations[0].id, "obs-1");
    assert_eq!(p.observations[1].id, "obs-2");
    assert_eq!(p.sources[0].source_url, "https://a.example");
    assert_eq!(p.proposal_hash, "");
    let sealed = p.clone().sealed(b"{\"body\":1}");
    assert_eq!(sealed.proposal_hash, content_hash(b"{\"body\":1}"));
    assert_eq!(sealed.observations, p.observations);
}

#[test]
fn the_researcher_cannot_certify_itself() {
    let p = ResearchProposalV2::new(
        "proposal-1".to_string(),
        100,
        route("dsh/openai/gpt-5"),
        "grant-1".to_string(),
        hash('a'),
        hash('b'),
        vec![observation("obs-1", "resolved", "https://a.example")],
        vec![source("https://a.example", "resolved")],
    );
    assert_eq!(p, Err(OperationalError::Invalid("researcher_route cannot certify itself".to_string())));
}

#[test]
fn every_observation_needs_its_exact_source() {
    let p = ResearchProposalV2::new(
        "proposal-1".to_string(),
        100,
        route("dsh/anthropic/sonnet"),
        "grant-1".to_string(),
        hash('a'),
        hash('b'),
        vec![observation("obs-1", "resolved", "https://a.example"), observation("obs-3", "other", "https://a.example")],
        vec![source("https://a.example", "resolved")],
    );
    assert_eq!(p, Err(OperationalError::Invalid("observation obs-3 has no exact source".to_string())));
}

#[test]
fn identifiers_hashes_and_lists_are_checked_first() {
    let empty = ResearchProposalV2::new(
        " ".to_string(),
        100,
        route("dsh/anthropic/sonnet"),
        "grant-1".to_string(),
        hash('a'),
        hash('b'),
        vec![],
        vec![],
    );
    assert_eq!(empty, Err(OperationalError::Invalid("id must be non-empty and bounded".to_string())));
    let bad_hash = ResearchProposalV2::new(
        "p".to_string(),
        100,
        route("dsh/anthropic/sonnet"),
        "grant-1".to_string(),
        "sha256:nope".to_string(),
        hash('b'),
        vec![],
        vec![],
    );
    assert_eq!(bad_hash, Err(OperationalError::Invalid("base_manifest_hash must be sha256:<hex>".to_string())));
    let no_lists = ResearchProposalV2::new(
        "p".to_string(),
        100,
        route("dsh/anthropic/sonnet"),
        "grant-1".to_string(),
        hash('a'),
        hash('b'),
        vec![],
        vec![source("https://a.example", "resolved")],
    );
    assert_eq!(no_lists, Err(OperationalError::Invalid("observations and sources must be non-empty".to_string())));
}

#[test]
fn sources_need_an_http_url_and_bounded_texts() {
    assert_eq!(validate_source(&source("https://a.example", "m")), Ok(()));
    assert_eq!(
        validate_source(&source("ftp://a.example", "m")),
        Err(OperationalError::Invalid("source_url must be http(s)".to_string()))
    );
    let mut blank = source("http://a.example", "m");
    blank.configuration = "  ".to_string();
    assert_eq!(
        validate_source(&blank),
        Err(OperationalError::Invalid("configuration must be non-empty and bounded".to_string()))
    );
    assert_eq!(
        validate_source(&source("https://a.example", "")),
        Err(OperationalError::Invalid("metric must be non-empty and bounded".to_string()))
    );
}

#[test]
fn applying_detects_a_moved_base_or_a_tampered_hash() {
    let body = b"{\"canonical\":true}";
    let p = proposal().expect("valid").sealed(body);
    assert_eq!(p.validate_apply(&hash('a'), &hash('b'), body), Ok(()));
    assert_eq!(p.validate_apply(&hash('c'), &hash('b'), body), Err(OperationalError::Conflict("manifest")));
    assert_eq!(p.validate_apply(&hash('a'), &hash('c'), body), Err(OperationalError::Conflict("evidence")));
    assert_eq!(p.validate_apply(&hash('a'), &hash('b'), b"{}"), Err(OperationalError::Conflict("proposal_hash")));
}
