//! Research proposals: observations proposed with their exact primary sources,
//! sealed against the state, evidence and grant they started from.

use vstd::prelude::*;
use vstd::string::*;

use crate::operational::{hash_message, text_message, text_ok, url_ok, validate_hash, validate_text, validate_url, OperationalError};
use crate::order::{keys_less, keys_lt, lemma_keys_lt, sort, sorted_by, stable_sorted, text_key, text_key_bytes, Ordered};
use crate::route::RouteRef;
use crate::text::{content_address, content_hash, is_sha256_ref};

verus! {

/// A complete primary source behind an observation.
#[derive(Debug, Clone, PartialEq, Eq)]
pub struct ResearchSourceV2 {
    /// Published primary URL.
    pub source_url: String,
    /// Responsible publication.
    pub publication: String,
    /// Reproducible query that found the source.
    pub query: String,
    /// Cited benchmark.
    pub benchmark: String,
    /// Benchmark version.
    pub benchmark_version: String,
    /// Evaluated scenario.
    pub scenario: String,
    /// Evaluated configuration.
    pub configuration: String,
    /// Exact evaluated route.
    pub route: RouteRef,
    /// Exact evaluated revision.
    pub model_revision: String,
    /// Published metric.
    pub metric: String,
    /// Kind and independence of the source, by its token.
    pub source_kind: String,
}

/// What a proposal reads of an observation: its identity and the coordinates
/// that must match one of its sources exactly.
#[derive(Debug, Clone, PartialEq, Eq)]
pub struct ObservationFacts {
    /// Identifier.
    pub id: String,
    /// Observed route.
    pub route: RouteRef,
    /// Source URL.
    pub source_url: String,
    /// Benchmark.
    pub benchmark: String,
    /// Benchmark version.
    pub benchmark_version: String,
    /// Scenario.
    pub scenario: String,
    /// Configuration.
    pub configuration: String,
    /// Model revision.
    pub model_revision: String,
    /// Metric.
    pub metric: String,
    /// Kind of source, by its token.
    pub source_kind: String,
}

/// A research proposal, staged without touching active evidence.
#[derive(Debug, Clone, PartialEq, Eq)]
pub struct ResearchProposalV2 {
    /// Closed version of the contract.
    pub schema_version: u16,
    /// Immutable staging identifier.
    pub id: String,
    /// Unix creation instant.
    pub created_at: u64,
    /// Exact route that ran the research.
    pub researcher_route: RouteRef,
    /// Grant that authorised the `research` operation.
    pub grant_id: String,
    /// Manifest active while researching.
    pub base_manifest_hash: String,
    /// Evidence active while researching.
    pub base_evidence_hash: String,
    /// Proposed observations, ordered by identifier.
    pub observations: Vec<ObservationFacts>,
    /// Primary sources, ordered by URL, route and metric.
    pub sources: Vec<ResearchSourceV2>,
    /// Canonical hash of the rest of the document.
    pub proposal_hash: String,
}

/// The source is the exact one the observation cites.
pub open spec fn cites(o: ObservationFacts, s: ResearchSourceV2) -> bool {
    &&& s.route@ == o.route@
    &&& s.source_url@ == o.source_url@
    &&& s.benchmark@ == o.benchmark@
    &&& s.benchmark_version@ == o.benchmark_version@
    &&& s.scenario@ == o.scenario@
    &&& s.configuration@ == o.configuration@
    &&& s.model_revision@ == o.model_revision@
    &&& s.metric@ == o.metric@
    &&& s.source_kind@ == o.source_kind@
}

/// Some source is the exact one the observation cites.
pub open spec fn has_source(o: ObservationFacts, sources: Seq<ResearchSourceV2>) -> bool {
    exists|k: int| 0 <= k < sources.len() && cites(o, #[trigger] sources[k])
}

/// The problem of one observation, if any.
pub open spec fn observation_error(o: ObservationFacts, researcher: Seq<char>, sources: Seq<ResearchSourceV2>) -> Option<Seq<char>> {
    if o.route@ == researcher {
        Some("researcher_route cannot certify itself"@)
    } else if !has_source(o, sources) {
        Some("observation "@ + o.id@ + " has no exact source"@)
    } else {
        None
    }
}

/// The first problem among the first `k` observations.
pub open spec fn observations_error(os: Seq<ObservationFacts>, researcher: Seq<char>, sources: Seq<ResearchSourceV2>, k: int) -> Option<Seq<char>>
    decreases k,
{
    if k <= 0 {
        None
    } else {
        match observations_error(os, researcher, sources, k - 1) {
            Some(e) => Some(e),
            None => observation_error(os[k - 1], researcher, sources),
        }
    }
}

/// The first blank or oversized text of a source, by field name.
pub open spec fn source_error(s: ResearchSourceV2) -> Option<Seq<char>> {
    if !url_ok(s.source_url@) {
        Some("source_url must be http(s)"@)
    } else if !text_ok(s.publication@) {
        Some(text_message("publication"@))
    } else if !text_ok(s.query@) {
        Some(text_message("query"@))
    } else if !text_ok(s.benchmark@) {
        Some(text_message("benchmark"@))
    } else if !text_ok(s.benchmark_version@) {
        Some(text_message("benchmark_version"@))
    } else if !text_ok(s.scenario@) {
        Some(text_message("scenario"@))
    } else if !text_ok(s.configuration@) {
        Some(text_message("configuration"@))
    } else if !text_ok(s.model_revision@) {
        Some(text_message("model_revision"@))
    } else if !text_ok(s.metric@) {
        Some(text_message("metric"@))
    } else {
        None
    }
}

/// The first problem among the first `k` sources.
pub open spec fn sources_error(ss: Seq<ResearchSourceV2>, k: int) -> Option<Seq<char>>
    decreases k,
{
    if k <= 0 {
        None
    } else {
        match sources_error(ss, k - 1) {
            Some(e) => Some(e),
            None => source_error(ss[k - 1]),
        }
    }
}

/// The first problem of a proposal's parts, as its message, if any.
pub open spec fn parts_error(
    id: Seq<char>,
    grant_id: Seq<char>,
    base_manifest_hash: Seq<char>,
    base_evidence_hash: Seq<char>,
    researcher: Seq<char>,
    os: Seq<ObservationFacts>,
    ss: Seq<ResearchSourceV2>,
) -> Option<Seq<char>> {
    if !text_ok(id) {
        Some(text_message("id"@))
    } else if !text_ok(grant_id) {
        Some(text_message("grant_id"@))
    } else if !is_sha256_ref(base_manifest_hash) {
        Some(hash_message("base_manifest_hash"@))
    } else if !is_sha256_ref(base_evidence_hash) {
        Some(hash_message("base_evidence_hash"@))
    } else if os.len() == 0 || ss.len() == 0 {
        Some("observations and sources must be non-empty"@)
    } else {
        match observations_error(os, researcher, ss, os.len() as int) {
            Some(e) => Some(e),
            None => sources_error(ss, ss.len() as int),
        }
    }
}

/// The first problem of a proposal's contents, as its message, if any.
pub open spec fn content_error(p: ResearchProposalV2) -> Option<Seq<char>> {
    parts_error(
        p.id@,
        p.grant_id@,
        p.base_manifest_hash@,
        p.base_evidence_hash@,
        p.researcher_route@,
        p.observations@,
        p.sources@,
    )
}

/// A first problem stays the first as more observations are checked.
pub proof fn lemma_observations_error_stays(os: Seq<ObservationFacts>, researcher: Seq<char>, sources: Seq<ResearchSourceV2>, k: int, n: int)
    requires
        0 <= k <= n,
        observations_error(os, researcher, sources, k) is Some,
    ensures
        observations_error(os, researcher, sources, n) == observations_error(os, researcher, sources, k),
    decreases n - k,
{
    if k < n {
        lemma_observations_error_stays(os, researcher, sources, k, n - 1);
    }
}

/// A first problem stays the first as more sources are checked.
pub proof fn lemma_sources_error_stays(ss: Seq<ResearchSourceV2>, k: int, n: int)
    requires
        0 <= k <= n,
        sources_error(ss, k) is Some,
    ensures
        sources_error(ss, n) == sources_error(ss, k),
    decreases n - k,
{
    if k < n {
        lemma_sources_error_stays(ss, k, n - 1);
    }
}

/// Whether the source is the exact one the observation cites.
fn cites_exec(o: &ObservationFacts, s: &ResearchSourceV2) -> (b: bool)
    ensures
        b == cites(*o, *s),
{
    s.route.same_as(&o.route) && s.source_url == o.source_url && s.benchmark == o.benchmark
        && s.benchmark_version == o.benchmark_version && s.scenario == o.scenario
        && s.configuration == o.configuration && s.model_revision == o.model_revision
        && s.metric == o.metric && s.source_kind == o.source_kind
}

/// Whether some source is the exact one the observation cites.
fn has_source_exec(o: &ObservationFacts, sources: &Vec<ResearchSourceV2>) -> (b: bool)
    ensures
        b == has_source(*o, sources@),
{
    let mut k: usize = 0;
    while k < sources.len()
        invariant
            k <= sources@.len(),
            forall|j: int| 0 <= j < k ==> !cites(*o, #[trigger] sources@[j]),
        decreases sources@.len() - k,
    {
        if cites_exec(o, &sources[k]) {
            return true;
        }
        k = k + 1;
    }
    false
}

/// Checks a source: an HTTP(S) URL and eight bounded texts.
pub fn validate_source(s: &ResearchSourceV2) -> (r: Result<(), OperationalError>)
    ensures
        r is Ok <==> source_error(*s) is None,
        r matches Err(e) ==> e matches OperationalError::Invalid(m) && source_error(*s) == Some(m@),
{
    validate_url(s.source_url.as_str())?;
    validate_text("publication", s.publication.as_str())?;
    validate_text("query", s.query.as_str())?;
    validate_text("benchmark", s.benchmark.as_str())?;
    validate_text("benchmark_version", s.benchmark_version.as_str())?;
    validate_text("scenario", s.scenario.as_str())?;
    validate_text("configuration", s.configuration.as_str())?;
    validate_text("model_revision", s.model_revision.as_str())?;
    validate_text("metric", s.metric.as_str())?;
    Ok(())
}

/// Sort key of a source: URL, route, metric.
pub open spec fn source_key(s: ResearchSourceV2) -> Seq<Seq<u8>> {
    seq![text_key(s.source_url@), text_key(s.route@), text_key(s.metric@)]
}

impl Ordered for ResearchSourceV2 {
    open spec fn precedes(&self, other: &Self) -> bool {
        keys_lt(source_key(*self), source_key(*other))
    }

    proof fn precedes_irreflexive(a: &Self) {
        lemma_keys_lt(source_key(*a), source_key(*a), source_key(*a));
    }

    proof fn precedes_transitive(a: &Self, b: &Self, c: &Self) {
        lemma_keys_lt(source_key(*a), source_key(*b), source_key(*c));
    }

    fn less(&self, other: &Self) -> (r: bool) {
        let mut a: Vec<Vec<u8>> = Vec::new();
        a.push(text_key_bytes(self.source_url.as_str()));
        a.push(text_key_bytes(self.route.as_str()));
        a.push(text_key_bytes(self.metric.as_str()));
        let mut b: Vec<Vec<u8>> = Vec::new();
        b.push(text_key_bytes(other.source_url.as_str()));
        b.push(text_key_bytes(other.route.as_str()));
        b.push(text_key_bytes(other.metric.as_str()));
        assert(a@.map_values(|x: Vec<u8>| x@) =~= source_key(*self));
        assert(b@.map_values(|x: Vec<u8>| x@) =~= source_key(*other));
        keys_less(&a, &b)
    }
}

impl Ordered for ObservationFacts {
    open spec fn precedes(&self, other: &Self) -> bool {
        keys_lt(seq![text_key(self.id@)], seq![text_key(other.id@)])
    }

    proof fn precedes_irreflexive(a: &Self) {
        lemma_keys_lt(seq![text_key(a.id@)], seq![text_key(a.id@)], seq![text_key(a.id@)]);
    }

    proof fn precedes_transitive(a: &Self, b: &Self, c: &Self) {
        lemma_keys_lt(seq![text_key(a.id@)], seq![text_key(b.id@)], seq![text_key(c.id@)]);
    }

    fn less(&self, other: &Self) -> (r: bool) {
        let mut a: Vec<Vec<u8>> = Vec::new();
        a.push(text_key_bytes(self.id.as_str()));
        let mut b: Vec<Vec<u8>> = Vec::new();
        b.push(text_key_bytes(other.id.as_str()));
        assert(a@.map_values(|x: Vec<u8>| x@) =~= seq![text_key(self.id@)]);
        assert(b@.map_values(|x: Vec<u8>| x@) =~= seq![text_key(other.id@)]);
        keys_less(&a, &b)
    }
}

impl ResearchProposalV2 {
    /// Checks the contents: identifiers, base hashes, at least one
    /// observation and source, no observation of the researcher's own route,
    /// an exact source for every observation, and every source well formed.
    pub fn validate_content(&self) -> (r: Result<(), OperationalError>)
        ensures
            r is Ok <==> content_error(*self) is None,
            r matches Err(e) ==> e matches OperationalError::Invalid(m) && content_error(*self) == Some(m@),
    {
        validate_text("id", self.id.as_str())?;
        validate_text("grant_id", self.grant_id.as_str())?;
        validate_hash("base_manifest_hash", self.base_manifest_hash.as_str())?;
        validate_hash("base_evidence_hash", self.base_evidence_hash.as_str())?;
        if self.observations.len() == 0 || self.sources.len() == 0 {
            return Err(OperationalError::Invalid(String::from_str("observations and sources must be non-empty")));
        }
        let ghost head = text_ok(self.id@) && text_ok(self.grant_id@) && is_sha256_ref(self.base_manifest_hash@)
            && is_sha256_ref(self.base_evidence_hash@) && self.observations@.len() > 0 && self.sources@.len() > 0;
        let mut k: usize = 0;
        while k < self.observations.len()
            invariant
                head,
                head == (text_ok(self.id@) && text_ok(self.grant_id@) && is_sha256_ref(self.base_manifest_hash@)
                    && is_sha256_ref(self.base_evidence_hash@) && self.observations@.len() > 0 && self.sources@.len() > 0),
                k <= self.observations@.len(),
                observations_error(self.observations@, self.researcher_route@, self.sources@, k as int) is None,
            decreases self.observations@.len() - k,
        {
            let o = &self.observations[k];
            if o.route.same_as(&self.researcher_route) {
                proof {
                    lemma_observations_error_stays(self.observations@, self.researcher_route@, self.sources@, k + 1, self.observations@.len() as int);
                }
                return Err(OperationalError::Invalid(String::from_str("researcher_route cannot certify itself")));
            }
            if !has_source_exec(o, &self.sources) {
                let mut m = String::from_str("observation ");
                m.append(o.id.as_str());
                m.append(" has no exact source");
                proof {
                    lemma_observations_error_stays(self.observations@, self.researcher_route@, self.sources@, k + 1, self.observations@.len() as int);
                }
                return Err(OperationalError::Invalid(m));
            }
            k = k + 1;
        }
        let mut j: usize = 0;
        while j < self.sources.len()
            invariant
                head,
                head == (text_ok(self.id@) && text_ok(self.grant_id@) && is_sha256_ref(self.base_manifest_hash@)
                    && is_sha256_ref(self.base_evidence_hash@) && self.observations@.len() > 0 && self.sources@.len() > 0),
                j <= self.sources@.len(),
                observations_error(self.observations@, self.researcher_route@, self.sources@, self.observations@.len() as int) is None,
                sources_error(self.sources@, j as int) is None,
            decreases self.sources@.len() - j,
        {
            match validate_source(&self.sources[j]) {
                Err(e) => {
                    proof {
                        lemma_sources_error_stays(self.sources@, j + 1, self.sources@.len() as int);
                    }
                    return Err(e);
                },
                Ok(()) => {},
            }
            j = j + 1;
        }
        Ok(())
    }

    /// Builds a proposal of version 2 with its observations ordered by
    /// identifier and its sources by URL, route and metric, and checks its
    /// contents; the hash is sealed afterwards over the canonical body.
    pub fn new(
        id: String,
        created_at: u64,
        researcher_route: RouteRef,
        grant_id: String,
        base_manifest_hash: String,
        base_evidence_hash: String,
        observations: Vec<ObservationFacts>,
        sources: Vec<ResearchSourceV2>,
    ) -> (r: Result<ResearchProposalV2, OperationalError>)
        ensures
            r matches Ok(p) ==> {
                &&& p.schema_version == 2
                &&& p.id == id
                &&& p.created_at == created_at
                &&& p.researcher_route == researcher_route
                &&& p.grant_id == grant_id
                &&& p.base_manifest_hash == base_manifest_hash
                &&& p.base_evidence_hash == base_evidence_hash
                &&& sorted_by(p.observations@)
                &&& p.observations@.to_multiset() == observations@.to_multiset()
                &&& sorted_by(p.sources@)
                &&& p.sources@.to_multiset() == sources@.to_multiset()
                &&& p.observations@ == stable_sorted(observations@)
                &&& p.sources@ == stable_sorted(sources@)
                &&& p.proposal_hash@.len() == 0
                &&& content_error(p) is None
            },
            r is Ok <==> parts_error(id@, grant_id@, base_manifest_hash@, base_evidence_hash@, researcher_route@,
                stable_sorted(observations@), stable_sorted(sources@)) is None,
            r matches Err(e) ==> e matches OperationalError::Invalid(m)
                && parts_error(id@, grant_id@, base_manifest_hash@, base_evidence_hash@, researcher_route@,
                    stable_sorted(observations@), stable_sorted(sources@)) == Some(m@),
    {
        let observations = sort(observations);
        let sources = sort(sources);
        let proposal = ResearchProposalV2 {
            schema_version: 2,
            id,
            created_at,
            researcher_route,
            grant_id,
            base_manifest_hash,
            base_evidence_hash,
            observations,
            sources,
            proposal_hash: String::new(),
        };
        match proposal.validate_content() {
            Ok(()) => Ok(proposal),
            Err(e) => Err(e),
        }
    }

    /// The proposal with its hash: the content address of its canonical body.
    pub fn sealed(self, body: &[u8]) -> (p: ResearchProposalV2)
        ensures
            p.proposal_hash@ == content_address(body@),
            p == (ResearchProposalV2 { proposal_hash: p.proposal_hash, ..self }),
    {
        let hash = content_hash(body);
        ResearchProposalV2 { proposal_hash: hash, ..self }
    }

    /// Checks, before applying, that the contents are valid, that neither the
    /// manifest nor the evidence moved since the research, and that the
    /// stored hash is the content address of the canonical body.
    pub fn validate_apply(&self, current_manifest_hash: &str, current_evidence_hash: &str, body: &[u8]) -> (r: Result<(), OperationalError>)
        ensures
            r is Ok <==> content_error(*self) is None && self.base_manifest_hash@ == current_manifest_hash@
                && self.base_evidence_hash@ == current_evidence_hash@ && self.proposal_hash@ == content_address(body@),
            r matches Err(OperationalError::Invalid(m)) ==> content_error(*self) == Some(m@),
            r matches Err(OperationalError::Conflict(f)) ==> content_error(*self) is None && (if self.base_manifest_hash@ != current_manifest_hash@ {
                f@ == "manifest"@
            } else if self.base_evidence_hash@ != current_evidence_hash@ {
                f@ == "evidence"@
            } else {
                f@ == "proposal_hash"@
            }),
            !(r matches Err(OperationalError::Serialization(_))),
    {
        self.validate_content()?;
        if !crate::stores::same_text(self.base_manifest_hash.as_str(), current_manifest_hash) {
            return Err(OperationalError::Conflict("manifest"));
        }
        if !crate::stores::same_text(self.base_evidence_hash.as_str(), current_evidence_hash) {
            return Err(OperationalError::Conflict("evidence"));
        }
        let hash = content_hash(body);
        if self.proposal_hash != hash {
            return Err(OperationalError::Conflict("proposal_hash"));
        }
        Ok(())
    }
}

} // verus!
