//! Assembly of one state generation into a routing cache: which catalog
//! routes become candidates for which actions, which configurations are
//! discarded and why, and the seal that ties the cache to its generation.

use vstd::prelude::*;
use vstd::string::*;

use crate::order::{keys_less, keys_lt, lemma_keys_lt, lemma_text_lt_total, opt_key, opt_key_bytes, sort, sorted_by, text_key, text_key_bytes, text_lt, Ordered};
use crate::policy::{execution_problem, execution_valid, ExecutionPolicyV2};
use crate::util::{first_problem, lemma_first_problem_at};
use crate::route::RouteRef;
use crate::seal::DecisionSealV2;
use crate::state::{manifest_bytes, StateManifestV2};
use crate::text::{content_address, is_content_hash, is_content_hash_exec};

verus! {

/// Capability index entry of a route: its expiry and the receipts behind it.
#[derive(Debug, Clone, PartialEq, Eq)]
pub struct CapabilityFacts {
    /// Exclusive expiry.
    pub expires_at: u64,
    /// Receipts that support the entry.
    pub receipt_hashes: Vec<String>,
}

/// What assembly reads of one catalog route and the components that describe it.
#[derive(Debug, Clone, PartialEq, Eq)]
pub struct CatalogEntryFacts {
    /// Exact route.
    pub route: RouteRef,
    /// The policy configures the route.
    pub has_policy: bool,
    /// The policy's costs and penalty are finite and not negative.
    pub economics_valid: bool,
    /// Health is known for the route.
    pub has_health: bool,
    /// Capability index entry, if any.
    pub capability: Option<CapabilityFacts>,
}

/// What assembly reads of a state generation.
#[derive(Debug, Clone, PartialEq, Eq)]
pub struct AssemblyInput {
    /// Version of the catalog component.
    pub catalog_version: u16,
    /// Version of the policy component.
    pub policy_version: u16,
    /// Version of the evidence component.
    pub evidence_version: u16,
    /// Version of the health component.
    pub health_version: u16,
    /// Version of the capability component.
    pub capabilities_version: u16,
    /// Profiles by action: the key, and the action the profile names.
    pub profiles: Vec<(String, String)>,
    /// Retry and handoff limits.
    pub execution: ExecutionPolicyV2,
    /// Route and action of each evidence projection.
    pub projections: Vec<(RouteRef, String)>,
    /// Catalog routes, in catalog order.
    pub routes: Vec<CatalogEntryFacts>,
}

/// A route and action that become one candidate, with where its facts come
/// from: the catalog route whose policy, catalog, health and capability
/// entries it carries, and the evidence projection that is its quality.
#[derive(Debug, Clone, PartialEq, Eq)]
pub struct AssemblyCandidate {
    /// Exact route.
    pub route: RouteRef,
    /// Action.
    pub action: String,
    /// Position of its catalog route in the input.
    pub route_index: usize,
    /// Position of its evidence projection in the input.
    pub projection_index: usize,
    /// It carries the capabilities of its index entry, still valid; otherwise none.
    pub capabilities_live: bool,
}

/// Incomplete configuration that produced no candidate.
#[derive(Debug, Clone, PartialEq, Eq)]
pub struct AssemblyDiscard {
    /// Exact route.
    pub route: RouteRef,
    /// Action, when already known.
    pub action: Option<String>,
    /// Stable code.
    pub code: String,
    /// Missing or invalid field.
    pub field: String,
    /// Stable message.
    pub message: String,
}

/// Candidates, discards and seal of one generation.
#[derive(Debug, Clone, PartialEq, Eq)]
pub struct AssemblyPlan {
    /// One candidate per complete route and action with evidence, ordered by route and action.
    pub candidates: Vec<AssemblyCandidate>,
    /// Configurations that did not become candidates, ordered by route, action and code.
    pub discarded: Vec<AssemblyDiscard>,
    /// Seal of the decision cache.
    pub seal: DecisionSealV2,
}

/// Loading or assembly failure of a generation.
#[derive(Debug, Clone, PartialEq, Eq)]
pub enum AssemblyError {
    /// Invalid state.
    Invalid(String),
}

/// Every component is version 2.
pub open spec fn versions_ok(i: AssemblyInput) -> bool {
    i.catalog_version == 2 && i.policy_version == 2 && i.evidence_version == 2 && i.health_version == 2
        && i.capabilities_version == 2
}

/// Every profile is stored under its own action.
pub open spec fn profiles_ok(ps: Seq<(String, String)>) -> bool {
    forall|k: int| 0 <= k < ps.len() ==> (#[trigger] ps[k]).0@ == ps[k].1@
}

/// No route and action has two projections.
pub open spec fn projections_unique(ps: Seq<(RouteRef, String)>) -> bool {
    forall|a: int, b: int| 0 <= a < b < ps.len() ==> !((#[trigger] ps[a]).0@ == (#[trigger] ps[b]).0@ && ps[a].1@ == ps[b].1@)
}

/// There is a projection for the route and action.
pub open spec fn has_projection(ps: Seq<(RouteRef, String)>, route: Seq<char>, action: Seq<char>) -> bool {
    exists|k: int| 0 <= k < ps.len() && (#[trigger] ps[k]).0@ == route && ps[k].1@ == action
}

/// The route has policy, health and a capability entry.
pub open spec fn complete(e: CatalogEntryFacts) -> bool {
    e.has_policy && e.has_health && e.capability is Some
}

/// The capability entry is still valid at `now`.
pub open spec fn capability_live(e: CatalogEntryFacts, now: u64) -> bool {
    e.capability matches Some(c) && c.expires_at > now
}

/// A complete route has valid economics and, while its capabilities are live,
/// well-formed receipt hashes.
pub open spec fn entry_ok(e: CatalogEntryFacts, now: u64) -> bool {
    complete(e) ==> {
        &&& e.economics_valid
        &&& capability_live(e, now) ==> forall|k: int| 0 <= k < e.capability->0.receipt_hashes@.len()
            ==> is_content_hash((#[trigger] e.capability->0.receipt_hashes@[k])@)
    }
}

/// The generation can be assembled.
pub open spec fn assembly_ok(i: AssemblyInput, now: u64) -> bool {
    &&& versions_ok(i)
    &&& profiles_ok(i.profiles@)
    &&& execution_valid(i.execution)
    &&& projections_unique(i.projections@)
    &&& forall|r: int| 0 <= r < i.routes@.len() ==> entry_ok(#[trigger] i.routes@[r], now)
}

/// What is wrong with the profile at a position, if anything.
pub open spec fn profile_check(ps: Seq<(String, String)>) -> spec_fn(int) -> Option<Seq<char>> {
    |k: int| if ps[k].0@ == ps[k].1@ {
        None
    } else {
        Some("profile key '"@ + ps[k].0@ + "' does not match action '"@ + ps[k].1@ + "'"@)
    }
}

/// The first rule the versions, profiles or execution policy break, as its message.
pub open spec fn settings_problem(i: AssemblyInput) -> Option<Seq<char>> {
    if i.catalog_version != 2 {
        Some("catalog.schema_version must be 2"@)
    } else if i.policy_version != 2 {
        Some("policy.schema_version must be 2"@)
    } else if i.evidence_version != 2 {
        Some("evidence.schema_version must be 2"@)
    } else if i.health_version != 2 {
        Some("health.schema_version must be 2"@)
    } else if i.capabilities_version != 2 {
        Some("capabilities.schema_version must be 2"@)
    } else if first_problem(profile_check(i.profiles@), i.profiles@.len() as int) is Some {
        first_problem(profile_check(i.profiles@), i.profiles@.len() as int)
    } else {
        match execution_problem(i.execution) {
            Some((field, value)) => Some("invalid routing policy setting "@ + field + "="@ + value),
            None => None,
        }
    }
}

/// What is wrong with the receipt hash at a position, if anything.
pub open spec fn receipt_check(hs: Seq<String>) -> spec_fn(int) -> Option<Seq<char>> {
    |k: int| if is_content_hash(hs[k]@) {
        None
    } else {
        Some("invalid capability receipt hash '"@ + hs[k]@ + "'"@)
    }
}

/// What is wrong with a catalog route, if anything: a complete route needs
/// valid economics and, while its capabilities are live, well-formed receipts.
pub open spec fn route_problem(e: CatalogEntryFacts, now: u64) -> Option<Seq<char>> {
    if !complete(e) {
        None
    } else if !e.economics_valid {
        Some("invalid economics for route '"@ + e.route@ + "'"@)
    } else if capability_live(e, now) {
        first_problem(receipt_check(e.capability->0.receipt_hashes@), e.capability->0.receipt_hashes@.len() as int)
    } else {
        None
    }
}

/// [`route_problem`] at each position.
pub open spec fn route_check(routes: Seq<CatalogEntryFacts>, now: u64) -> spec_fn(int) -> Option<Seq<char>> {
    |k: int| route_problem(routes[k], now)
}

/// The first rule the inputs of an assembly break, as its message.
pub open spec fn assembly_problem(i: AssemblyInput, now: u64) -> Option<Seq<char>> {
    if settings_problem(i) is Some {
        settings_problem(i)
    } else if !projections_unique(i.projections@) {
        Some("duplicate evidence projection for route and action"@)
    } else {
        first_problem(route_check(i.routes@, now), i.routes@.len() as int)
    }
}

/// A candidate comes from a complete catalog route of its own route, from
/// the evidence projection of its route and action, and carries capabilities
/// exactly when its index entry is still valid.
pub open spec fn candidate_sourced(i: AssemblyInput, now: u64, c: AssemblyCandidate) -> bool {
    &&& c.route_index < i.routes@.len()
    &&& i.routes@[c.route_index as int].route@ == c.route@
    &&& complete(i.routes@[c.route_index as int])
    &&& c.projection_index < i.projections@.len()
    &&& i.projections@[c.projection_index as int].0@ == c.route@
    &&& i.projections@[c.projection_index as int].1@ == c.action@
    &&& c.capabilities_live == capability_live(i.routes@[c.route_index as int], now)
}

/// Candidates of one route over the first `n` profiles.
pub open spec fn route_candidates(e: CatalogEntryFacts, i: AssemblyInput, n: int) -> Seq<(Seq<char>, Seq<char>)>
    decreases n,
{
    if n <= 0 {
        Seq::empty()
    } else {
        let action = i.profiles@[n - 1].0@;
        if complete(e) && has_projection(i.projections@, e.route@, action) {
            route_candidates(e, i, n - 1).push((e.route@, action))
        } else {
            route_candidates(e, i, n - 1)
        }
    }
}

/// Candidates of the first `k` routes.
pub open spec fn candidates_upto(i: AssemblyInput, k: int) -> Seq<(Seq<char>, Seq<char>)>
    decreases k,
{
    if k <= 0 {
        Seq::empty()
    } else {
        candidates_upto(i, k - 1) + route_candidates(i.routes@[k - 1], i, i.profiles@.len() as int)
    }
}

/// What a discard is: route, action, code, field and message.
pub type DiscardView = (Seq<char>, Option<Seq<char>>, Seq<char>, Seq<char>, Seq<char>);

/// The discard of a route for an incomplete field, with its message.
pub open spec fn discard_entry(route: Seq<char>, action: Option<Seq<char>>, code: Seq<char>, field: Seq<char>) -> DiscardView {
    (route, action, code, field, "route '"@ + route + "' has incomplete "@ + field)
}

/// Discards of a complete route over the first `n` profiles: those without a projection.
pub open spec fn projection_discards(e: CatalogEntryFacts, i: AssemblyInput, n: int) -> Seq<DiscardView>
    decreases n,
{
    if n <= 0 {
        Seq::empty()
    } else {
        let action = i.profiles@[n - 1].0@;
        if has_projection(i.projections@, e.route@, action) {
            projection_discards(e, i, n - 1)
        } else {
            projection_discards(e, i, n - 1).push(
                discard_entry(e.route@, Some(action), "missing_quality_projection"@, "evidence.projections"@),
            )
        }
    }
}

/// Discards of one route.
pub open spec fn route_discards(e: CatalogEntryFacts, i: AssemblyInput) -> Seq<DiscardView> {
    if !e.has_policy {
        seq![discard_entry(e.route@, None, "missing_policy_route"@, "policy.routes"@)]
    } else if !e.has_health {
        seq![discard_entry(e.route@, None, "missing_health_route"@, "health.routes"@)]
    } else if e.capability is None {
        seq![discard_entry(e.route@, None, "missing_capability_index"@, "capabilities.routes"@)]
    } else {
        projection_discards(e, i, i.profiles@.len() as int)
    }
}

/// Discards of the first `k` routes.
pub open spec fn discards_upto(i: AssemblyInput, k: int) -> Seq<DiscardView>
    decreases k,
{
    if k <= 0 {
        Seq::empty()
    } else {
        discards_upto(i, k - 1) + route_discards(i.routes@[k - 1], i)
    }
}

/// Receipts that support the live capabilities of the first `k` complete routes.
pub open spec fn receipts_upto(i: AssemblyInput, now: u64, k: int) -> Set<Seq<char>>
    decreases k,
{
    if k <= 0 {
        Set::empty()
    } else {
        let e = i.routes@[k - 1];
        if complete(e) && capability_live(e, now) {
            receipts_upto(i, now, k - 1).union(e.capability->0.receipt_hashes@.map_values(|h: String| h@).to_set())
        } else {
            receipts_upto(i, now, k - 1)
        }
    }
}

/// What a candidate is: route and action.
pub open spec fn candidate_view(c: AssemblyCandidate) -> (Seq<char>, Seq<char>) {
    (c.route@, c.action@)
}

/// What a discard is.
pub open spec fn discard_view(d: AssemblyDiscard) -> DiscardView {
    (d.route@, match d.action { Some(a) => Some(a@), None => None }, d.code@, d.field@, d.message@)
}

/// Sort key of a candidate: route, then action.
pub open spec fn candidate_key(c: AssemblyCandidate) -> Seq<Seq<u8>> {
    seq![text_key(c.route@), text_key(c.action@)]
}

/// Sort key of a discard: route, action, code.
pub open spec fn discard_key(d: AssemblyDiscard) -> Seq<Seq<u8>> {
    seq![text_key(d.route@), opt_key(match d.action { Some(a) => Some(a@), None => None }), text_key(d.code@)]
}

impl Ordered for AssemblyCandidate {
    open spec fn precedes(&self, other: &Self) -> bool {
        keys_lt(candidate_key(*self), candidate_key(*other))
    }

    proof fn precedes_irreflexive(a: &Self) {
        lemma_keys_lt(candidate_key(*a), candidate_key(*a), candidate_key(*a));
    }

    proof fn precedes_transitive(a: &Self, b: &Self, c: &Self) {
        lemma_keys_lt(candidate_key(*a), candidate_key(*b), candidate_key(*c));
    }

    fn less(&self, other: &Self) -> (r: bool) {
        let mut a: Vec<Vec<u8>> = Vec::new();
        a.push(text_key_bytes(self.route.as_str()));
        a.push(text_key_bytes(self.action.as_str()));
        let mut b: Vec<Vec<u8>> = Vec::new();
        b.push(text_key_bytes(other.route.as_str()));
        b.push(text_key_bytes(other.action.as_str()));
        assert(a@.map_values(|x: Vec<u8>| x@) =~= candidate_key(*self));
        assert(b@.map_values(|x: Vec<u8>| x@) =~= candidate_key(*other));
        keys_less(&a, &b)
    }
}

impl Ordered for AssemblyDiscard {
    open spec fn precedes(&self, other: &Self) -> bool {
        keys_lt(discard_key(*self), discard_key(*other))
    }

    proof fn precedes_irreflexive(a: &Self) {
        lemma_keys_lt(discard_key(*a), discard_key(*a), discard_key(*a));
    }

    proof fn precedes_transitive(a: &Self, b: &Self, c: &Self) {
        lemma_keys_lt(discard_key(*a), discard_key(*b), discard_key(*c));
    }

    fn less(&self, other: &Self) -> (r: bool) {
        let mut a: Vec<Vec<u8>> = Vec::new();
        a.push(text_key_bytes(self.route.as_str()));
        a.push(opt_key_bytes(&self.action));
        a.push(text_key_bytes(self.code.as_str()));
        let mut b: Vec<Vec<u8>> = Vec::new();
        b.push(text_key_bytes(other.route.as_str()));
        b.push(opt_key_bytes(&other.action));
        b.push(text_key_bytes(other.code.as_str()));
        assert(a@.map_values(|x: Vec<u8>| x@) =~= discard_key(*self));
        assert(b@.map_values(|x: Vec<u8>| x@) =~= discard_key(*other));
        keys_less(&a, &b)
    }
}

fn invalid(message: &str) -> (e: AssemblyError)
    ensures
        e matches AssemblyError::Invalid(m) && m@ == message@,
{
    AssemblyError::Invalid(String::from_str(message))
}

fn find_projection(ps: &Vec<(RouteRef, String)>, route: &RouteRef, action: &String) -> (r: Option<usize>)
    ensures
        r is Some == has_projection(ps@, route@, action@),
        r matches Some(k) ==> k < ps@.len() && ps@[k as int].0@ == route@ && ps@[k as int].1@ == action@,
{
    let mut k: usize = 0;
    while k < ps.len()
        invariant
            k <= ps@.len(),
            forall|j: int| 0 <= j < k ==> !((#[trigger] ps@[j]).0@ == route@ && ps@[j].1@ == action@),
        decreases ps@.len() - k,
    {
        if ps[k].0.same_as(route) && ps[k].1 == *action {
            return Some(k);
        }
        k = k + 1;
    }
    None
}

fn check_projections_unique(ps: &Vec<(RouteRef, String)>) -> (r: bool)
    ensures
        r == projections_unique(ps@),
{
    let mut a: usize = 0;
    while a < ps.len()
        invariant
            a <= ps@.len(),
            forall|x: int, y: int| 0 <= x < a && x < y < ps@.len() ==> !((#[trigger] ps@[x]).0@ == (#[trigger] ps@[y]).0@ && ps@[x].1@ == ps@[y].1@),
        decreases ps@.len() - a,
    {
        let mut b: usize = a + 1;
        while b < ps.len()
            invariant
                a < ps@.len(),
                a + 1 <= b <= ps@.len(),
                forall|x: int, y: int| 0 <= x < a && x < y < ps@.len() ==> !((#[trigger] ps@[x]).0@ == (#[trigger] ps@[y]).0@ && ps@[x].1@ == ps@[y].1@),
                forall|y: int| a < y < b ==> !(ps@[a as int].0@ == (#[trigger] ps@[y]).0@ && ps@[a as int].1@ == ps@[y].1@),
            decreases ps@.len() - b,
        {
            if ps[a].0.same_as(&ps[b].0) && ps[a].1 == ps[b].1 {
                return false;
            }
            b = b + 1;
        }
        a = a + 1;
    }
    true
}

fn validate_versions(input: &AssemblyInput) -> (r: Result<(), AssemblyError>)
    ensures
        r is Ok <==> versions_ok(*input) && profiles_ok(input.profiles@) && execution_valid(input.execution),
        r is Ok <==> settings_problem(*input) is None,
        r matches Err(e) ==> (e matches AssemblyError::Invalid(m) && Some(m@) == settings_problem(*input)),
{
    proof {
        reveal_strlit("catalog.schema_version must be 2");
        reveal_strlit("policy.schema_version must be 2");
        reveal_strlit("evidence.schema_version must be 2");
        reveal_strlit("health.schema_version must be 2");
        reveal_strlit("capabilities.schema_version must be 2");
        reveal_strlit("profile key '");
        reveal_strlit("' does not match action '");
        reveal_strlit("'");
    }
    let ghost f = profile_check(input.profiles@);
    if input.catalog_version != 2 {
        return Err(invalid("catalog.schema_version must be 2"));
    }
    if input.policy_version != 2 {
        return Err(invalid("policy.schema_version must be 2"));
    }
    if input.evidence_version != 2 {
        return Err(invalid("evidence.schema_version must be 2"));
    }
    if input.health_version != 2 {
        return Err(invalid("health.schema_version must be 2"));
    }
    if input.capabilities_version != 2 {
        return Err(invalid("capabilities.schema_version must be 2"));
    }
    let mut k: usize = 0;
    while k < input.profiles.len()
        invariant
            k <= input.profiles@.len(),
            forall|j: int| 0 <= j < k ==> (#[trigger] input.profiles@[j]).0@ == input.profiles@[j].1@,
            versions_ok(*input),
            f == profile_check(input.profiles@),
            first_problem(f, k as int) is None,
        decreases input.profiles@.len() - k,
    {
        if input.profiles[k].0 != input.profiles[k].1 {
            proof { lemma_first_problem_at(f, k as int, input.profiles@.len() as int); }
            let mut m = String::from_str("profile key '");
            m.append(input.profiles[k].0.as_str());
            m.append("' does not match action '");
            m.append(input.profiles[k].1.as_str());
            m.append("'");
            return Err(AssemblyError::Invalid(m));
        }
        assert(first_problem(f, k + 1) is None);
        k = k + 1;
    }
    match input.execution.validate() {
        Ok(_) => {},
        Err(e) => return Err(AssemblyError::Invalid(e.message())),
    }
    Ok(())
}

fn discard(route: &RouteRef, action: Option<String>, code: &str, field: &str) -> (d: AssemblyDiscard)
    ensures
        d.route == *route,
        d.action == action,
        d.code@ == code@,
        d.field@ == field@,
        d.message@ == "route '"@ + route@ + "' has incomplete "@ + field@,
{
    let mut message = String::from_str("route '");
    message.append(route.as_str());
    message.append("' has incomplete ");
    message.append(field);
    AssemblyDiscard {
        route: route.clone(),
        action,
        code: String::from_str(code),
        field: String::from_str(field),
        message,
    }
}

/// Assembles one catalog route: its discards, or one candidate per profiled
/// action with evidence, and the receipts behind its live capabilities.
fn assemble_route(
    k: usize,
    e: &CatalogEntryFacts,
    input: &AssemblyInput,
    now: u64,
    candidates: &mut Vec<AssemblyCandidate>,
    discarded: &mut Vec<AssemblyDiscard>,
    receipts: &mut Vec<String>,
) -> (r: Result<(), AssemblyError>)
    requires
        k < input.routes@.len(),
        input.routes@[k as int] == *e,
        forall|j: int| 0 <= j < old(candidates)@.len() ==> candidate_sourced(*input, now, #[trigger] old(candidates)@[j]),
    ensures
        r is Ok ==> forall|j: int| 0 <= j < final(candidates)@.len() ==> candidate_sourced(*input, now, #[trigger] final(candidates)@[j]),
        r is Ok <==> entry_ok(*e, now),
        r is Ok <==> route_problem(*e, now) is None,
        r matches Err(x) ==> (x matches AssemblyError::Invalid(m) && Some(m@) == route_problem(*e, now)),
        r is Ok ==> final(candidates)@.map_values(|c: AssemblyCandidate| candidate_view(c))
            == old(candidates)@.map_values(|c: AssemblyCandidate| candidate_view(c)) + route_candidates(*e, *input, input.profiles@.len() as int),
        r is Ok ==> final(discarded)@.map_values(|d: AssemblyDiscard| discard_view(d))
            == old(discarded)@.map_values(|d: AssemblyDiscard| discard_view(d)) + route_discards(*e, *input),
        r is Ok ==> final(receipts)@.map_values(|h: String| h@) == old(receipts)@.map_values(|h: String| h@) + (
            if complete(*e) && capability_live(*e, now) { e.capability->0.receipt_hashes@.map_values(|h: String| h@) } else { Seq::empty() }),
{
    proof {
        reveal_strlit("missing_policy_route");
        reveal_strlit("policy.routes");
        reveal_strlit("missing_health_route");
        reveal_strlit("health.routes");
        reveal_strlit("missing_capability_index");
        reveal_strlit("capabilities.routes");
        reveal_strlit("missing_quality_projection");
        reveal_strlit("evidence.projections");
    }
    let ghost c0 = candidates@.map_values(|c: AssemblyCandidate| candidate_view(c));
    let ghost d0 = discarded@.map_values(|d: AssemblyDiscard| discard_view(d));
    let ghost r0 = receipts@.map_values(|h: String| h@);
    if !e.has_policy {
        discarded.push(discard(&e.route, None, "missing_policy_route", "policy.routes"));
        assert(discarded@.map_values(|d: AssemblyDiscard| discard_view(d)) =~= d0 + route_discards(*e, *input));
        assert(route_candidates(*e, *input, input.profiles@.len() as int) =~= Seq::empty()) by {
            lemma_incomplete_no_candidates(*e, *input, input.profiles@.len() as int);
        }
        assert(candidates@.map_values(|c: AssemblyCandidate| candidate_view(c)) =~= c0 + Seq::empty());
        assert(receipts@.map_values(|h: String| h@) =~= r0 + Seq::empty());
        return Ok(());
    }
    if !e.has_health {
        discarded.push(discard(&e.route, None, "missing_health_route", "health.routes"));
        assert(discarded@.map_values(|d: AssemblyDiscard| discard_view(d)) =~= d0 + route_discards(*e, *input));
        assert(route_candidates(*e, *input, input.profiles@.len() as int) =~= Seq::empty()) by {
            lemma_incomplete_no_candidates(*e, *input, input.profiles@.len() as int);
        }
        assert(candidates@.map_values(|c: AssemblyCandidate| candidate_view(c)) =~= c0 + Seq::empty());
        assert(receipts@.map_values(|h: String| h@) =~= r0 + Seq::empty());
        return Ok(());
    }
    let cap = match &e.capability {
        Some(cap) => cap,
        None => {
            discarded.push(discard(&e.route, None, "missing_capability_index", "capabilities.routes"));
            assert(discarded@.map_values(|d: AssemblyDiscard| discard_view(d)) =~= d0 + route_discards(*e, *input));
            assert(route_candidates(*e, *input, input.profiles@.len() as int) =~= Seq::empty()) by {
                lemma_incomplete_no_candidates(*e, *input, input.profiles@.len() as int);
            }
            assert(candidates@.map_values(|c: AssemblyCandidate| candidate_view(c)) =~= c0 + Seq::empty());
            assert(receipts@.map_values(|h: String| h@) =~= r0 + Seq::empty());
            return Ok(());
        },
    };
    proof {
        reveal_strlit("invalid economics for route '");
        reveal_strlit("invalid capability receipt hash '");
        reveal_strlit("'");
    }
    let ghost f = receipt_check(cap.receipt_hashes@);
    if !e.economics_valid {
        let mut m = String::from_str("invalid economics for route '");
        m.append(e.route.as_str());
        m.append("'");
        return Err(AssemblyError::Invalid(m));
    }
    if cap.expires_at > now {
        let mut k: usize = 0;
        while k < cap.receipt_hashes.len()
            invariant
                e.capability == Some(*cap),
                complete(*e),
                e.economics_valid,
                cap.expires_at > now,
                k <= cap.receipt_hashes@.len(),
                receipts@.map_values(|h: String| h@) == r0 + cap.receipt_hashes@.subrange(0, k as int).map_values(|h: String| h@),
                forall|j: int| 0 <= j < k ==> is_content_hash((#[trigger] cap.receipt_hashes@[j])@),
                f == receipt_check(cap.receipt_hashes@),
                first_problem(f, k as int) is None,
            decreases cap.receipt_hashes@.len() - k,
        {
            let h = &cap.receipt_hashes[k];
            if !is_content_hash_exec(h.as_str()) {
                assert(!is_content_hash(cap.receipt_hashes@[k as int]@));
                proof { lemma_first_problem_at(f, k as int, cap.receipt_hashes@.len() as int); }
                let mut m = String::from_str("invalid capability receipt hash '");
                m.append(h.as_str());
                m.append("'");
                return Err(AssemblyError::Invalid(m));
            }
            let ghost prev = receipts@;
            receipts.push(h.clone());
            assert(receipts@.map_values(|h: String| h@) =~= prev.map_values(|h: String| h@).push(h@));
            assert(cap.receipt_hashes@.subrange(0, k + 1).map_values(|h: String| h@)
                =~= cap.receipt_hashes@.subrange(0, k as int).map_values(|h: String| h@).push(h@));
            assert(receipts@.map_values(|h: String| h@) =~= r0 + cap.receipt_hashes@.subrange(0, k + 1).map_values(|h: String| h@));
            assert(first_problem(f, k + 1) is None);
            k = k + 1;
        }
        assert(cap.receipt_hashes@.subrange(0, cap.receipt_hashes@.len() as int) =~= cap.receipt_hashes@);
    } else {
        assert(receipts@.map_values(|h: String| h@) =~= r0 + Seq::empty());
    }
    assert(entry_ok(*e, now));
    let mut p: usize = 0;
    while p < input.profiles.len()
        invariant
            complete(*e),
            entry_ok(*e, now),
            p <= input.profiles@.len(),
            candidates@.map_values(|c: AssemblyCandidate| candidate_view(c)) == c0 + route_candidates(*e, *input, p as int),
            discarded@.map_values(|d: AssemblyDiscard| discard_view(d)) == d0 + projection_discards(*e, *input, p as int),
            k < input.routes@.len(),
            input.routes@[k as int] == *e,
            e.capability is Some,
            forall|j: int| 0 <= j < candidates@.len() ==> candidate_sourced(*input, now, #[trigger] candidates@[j]),
        decreases input.profiles@.len() - p,
    {
        let action = &input.profiles[p].0;
        let ghost pc = candidates@;
        let ghost pd = discarded@;
        if let Some(q) = find_projection(&input.projections, &e.route, action) {
            let live = match &e.capability {
                Some(cap) => cap.expires_at > now,
                None => false,
            };
            candidates.push(AssemblyCandidate {
                route: e.route.clone(),
                action: action.clone(),
                route_index: k,
                projection_index: q,
                capabilities_live: live,
            });
            assert forall|j: int| 0 <= j < candidates@.len() implies candidate_sourced(*input, now, #[trigger] candidates@[j]) by {
                if j < pc.len() {
                    assert(candidates@[j] == pc[j]);
                }
            }
            assert(candidates@.map_values(|c: AssemblyCandidate| candidate_view(c))
                =~= pc.map_values(|c: AssemblyCandidate| candidate_view(c)).push((e.route@, action@)));
            assert(discarded@ == pd);
            assert(candidates@.map_values(|c: AssemblyCandidate| candidate_view(c)) =~= c0 + route_candidates(*e, *input, p + 1));
            assert(discarded@.map_values(|d: AssemblyDiscard| discard_view(d)) =~= d0 + projection_discards(*e, *input, p + 1));
        } else {
            discarded.push(discard(&e.route, Some(action.clone()), "missing_quality_projection", "evidence.projections"));
            assert(discarded@.map_values(|d: AssemblyDiscard| discard_view(d))
                =~= pd.map_values(|d: AssemblyDiscard| discard_view(d)).push(discard_entry(e.route@, Some(action@), "missing_quality_projection"@, "evidence.projections"@)));
            assert(candidates@ == pc);
            assert(candidates@.map_values(|c: AssemblyCandidate| candidate_view(c)) =~= c0 + route_candidates(*e, *input, p + 1));
            assert(discarded@.map_values(|d: AssemblyDiscard| discard_view(d)) =~= d0 + projection_discards(*e, *input, p + 1));
        }
        p = p + 1;
    }
    Ok(())
}

proof fn lemma_incomplete_no_candidates(e: CatalogEntryFacts, i: AssemblyInput, n: int)
    requires
        !complete(e),
    ensures
        route_candidates(e, i, n) == Seq::<(Seq<char>, Seq<char>)>::empty(),
    decreases n,
{
    if n > 0 {
        lemma_incomplete_no_candidates(e, i, n - 1);
    }
}

/// The list holds a text.
pub open spec fn has_text(s: Seq<String>, x: Seq<char>) -> bool {
    s.map_values(|h: String| h@).contains(x)
}

/// The texts of a list, ordered strictly by their bytes: each text once.
pub open spec fn strictly_sorted(s: Seq<String>) -> bool {
    forall|a: int, b: int| 0 <= a < b < s.len() ==> text_lt((#[trigger] s[a])@, (#[trigger] s[b])@)
}

/// The texts of a list, each once, in order.
pub fn unique_sorted(v: Vec<String>) -> (out: Vec<String>)
    ensures
        strictly_sorted(out@),
        forall|x: Seq<char>| #![trigger has_text(out@, x)] #![trigger has_text(v@, x)] has_text(out@, x) <==> has_text(v@, x),
{
    let ghost original = v@;
    let sorted = sort(v);
    proof {
        assert forall|x: Seq<char>| #![trigger has_text(sorted@, x)] #![trigger has_text(original, x)] has_text(sorted@, x) <==> has_text(original, x) by {
            if sorted@.map_values(|h: String| h@).contains(x) {
                let m = sorted@.map_values(|h: String| h@);
                let k = choose|k: int| 0 <= k < m.len() && #[trigger] m[k] == x;
                vstd::seq_lib::to_multiset_contains(sorted@, sorted@[k]);
                vstd::seq_lib::to_multiset_contains(original, sorted@[k]);
                assert(sorted@.contains(sorted@[k]));
                let j = choose|j: int| 0 <= j < original.len() && original[j] == sorted@[k];
                assert(original.map_values(|h: String| h@)[j] == x);
            }
            if original.map_values(|h: String| h@).contains(x) {
                let m = original.map_values(|h: String| h@);
                let k = choose|k: int| 0 <= k < m.len() && #[trigger] m[k] == x;
                vstd::seq_lib::to_multiset_contains(sorted@, original[k]);
                vstd::seq_lib::to_multiset_contains(original, original[k]);
                assert(original.contains(original[k]));
                let j = choose|j: int| 0 <= j < sorted@.len() && sorted@[j] == original[k];
                assert(sorted@.map_values(|h: String| h@)[j] == x);
            }
        }
    }
    let mut out: Vec<String> = Vec::new();
    let mut k: usize = 0;
    while k < sorted.len()
        invariant
            k <= sorted@.len(),
            sorted_by(sorted@),
            strictly_sorted(out@),
            k > 0 ==> out@.len() > 0 && out@.last()@ == sorted@[k - 1]@,
            out@.len() > 0 ==> k > 0,
            forall|x: Seq<char>| #![trigger has_text(out@, x)] #![trigger has_text(sorted@.subrange(0, k as int), x)] has_text(out@, x) <==> has_text(sorted@.subrange(0, k as int), x),
            forall|x: Seq<char>| #![trigger has_text(sorted@, x)] #![trigger has_text(original, x)] has_text(sorted@, x) <==> has_text(original, x),
        decreases sorted@.len() - k,
    {
        let x = &sorted[k];
        let ghost prev = out@;
        let keep = out.len() == 0 || out[out.len() - 1] != *x;
        if keep {
            proof {
                if prev.len() > 0 {
                    assert(!sorted@[k as int].precedes(&sorted@[k - 1]));
                    assert(!text_lt(sorted@[k as int]@, sorted@[k - 1]@));
                    lemma_text_lt_total(prev.last()@, x@);
                    assert forall|a: int| 0 <= a < prev.len() implies text_lt(prev[a]@, x@) by {
                        if a < prev.len() - 1 {
                            assert(text_lt(prev[a]@, prev[prev.len() - 1]@));
                            crate::order::lemma_bytes_lt_transitive(
                                vstd::utf8::encode_utf8(prev[a]@),
                                vstd::utf8::encode_utf8(prev.last()@),
                                vstd::utf8::encode_utf8(x@),
                            );
                        }
                    }
                }
            }
            out.push(x.clone());
        }
        proof {
            let sk = sorted@.subrange(0, k + 1).map_values(|h: String| h@);
            let sp = sorted@.subrange(0, k as int).map_values(|h: String| h@);
            assert(sk =~= sp.push(x@));
            if keep {
                assert(out@.map_values(|h: String| h@) =~= prev.map_values(|h: String| h@).push(x@));
                assert forall|y: Seq<char>| has_text(out@, y) <==> #[trigger] sk.contains(y) by {
                    let ov = out@.map_values(|h: String| h@);
                    let pv = prev.map_values(|h: String| h@);
                    assert(has_text(prev, y) <==> has_text(sorted@.subrange(0, k as int), y));
                    if ov.contains(y) {
                        let j = choose|j: int| 0 <= j < ov.len() && ov[j] == y;
                        if j < pv.len() {
                            assert(pv[j] == y);
                        } else {
                            assert(sk[sp.len() as int] == y);
                        }
                    }
                    if pv.contains(y) {
                        let j = choose|j: int| 0 <= j < pv.len() && pv[j] == y;
                        assert(ov[j] == y);
                    }
                    if sk.contains(y) {
                        let j = choose|j: int| 0 <= j < sk.len() && sk[j] == y;
                        if j < sp.len() {
                            assert(sp[j] == y);
                        } else {
                            assert(ov[ov.len() - 1] == y);
                        }
                    }
                    if sp.contains(y) {
                        let j = choose|j: int| 0 <= j < sp.len() && sp[j] == y;
                        assert(sk[j] == y);
                    }
                }
                assert forall|a: int, b: int| 0 <= a < b < out@.len() implies text_lt((#[trigger] out@[a])@, (#[trigger] out@[b])@) by {
                    if b < prev.len() {
                        assert(out@[a] == prev[a] && out@[b] == prev[b]);
                    } else {
                        assert(out@[a] == prev[a]);
                    }
                }
            } else {
                assert(out@ == prev);
                assert forall|y: Seq<char>| has_text(out@, y) <==> #[trigger] sk.contains(y) by {
                    assert(has_text(prev, y) <==> has_text(sorted@.subrange(0, k as int), y));
                    if sp.contains(y) {
                        let j = choose|j: int| 0 <= j < sp.len() && sp[j] == y;
                        assert(sk[j] == y);
                    }
                    if y == x@ {
                        assert(out@.map_values(|h: String| h@)[out@.len() - 1] == x@);
                    }
                    if sk.contains(y) && y != x@ {
                        let j = choose|j: int| 0 <= j < sk.len() && sk[j] == y;
                        assert(sp[j] == y);
                    }
                }
            }
        }
        k = k + 1;
    }
    assert(sorted@.subrange(0, sorted@.len() as int) =~= sorted@);
    out
}

/// Assembles, from the entries of the generation's route and profile maps
/// (each key once), exactly one candidate per complete route and profiled
/// action with evidence, the discards of everything else, and the seal of the
/// generation with every live capability receipt once. Each candidate names
/// the catalog route and the evidence projection it takes its facts from, and
/// whether it carries the capabilities of a still valid index entry.
pub fn assemble_plan(input: &AssemblyInput, manifest: &StateManifestV2, now: u64) -> (r: Result<AssemblyPlan, AssemblyError>)
    requires
        routes_distinct(*input),
        profile_keys_distinct(*input),
    ensures
        r is Ok <==> assembly_ok(*input, now),
        r is Ok <==> assembly_problem(*input, now) is None,
        r matches Err(e) ==> (e matches AssemblyError::Invalid(m) && Some(m@) == assembly_problem(*input, now)),
        r matches Ok(plan) ==> ({
            let n = input.routes@.len() as int;
            &&& sorted_by(plan.candidates@)
            &&& forall|j: int| 0 <= j < plan.candidates@.len() ==> candidate_sourced(*input, now, #[trigger] plan.candidates@[j])
            &&& plan.candidates@.map_values(|c: AssemblyCandidate| candidate_view(c)).to_multiset()
                == candidates_upto(*input, n).to_multiset()
            &&& plan.candidates@.map_values(|c: AssemblyCandidate| candidate_view(c)).no_duplicates()
            &&& sorted_by(plan.discarded@)
            &&& plan.discarded@.map_values(|d: AssemblyDiscard| discard_view(d)).to_multiset()
                == discards_upto(*input, n).to_multiset()
            &&& plan.seal.manifest_hash@ == content_address(manifest_bytes(*manifest))
            &&& plan.seal.catalog_hash == manifest.catalog_hash
            &&& plan.seal.policy_hash == manifest.policy_hash
            &&& plan.seal.evidence_hash == manifest.evidence_hash
            &&& plan.seal.health_hash == manifest.health_hash
            &&& plan.seal.capabilities_hash == manifest.capabilities_hash
            &&& strictly_sorted(plan.seal.capability_receipt_hashes@)
            &&& forall|x: Seq<char>| has_text(plan.seal.capability_receipt_hashes@, x)
                <==> #[trigger] receipts_upto(*input, now, n).contains(x)
        }),
{
    proof {
        reveal_strlit("duplicate evidence projection for route and action");
    }
    validate_versions(input)?;
    let ghost f = route_check(input.routes@, now);
    if !check_projections_unique(&input.projections) {
        return Err(invalid("duplicate evidence projection for route and action"));
    }
    let manifest_hash = manifest.manifest_hash();
    let mut candidates: Vec<AssemblyCandidate> = Vec::new();
    let mut discarded: Vec<AssemblyDiscard> = Vec::new();
    let mut receipts: Vec<String> = Vec::new();
    let mut k: usize = 0;
    while k < input.routes.len()
        invariant
            k <= input.routes@.len(),
            forall|j: int| 0 <= j < k ==> entry_ok(#[trigger] input.routes@[j], now),
            candidates@.map_values(|c: AssemblyCandidate| candidate_view(c)) == candidates_upto(*input, k as int),
            discarded@.map_values(|d: AssemblyDiscard| discard_view(d)) == discards_upto(*input, k as int),
            forall|x: Seq<char>| has_text(receipts@, x) <==> #[trigger] receipts_upto(*input, now, k as int).contains(x),
            f == route_check(input.routes@, now),
            first_problem(f, k as int) is None,
            forall|j: int| 0 <= j < candidates@.len() ==> candidate_sourced(*input, now, #[trigger] candidates@[j]),
            settings_problem(*input) is None,
            projections_unique(input.projections@),
        decreases input.routes@.len() - k,
    {
        let ghost pr = receipts@;
        let e = &input.routes[k];
        match assemble_route(k, e, input, now, &mut candidates, &mut discarded, &mut receipts) {
            Err(x) => {
                proof { lemma_first_problem_at(f, k as int, input.routes@.len() as int); }
                return Err(x);
            },
            Ok(()) => {},
        }
        assert(first_problem(f, k + 1) is None);
        proof {
            let added = if complete(*e) && capability_live(*e, now) { e.capability->0.receipt_hashes@.map_values(|h: String| h@) } else { Seq::empty() };
            assert forall|x: Seq<char>| has_text(receipts@, x) <==> #[trigger] receipts_upto(*input, now, k + 1).contains(x) by {
                let now_views = receipts@.map_values(|h: String| h@);
                let before = pr.map_values(|h: String| h@);
                assert(has_text(pr, x) <==> receipts_upto(*input, now, k as int).contains(x));
                assert(now_views == before + added);
                if now_views.contains(x) {
                    let j = choose|j: int| 0 <= j < now_views.len() && now_views[j] == x;
                    if j < before.len() {
                        assert(before[j] == x);
                    } else {
                        assert(added[j - before.len()] == x);
                        assert(added.to_set().contains(x));
                    }
                }
                if before.contains(x) {
                    let j = choose|j: int| 0 <= j < before.len() && before[j] == x;
                    assert(now_views[j] == x);
                }
                if added.contains(x) {
                    let j = choose|j: int| 0 <= j < added.len() && added[j] == x;
                    assert(now_views[before.len() + j] == x);
                }
                if complete(*e) && capability_live(*e, now) && added.to_set().contains(x) {
                    assert(added.contains(x));
                }
            }
        }
        k = k + 1;
    }
    proof {
        assert(projections_unique(input.projections@));
    }
    let ghost all_c = candidates@;
    let ghost all_d = discarded@;
    let candidates = sort(candidates);
    let discarded = sort(discarded);
    proof {
        crate::catalog::lemma_map_multiset(all_c, candidates@, |c: AssemblyCandidate| candidate_view(c));
        assert forall|j: int| 0 <= j < candidates@.len() implies candidate_sourced(*input, now, #[trigger] candidates@[j]) by {
            let c = candidates@[j];
            assert(candidates@.contains(c));
            vstd::seq_lib::to_multiset_contains(candidates@, c);
            vstd::seq_lib::to_multiset_contains(all_c, c);
            let m = choose|m: int| 0 <= m < all_c.len() && all_c[m] == c;
            assert(candidate_sourced(*input, now, all_c[m]));
        }
        crate::catalog::lemma_map_multiset(all_d, discarded@, |d: AssemblyDiscard| discard_view(d));
        let n = input.routes@.len() as int;
        let cu = candidates_upto(*input, n);
        law_one_candidate_per_route_and_action(*input, n);
        assert(cu.no_duplicates());
        cu.lemma_multiset_has_no_duplicates();
        let pv = candidates@.map_values(|c: AssemblyCandidate| candidate_view(c));
        assert(pv.to_multiset() == cu.to_multiset());
        pv.lemma_multiset_has_no_duplicates_conv();
    }
    let hashes = unique_sorted(receipts);
    let seal = DecisionSealV2 {
        manifest_hash,
        catalog_hash: manifest.catalog_hash.clone(),
        policy_hash: manifest.policy_hash.clone(),
        evidence_hash: manifest.evidence_hash.clone(),
        health_hash: manifest.health_hash.clone(),
        capabilities_hash: manifest.capabilities_hash.clone(),
        capability_receipt_hashes: hashes,
    };
    Ok(AssemblyPlan { candidates, discarded, seal })
}

/// No two catalog routes share an identity.
pub open spec fn routes_distinct(i: AssemblyInput) -> bool {
    forall|a: int, b: int| 0 <= a < b < i.routes@.len() ==> (#[trigger] i.routes@[a]).route@ != (#[trigger] i.routes@[b]).route@
}

/// No two profiles share a key.
pub open spec fn profile_keys_distinct(i: AssemblyInput) -> bool {
    forall|a: int, b: int| 0 <= a < b < i.profiles@.len() ==> (#[trigger] i.profiles@[a]).0@ != (#[trigger] i.profiles@[b]).0@
}

/// The action is the key of one of the first `m` profiles.
pub open spec fn profiled_before(i: AssemblyInput, m: int, action: Seq<char>) -> bool {
    exists|j: int| 0 <= j < m && (#[trigger] i.profiles@[j]).0@ == action
}

/// The route is one of the first `k` catalog routes.
pub open spec fn catalogued_before(i: AssemblyInput, k: int, route: Seq<char>) -> bool {
    exists|r: int| 0 <= r < k && (#[trigger] i.routes@[r]).route@ == route
}

/// The candidates of one route are of that route, each for a distinct
/// profiled action among the first `m`.
pub proof fn lemma_route_candidates_distinct(e: CatalogEntryFacts, i: AssemblyInput, m: int)
    requires
        0 <= m <= i.profiles@.len(),
        profile_keys_distinct(i),
    ensures
        forall|x: int| 0 <= x < route_candidates(e, i, m).len() ==> (#[trigger] route_candidates(e, i, m)[x]).0 == e.route@
            && profiled_before(i, m, route_candidates(e, i, m)[x].1),
        forall|x: int, y: int| 0 <= x < y < route_candidates(e, i, m).len() ==> (#[trigger] route_candidates(e, i, m)[x]).1
            != (#[trigger] route_candidates(e, i, m)[y]).1,
    decreases m,
{
    if m > 0 {
        lemma_route_candidates_distinct(e, i, m - 1);
        let prev = route_candidates(e, i, m - 1);
        let cur = route_candidates(e, i, m);
        let action = i.profiles@[m - 1].0@;
        assert forall|x: int| 0 <= x < cur.len() implies (#[trigger] cur[x]).0 == e.route@ && profiled_before(i, m, cur[x].1) by {
            if x < prev.len() {
                assert(cur[x] == prev[x]);
                let j = choose|j: int| 0 <= j < m - 1 && (#[trigger] i.profiles@[j]).0@ == prev[x].1;
                assert(i.profiles@[j].0@ == cur[x].1);
            } else {
                assert(i.profiles@[m - 1].0@ == cur[x].1);
            }
        }
        assert forall|x: int, y: int| 0 <= x < y < cur.len() implies (#[trigger] cur[x]).1 != (#[trigger] cur[y]).1 by {
            if y < prev.len() {
                assert(cur[x] == prev[x] && cur[y] == prev[y]);
            } else {
                assert(cur[x] == prev[x]);
                assert(cur[y].1 == action);
                let j = choose|j: int| 0 <= j < m - 1 && (#[trigger] i.profiles@[j]).0@ == prev[x].1;
                assert(i.profiles@[j].0@ != i.profiles@[m - 1].0@);
            }
        }
    }
}

/// Assembly yields exactly one candidate per route and action: when catalog
/// routes and profile keys are each distinct, no two candidates repeat a
/// route and action.
pub proof fn law_one_candidate_per_route_and_action(i: AssemblyInput, k: int)
    requires
        0 <= k <= i.routes@.len(),
        routes_distinct(i),
        profile_keys_distinct(i),
    ensures
        forall|x: int| 0 <= x < candidates_upto(i, k).len() ==> catalogued_before(i, k, (#[trigger] candidates_upto(i, k)[x]).0),
        forall|x: int, y: int| 0 <= x < y < candidates_upto(i, k).len() ==> (#[trigger] candidates_upto(i, k)[x])
            != (#[trigger] candidates_upto(i, k)[y]),
    decreases k,
{
    if k > 0 {
        law_one_candidate_per_route_and_action(i, k - 1);
        let prev = candidates_upto(i, k - 1);
        let e = i.routes@[k - 1];
        let block = route_candidates(e, i, i.profiles@.len() as int);
        lemma_route_candidates_distinct(e, i, i.profiles@.len() as int);
        let cur = candidates_upto(i, k);
        assert(cur == prev + block);
        assert forall|x: int| 0 <= x < cur.len() implies catalogued_before(i, k, (#[trigger] cur[x]).0) by {
            if x < prev.len() {
                assert(cur[x] == prev[x]);
                assert(catalogued_before(i, k - 1, prev[x].0));
                let r = choose|r: int| 0 <= r < k - 1 && (#[trigger] i.routes@[r]).route@ == prev[x].0;
                assert(i.routes@[r].route@ == cur[x].0);
            } else {
                assert(cur[x] == block[x - prev.len()]);
                assert(i.routes@[k - 1].route@ == cur[x].0);
            }
        }
        assert forall|x: int, y: int| 0 <= x < y < cur.len() implies (#[trigger] cur[x]) != (#[trigger] cur[y]) by {
            if y < prev.len() {
                assert(cur[x] == prev[x] && cur[y] == prev[y]);
            } else if x < prev.len() {
                assert(cur[x] == prev[x] && cur[y] == block[y - prev.len()]);
                assert(catalogued_before(i, k - 1, prev[x].0));
                let r = choose|r: int| 0 <= r < k - 1 && (#[trigger] i.routes@[r]).route@ == prev[x].0;
                assert(i.routes@[r].route@ != i.routes@[k - 1].route@);
            } else {
                assert(cur[x] == block[x - prev.len()] && cur[y] == block[y - prev.len()]);
            }
        }
    }
}

} // verus!
