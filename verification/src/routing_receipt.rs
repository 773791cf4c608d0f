//! Durable receipt of a selection, its execution and its handoffs: the
//! checks a receipt must pass before it is sealed or after it is read back.

use vstd::prelude::*;
use vstd::string::*;

use crate::route::RouteRef;
use crate::text::{is_safe_id, is_safe_identifier};

verus! {

/// Observed transition of the execution machine.
#[derive(Debug, Clone, PartialEq, Eq)]
pub struct RoutingTransition {
    /// Unix UTC instant.
    pub at: u64,
    /// Previous state.
    pub from: String,
    /// Next state.
    pub to: String,
    /// Route involved, if any.
    pub route: Option<RouteRef>,
}

impl RoutingTransition {
    /// Builds a compact transition fact.
    pub fn new(at: u64, from: &str, to: &str, route: Option<RouteRef>) -> (t: RoutingTransition)
        ensures
            t.at == at,
            t.from@ == from@,
            t.to@ == to@,
            t.route == route,
    {
        RoutingTransition { at, from: String::from_str(from), to: String::from_str(to), route }
    }
}

/// Identity of an evaluated quality projection: route, action and evidence.
#[derive(Debug, Clone, PartialEq, Eq)]
pub struct ProjectionKey {
    /// Route projected.
    pub route: RouteRef,
    /// Action projected.
    pub action: String,
    /// Evidence the projection comes from.
    pub evidence_hash: String,
}

/// What the receipt checks read of a routing receipt.
#[derive(Debug, Clone, PartialEq, Eq)]
pub struct RoutingReceiptFacts {
    /// Document version.
    pub schema_version: u16,
    /// Unique identifier.
    pub id: String,
    /// Version of the resolved request.
    pub request_schema_version: u16,
    /// Action of the request.
    pub request_action: String,
    /// Version of the decision.
    pub decision_schema_version: u16,
    /// Route the decision selected.
    pub decision_route: RouteRef,
    /// Policy hash of the decision.
    pub decision_policy_hash: String,
    /// Evidence hash of the decision.
    pub decision_evidence_hash: String,
    /// Historical policy hash of the receipt.
    pub policy_hash: String,
    /// Historical evidence hash of the receipt.
    pub evidence_hash: String,
    /// Every projection evaluated for the action.
    pub projections: Vec<ProjectionKey>,
    /// Observed transitions, in order.
    pub transitions: Vec<RoutingTransition>,
}

/// Sealing or storage failure of a routing receipt.
#[derive(Debug, Clone, PartialEq, Eq)]
pub enum RoutingReceiptError {
    /// Unsafe identifier.
    InvalidId(String),
    /// A version is not 2.
    SchemaVersion,
    /// The decision's hashes do not match.
    HashMismatch,
    /// The exact selected projection is missing or repeated.
    SelectedProjectionMismatch,
    /// No transitions, or out of order.
    InvalidTransitions,
}

/// The projection is the one the decision selected.
pub open spec fn is_selected(p: ProjectionKey, r: RoutingReceiptFacts) -> bool {
    p.route@ == r.decision_route@ && p.action@ == r.request_action@ && p.evidence_hash@ == r.evidence_hash@
}

/// How many of the first `n` projections are the selected one.
pub open spec fn selected_count(ps: Seq<ProjectionKey>, r: RoutingReceiptFacts, n: int) -> nat
    decreases n,
{
    if n <= 0 {
        0
    } else {
        selected_count(ps, r, n - 1) + if is_selected(ps[n - 1], r) { 1nat } else { 0nat }
    }
}

/// Transition `i` is not later than the next one.
pub open spec fn in_order(ts: Seq<RoutingTransition>, i: int) -> bool {
    ts[i].at <= ts[i + 1].at
}

/// Transitions exist, never go back in time, and name both states.
pub open spec fn transitions_ok(ts: Seq<RoutingTransition>) -> bool {
    &&& ts.len() > 0
    &&& forall|i: int| 0 <= i < ts.len() - 1 ==> #[trigger] in_order(ts, i)
    &&& forall|i: int| 0 <= i < ts.len() ==> (#[trigger] ts[i]).from@.len() > 0 && ts[i].to@.len() > 0
}

/// The first failure of a receipt's checks, in the order they are made.
pub open spec fn receipt_check(r: RoutingReceiptFacts) -> Result<(), RoutingReceiptError> {
    if !is_safe_id(r.id@) {
        Err(RoutingReceiptError::InvalidId(r.id))
    } else if r.schema_version != 2 || r.request_schema_version != 2 || r.decision_schema_version != 2 {
        Err(RoutingReceiptError::SchemaVersion)
    } else if r.policy_hash@ != r.decision_policy_hash@ || r.evidence_hash@ != r.decision_evidence_hash@ {
        Err(RoutingReceiptError::HashMismatch)
    } else if selected_count(r.projections@, r, r.projections@.len() as int) != 1 {
        Err(RoutingReceiptError::SelectedProjectionMismatch)
    } else if !transitions_ok(r.transitions@) {
        Err(RoutingReceiptError::InvalidTransitions)
    } else {
        Ok(())
    }
}

/// Validates a routing receipt before it is sealed or after it is loaded.
pub fn validate_routing_receipt(r: &RoutingReceiptFacts) -> (res: Result<(), RoutingReceiptError>)
    ensures
        res is Ok <==> receipt_check(*r) is Ok,
        res matches Err(RoutingReceiptError::InvalidId(id)) ==> id@ == r.id@ && receipt_check(*r) matches Err(RoutingReceiptError::InvalidId(_)),
        res matches Err(e) ==> !(e is InvalidId) ==> receipt_check(*r) == res,
{
    if !is_safe_identifier(r.id.as_str()) {
        return Err(RoutingReceiptError::InvalidId(r.id.clone()));
    }
    if r.schema_version != 2 || r.request_schema_version != 2 || r.decision_schema_version != 2 {
        return Err(RoutingReceiptError::SchemaVersion);
    }
    if r.policy_hash != r.decision_policy_hash || r.evidence_hash != r.decision_evidence_hash {
        return Err(RoutingReceiptError::HashMismatch);
    }
    let mut count: usize = 0;
    let mut i: usize = 0;
    while i < r.projections.len()
        invariant
            i <= r.projections@.len(),
            count == selected_count(r.projections@, *r, i as int),
            count <= i,
        decreases r.projections@.len() - i,
    {
        let p = &r.projections[i];
        if p.route.same_as(&r.decision_route) && p.action == r.request_action && p.evidence_hash == r.evidence_hash {
            count = count + 1;
        }
        i = i + 1;
    }
    if count != 1 {
        return Err(RoutingReceiptError::SelectedProjectionMismatch);
    }
    let ts = &r.transitions;
    if ts.len() == 0 {
        return Err(RoutingReceiptError::InvalidTransitions);
    }
    let mut k: usize = 0;
    while k < ts.len()
        invariant
            ts@ == r.transitions@,
            is_safe_id(r.id@),
            r.schema_version == 2 && r.request_schema_version == 2 && r.decision_schema_version == 2,
            r.policy_hash@ == r.decision_policy_hash@ && r.evidence_hash@ == r.decision_evidence_hash@,
            selected_count(r.projections@, *r, r.projections@.len() as int) == 1,
            0 < ts@.len(),
            k <= ts@.len(),
            forall|j: int| 0 <= j < k && j < ts@.len() - 1 ==> #[trigger] in_order(ts@, j),
            forall|j: int| 0 <= j < k ==> (#[trigger] ts@[j]).from@.len() > 0 && ts@[j].to@.len() > 0,
        decreases ts@.len() - k,
    {
        let t = &ts[k];
        if t.from.as_str().unicode_len() == 0 || t.to.as_str().unicode_len() == 0 {
            assert(!(ts@[k as int].from@.len() > 0 && ts@[k as int].to@.len() > 0));
            return Err(RoutingReceiptError::InvalidTransitions);
        }
        if k + 1 < ts.len() && t.at > ts[k + 1].at {
            assert(!in_order(ts@, k as int));
            return Err(RoutingReceiptError::InvalidTransitions);
        }
        assert(k + 1 < ts@.len() ==> in_order(ts@, k as int));
        k = k + 1;
    }
    Ok(())
}

} // verus!
