//! The trust boundary in front of the selector: the coherence of a routing
//! snapshot, the versions a public request must carry, the profile of its
//! action, and which candidates a request may choose among.

use vstd::prelude::*;
use vstd::string::*;

use crate::policy::{execution_valid, ExecutionPolicyV2};
use crate::route::RouteRef;
use crate::selector::SelectError;
use crate::stores::same_text;
use crate::text::{decimal, decimal_string, is_blank, is_blank_text};

verus! {

/// The first incoherence of a snapshot's parts, as its message, if any: a
/// blank policy hash, a profile stored under another action, or a second
/// projection of one route and action.
pub open spec fn parts_problem(policy_hash: Seq<char>, profiles: Seq<(String, String)>, projections: Seq<(RouteRef, String)>) -> Option<Seq<char>> {
    if is_blank(policy_hash) {
        Some("policy_hash cannot be empty"@)
    } else if exists|k: int| 0 <= k < profiles.len() && (#[trigger] profiles[k]).0@ != profiles[k].1@ {
        let k = first_mismatch(profiles);
        Some("profile key '"@ + profiles[k].0@ + "' does not match action '"@ + profiles[k].1@ + "'"@)
    } else if exists|b: int| 0 <= b < projections.len() && repeats(projections, b) {
        let b = first_repeat(projections);
        Some("duplicate candidate projection for route '"@ + projections[b].0@ + "' and action '"@ + projections[b].1@ + "'"@)
    } else {
        None
    }
}

/// The first profile stored under another action.
pub open spec fn first_mismatch(profiles: Seq<(String, String)>) -> int {
    choose|k: int| 0 <= k < profiles.len() && profiles[k].0@ != profiles[k].1@
        && forall|j: int| 0 <= j < k ==> (#[trigger] profiles[j]).0@ == profiles[j].1@
}

/// The `b`-th projection names the route and action of an earlier one.
pub open spec fn repeats(projections: Seq<(RouteRef, String)>, b: int) -> bool {
    exists|a: int| 0 <= a < b && (#[trigger] projections[a]).0@ == projections[b].0@ && projections[a].1@ == projections[b].1@
}

/// The first projection that repeats an earlier one.
pub open spec fn first_repeat(projections: Seq<(RouteRef, String)>) -> int {
    choose|b: int| 0 <= b < projections.len() && repeats(projections, b)
        && forall|j: int| 0 <= j < b ==> !#[trigger] repeats(projections, j)
}

/// Checks that a snapshot's parts are coherent: a policy hash, every profile
/// under its own action, and one projection per route and action. The error
/// is the message of the first incoherence.
pub fn validate_parts(policy_hash: &str, profiles: &Vec<(String, String)>, projections: &Vec<(RouteRef, String)>) -> (r: Result<(), String>)
    ensures
        r is Ok <==> parts_problem(policy_hash@, profiles@, projections@) is None,
        r matches Err(m) ==> parts_problem(policy_hash@, profiles@, projections@) == Some(m@),
{
    if is_blank_text(policy_hash) {
        return Err(String::from_str("policy_hash cannot be empty"));
    }
    let mut k: usize = 0;
    while k < profiles.len()
        invariant
            !is_blank(policy_hash@),
            k <= profiles@.len(),
            forall|j: int| 0 <= j < k ==> (#[trigger] profiles@[j]).0@ == profiles@[j].1@,
        decreases profiles@.len() - k,
    {
        if profiles[k].0 != profiles[k].1 {
            proof {
                assert(0 <= k < profiles@.len() && profiles@[k as int].0@ != profiles@[k as int].1@
                    && forall|j: int| 0 <= j < k ==> (#[trigger] profiles@[j]).0@ == profiles@[j].1@);
                let f = first_mismatch(profiles@);
                if f != k {
                    if f < k {
                        assert(profiles@[f].0@ == profiles@[f].1@);
                    } else {
                        assert(profiles@[k as int].0@ == profiles@[k as int].1@);
                    }
                }
            }
            let mut m = String::from_str("profile key '");
            m.append(profiles[k].0.as_str());
            m.append("' does not match action '");
            m.append(profiles[k].1.as_str());
            m.append("'");
            assert(first_mismatch(profiles@) == k);

            assert(m@ == "profile key '"@ + profiles@[k as int].0@ + "' does not match action '"@ + profiles@[k as int].1@ + "'"@);
            return Err(m);
        }
        k = k + 1;
    }
    let mut b: usize = 0;
    while b < projections.len()
        invariant
            !is_blank(policy_hash@),
            b <= projections@.len(),
            forall|j: int| 0 <= j < profiles@.len() ==> (#[trigger] profiles@[j]).0@ == profiles@[j].1@,
            forall|j: int| 0 <= j < b ==> !#[trigger] repeats(projections@, j),
        decreases projections@.len() - b,
    {
        if repeated(projections, b) {
            proof {
                let f = first_repeat(projections@);
                assert(0 <= b < projections@.len() && repeats(projections@, b as int)
                    && forall|j: int| 0 <= j < b ==> !#[trigger] repeats(projections@, j));
                if f != b {
                    if f < b {
                        assert(!repeats(projections@, f));
                    } else {
                        assert(!repeats(projections@, b as int));
                    }
                }
                assert(!(exists|k: int| 0 <= k < profiles@.len() && (#[trigger] profiles@[k]).0@ != profiles@[k].1@));
            }
            let mut m = String::from_str("duplicate candidate projection for route '");
            m.append(projections[b].0.as_str());
            m.append("' and action '");
            m.append(projections[b].1.as_str());
            m.append("'");
            assert(first_repeat(projections@) == b);
            assert(m@ == "duplicate candidate projection for route '"@ + projections@[b as int].0@ + "' and action '"@ + projections@[b as int].1@ + "'"@);
            return Err(m);
        }
        b = b + 1;
    }
    assert(!(exists|k: int| 0 <= k < profiles@.len() && (#[trigger] profiles@[k]).0@ != profiles@[k].1@));
    assert(!(exists|j: int| 0 <= j < projections@.len() && repeats(projections@, j)));
    Ok(())
}

/// Whether the `b`-th projection repeats an earlier one.
fn repeated(projections: &Vec<(RouteRef, String)>, b: usize) -> (r: bool)
    requires
        b < projections@.len(),
    ensures
        r == repeats(projections@, b as int),
{
    let mut a: usize = 0;
    while a < b
        invariant
            a <= b < projections@.len(),
            forall|i: int| 0 <= i < a ==> !((#[trigger] projections@[i]).0@ == projections@[b as int].0@
                && projections@[i].1@ == projections@[b as int].1@),
        decreases b - a,
    {
        if projections[a].0.same_as(&projections[b].0) && projections[a].1 == projections[b].1 {
            return true;
        }
        a = a + 1;
    }
    false
}

/// Message of a public request whose versions are not both 2.
pub open spec fn envelope_message(envelope: u16, request: u16) -> Seq<char> {
    "route request and envelope schema_version must be 2; received "@ + decimal(envelope as nat) + "/"@ + decimal(
        request as nat,
    )
}

/// Message of a snapshot of an unsupported version.
pub open spec fn snapshot_message(version: u16) -> Seq<char> {
    "routing snapshot schema_version "@ + decimal(version as nat) + " is unsupported; supported: 2"@
}

/// Checks the versions of a public request and of the snapshot that serves it.
pub fn check_versions(envelope: u16, request: u16, snapshot: u16) -> (r: Result<(), String>)
    ensures
        r is Ok <==> envelope == 2 && request == 2 && snapshot == 2,
        r matches Err(m) ==> (if envelope != 2 || request != 2 {
            m@ == envelope_message(envelope, request)
        } else {
            m@ == snapshot_message(snapshot)
        }),
{
    if envelope != 2 || request != 2 {
        let mut m = String::from_str("route request and envelope schema_version must be 2; received ");
        m.append(decimal_string(envelope as u64).as_str());
        m.append("/");
        m.append(decimal_string(request as u64).as_str());
        return Err(m);
    }
    if snapshot != 2 {
        let mut m = String::from_str("routing snapshot schema_version ");
        m.append(decimal_string(snapshot as u64).as_str());
        m.append(" is unsupported; supported: 2");
        return Err(m);
    }
    Ok(())
}

/// Position of the profile stored under the action; keys are unique.
pub fn find_profile(profiles: &Vec<(String, String)>, action: &str) -> (r: Result<usize, String>)
    requires
        forall|a: int, b: int| 0 <= a < b < profiles@.len() ==> (#[trigger] profiles@[a]).0@ != (#[trigger] profiles@[b]).0@,
    ensures
        r matches Ok(k) ==> k < profiles@.len() && profiles@[k as int].0@ == action@,
        r is Err <==> forall|k: int| 0 <= k < profiles@.len() ==> (#[trigger] profiles@[k]).0@ != action@,
        r matches Err(m) ==> m@ == "no routing profile for action '"@ + action@ + "'"@,
{
    let mut k: usize = 0;
    while k < profiles.len()
        invariant
            k <= profiles@.len(),
            forall|j: int| 0 <= j < k ==> (#[trigger] profiles@[j]).0@ != action@,
        decreases profiles@.len() - k,
    {
        if same_text(profiles[k].0.as_str(), action) {
            return Ok(k);
        }
        k = k + 1;
    }
    let mut m = String::from_str("no routing profile for action '");
    m.append(action);
    m.append("'");
    Err(m)
}

/// Whether a list of routes holds the route.
pub open spec fn holds_route(v: Seq<RouteRef>, r: Seq<char>) -> bool {
    exists|k: int| 0 <= k < v.len() && (#[trigger] v[k])@ == r
}

/// The candidate may be chosen: its projection is of the action, its route is
/// allowed when a list of allowed routes is given, and it was not excluded.
pub open spec fn admitted(p: (RouteRef, String), action: Seq<char>, allowed: Option<Seq<RouteRef>>, excluded: Seq<RouteRef>) -> bool {
    &&& p.1@ == action
    &&& match allowed {
        Some(a) => holds_route(a, p.0@),
        None => true,
    }
    &&& !holds_route(excluded, p.0@)
}

/// Positions of the admitted among the first `k` candidates.
pub open spec fn admitted_upto(ps: Seq<(RouteRef, String)>, action: Seq<char>, allowed: Option<Seq<RouteRef>>, excluded: Seq<RouteRef>, k: int) -> Seq<usize>
    decreases k,
{
    if k <= 0 {
        Seq::empty()
    } else if admitted(ps[k - 1], action, allowed, excluded) {
        admitted_upto(ps, action, allowed, excluded, k - 1).push((k - 1) as usize)
    } else {
        admitted_upto(ps, action, allowed, excluded, k - 1)
    }
}

fn contains_route(v: &Vec<RouteRef>, r: &RouteRef) -> (b: bool)
    ensures
        b == holds_route(v@, r@),
{
    let mut k: usize = 0;
    while k < v.len()
        invariant
            k <= v@.len(),
            forall|j: int| 0 <= j < k ==> (#[trigger] v@[j])@ != r@,
        decreases v@.len() - k,
    {
        if v[k].same_as(r) {
            return true;
        }
        k = k + 1;
    }
    false
}

/// Positions, in order, of the candidates a request may choose among: its
/// action's projections, within the allowed routes when given, and never an
/// excluded route.
pub fn admitted_candidates(
    projections: &Vec<(RouteRef, String)>,
    action: &str,
    allowed: Option<&Vec<RouteRef>>,
    excluded: &Vec<RouteRef>,
) -> (out: Vec<usize>)
    ensures
        out@ == admitted_upto(
            projections@,
            action@,
            match allowed {
                Some(a) => Some(a@),
                None => None,
            },
            excluded@,
            projections@.len() as int,
        ),
{
    let ghost al = match allowed {
        Some(a) => Some(a@),
        None => None::<Seq<RouteRef>>,
    };
    let mut out: Vec<usize> = Vec::new();
    let mut k: usize = 0;
    while k < projections.len()
        invariant
            k <= projections@.len(),
            al == match allowed {
                Some(a) => Some(a@),
                None => None,
            },
            out@ == admitted_upto(projections@, action@, al, excluded@, k as int),
        decreases projections@.len() - k,
    {
        let p = &projections[k];
        let in_allowed = match allowed {
            Some(a) => contains_route(a, &p.0),
            None => true,
        };
        if same_text(p.1.as_str(), action) && in_allowed && !contains_route(excluded, &p.0) {
            out.push(k);
        }
        k = k + 1;
    }
    out
}

/// Checks the parts of a new snapshot: its execution limits, then the
/// coherence of its parts; the failure is an invalid request with the message
/// of the first problem.
pub fn check_new_snapshot(
    execution: ExecutionPolicyV2,
    policy_hash: &str,
    profiles: &Vec<(String, String)>,
    projections: &Vec<(RouteRef, String)>,
) -> (r: Result<(), SelectError>)
    ensures
        r is Ok <==> execution_valid(execution) && parts_problem(policy_hash@, profiles@, projections@) is None,
        r matches Err(e) ==> e.code@ == "invalid_route_request"@ && e.discarded@.len() == 0,
        r matches Err(e) ==> (execution_valid(execution) ==> Some(e.message@) == parts_problem(
            policy_hash@,
            profiles@,
            projections@,
        )),
{
    match execution.validate() {
        Ok(_) => {},
        Err(e) => return Err(SelectError::invalid(e.message())),
    }
    match validate_parts(policy_hash, profiles, projections) {
        Ok(()) => Ok(()),
        Err(m) => Err(SelectError::invalid(m)),
    }
}

/// Checks a stored snapshot: version 2, then what a new snapshot must pass.
pub fn check_stored_snapshot(
    schema_version: u16,
    execution: ExecutionPolicyV2,
    policy_hash: &str,
    profiles: &Vec<(String, String)>,
    projections: &Vec<(RouteRef, String)>,
) -> (r: Result<(), SelectError>)
    ensures
        r is Ok <==> schema_version == 2 && execution_valid(execution) && parts_problem(policy_hash@, profiles@, projections@) is None,
        r matches Err(e) ==> e.code@ == "invalid_route_request"@ && e.discarded@.len() == 0,
        r matches Err(e) ==> (schema_version != 2 ==> e.message@ == snapshot_message(schema_version)),
{
    if schema_version != 2 {
        let mut m = String::from_str("routing snapshot schema_version ");
        m.append(decimal_string(schema_version as u64).as_str());
        m.append(" is unsupported; supported: 2");
        return Err(SelectError::invalid(m));
    }
    check_new_snapshot(execution, policy_hash, profiles, projections)
}

} // verus!
