//! Immutable execution grants: limits, scope, validity window and revocation.

use vstd::prelude::*;
use vstd::string::*;

use crate::json::{json_number, json_text, json_view_array, push_json_string, push_json_u64, push_json_view_array, push_text, utf8};
use crate::operational::{limits_json, push_limits};
use crate::route::RouteRef;
use crate::util::{copy_vec, duplicate_all, first_problem, lemma_first_problem_at};
use crate::text::{content_address, content_hash, invalid_identifier, invalid_identifier_message, is_safe_id, is_safe_identifier, is_sha256_ref, is_sha256_reference};

verus! {

/// External operation a grant can authorise.
#[derive(Debug, Clone, Copy, PartialEq, Eq, PartialOrd, Ord, Hash, Structural)]
pub enum GrantOperation {
    /// Selection without invocation.
    Route,
    /// Running work.
    Run,
    /// Synchronous research.
    Research,
    /// Capability canary.
    Canary,
}

/// Strictly positive maxima of a grant.
#[derive(Debug, Clone, Copy, PartialEq, Eq, Structural)]
pub struct GrantLimits {
    /// Total invocations.
    pub requests: u64,
    /// Input tokens.
    pub input_tokens: u64,
    /// Output tokens.
    pub output_tokens: u64,
    /// Total wall time.
    pub wall_time_ms: u64,
}

/// Contract or persistence failure of a grant.
#[derive(Debug, Clone, PartialEq, Eq)]
pub enum GrantError {
    /// Invalid document.
    Invalid(String),
    /// The seal does not match the body.
    HashMismatch,
    /// Outside the validity window.
    NotActive {
        /// Instant checked.
        now: u64,
        /// Issue instant.
        issued_at: u64,
        /// Exclusive expiry.
        expires_at: u64,
    },
    /// Revoked.
    Revoked(String),
}

impl GrantLimits {
    /// All four limits are strictly positive.
    pub open spec fn all_positive(self) -> bool {
        self.requests > 0 && self.input_tokens > 0 && self.output_tokens > 0 && self.wall_time_ms
            > 0
    }

    /// Checks that every limit is strictly positive.
    pub fn validate(self) -> (r: Result<(), GrantError>)
        ensures
            r is Ok <==> self.all_positive(),
            r matches Err(e) ==> (e matches GrantError::Invalid(m) && m@ == "all grant limits must be strictly positive"@),
    {
        if self.requests == 0 || self.input_tokens == 0 || self.output_tokens == 0
            || self.wall_time_ms == 0 {
            return Err(GrantError::Invalid(String::from_str("all grant limits must be strictly positive")));
        }
        Ok(())
    }
}


/// Sealed authorisation for bounded external effects.
#[derive(Debug, Clone, PartialEq, Eq)]
pub struct ExecutionGrantV1 {
    /// Closed version, 1.
    pub schema_version: u16,
    /// Unique identifier.
    pub id: String,
    /// Issue instant, Unix UTC seconds.
    pub issued_at: u64,
    /// Exclusive expiry, Unix UTC seconds.
    pub expires_at: u64,
    /// Manifest that served as base.
    pub manifest_hash: String,
    /// Exact routes authorised: a set, held in ascending order.
    pub routes: Vec<RouteRef>,
    /// Exact actions authorised: a set, held in ascending order.
    pub actions: Vec<String>,
    /// Operations authorised: a set, held in ascending order.
    pub operations: Vec<GrantOperation>,
    /// Maximum budget.
    pub limits: GrantLimits,
    /// Canonical hash of the body.
    pub grant_hash: String,
}

/// Unsealed form supplied by the client; it never carries `grant_hash`.
#[derive(Debug, Clone, PartialEq, Eq)]
pub struct ExecutionGrantDraftV1 {
    /// Closed version, 1.
    pub schema_version: u16,
    /// Unique identifier.
    pub id: String,
    /// Issue instant.
    pub issued_at: u64,
    /// Exclusive expiry.
    pub expires_at: u64,
    /// Manifest reviewed by the operator.
    pub manifest_hash: String,
    /// Exact routes authorised: a set, held in ascending order.
    pub routes: Vec<RouteRef>,
    /// Exact actions authorised: a set, held in ascending order.
    pub actions: Vec<String>,
    /// Operations authorised: a set, held in ascending order.
    pub operations: Vec<GrantOperation>,
    /// Maximum budget.
    pub limits: GrantLimits,
}

/// Append-only revocation fact.
#[derive(Debug, Clone, PartialEq, Eq)]
pub struct Revocation {
    /// Revoked grant.
    pub grant_id: String,
    /// Unix UTC instant.
    pub revoked_at: u64,
    /// Actor who confirmed the revocation.
    pub actor: String,
}

/// Two grants with the same contents.
pub open spec fn same_grant(a: ExecutionGrantV1, b: ExecutionGrantV1) -> bool {
    &&& a.schema_version == b.schema_version
    &&& a.id == b.id
    &&& a.issued_at == b.issued_at
    &&& a.expires_at == b.expires_at
    &&& a.manifest_hash == b.manifest_hash
    &&& a.routes@ == b.routes@
    &&& a.actions@ == b.actions@
    &&& a.operations@ == b.operations@
    &&& a.limits == b.limits
    &&& a.grant_hash == b.grant_hash
}

impl ExecutionGrantV1 {
    /// A copy with the same contents.
    pub fn duplicate(&self) -> (r: Self)
        ensures
            same_grant(r, *self),
    {
        ExecutionGrantV1 {
            schema_version: self.schema_version,
            id: self.id.clone(),
            issued_at: self.issued_at,
            expires_at: self.expires_at,
            manifest_hash: self.manifest_hash.clone(),
            routes: duplicate_all(&self.routes),
            actions: duplicate_all(&self.actions),
            operations: copy_vec(&self.operations),
            limits: self.limits,
            grant_hash: self.grant_hash.clone(),
        }
    }
}

/// Every action of the grant is a safe identifier.
pub open spec fn actions_safe(actions: Seq<String>) -> bool {
    forall|i: int| 0 <= i < actions.len() ==> #[trigger] is_safe_id(actions[i]@)
}

/// The structural rules of a grant body.
pub open spec fn body_valid(g: ExecutionGrantV1) -> bool {
    &&& g.schema_version == 1
    &&& is_safe_id(g.id@)
    &&& is_sha256_ref(g.manifest_hash@)
    &&& g.issued_at < g.expires_at
    &&& g.routes@.len() > 0
    &&& g.actions@.len() > 0
    &&& g.operations@.len() > 0
    &&& actions_safe(g.actions@)
    &&& g.limits.all_positive()
}

/// What is wrong with the action at a position, if anything.
pub open spec fn action_check(actions: Seq<String>) -> spec_fn(int) -> Option<Seq<char>> {
    |i: int| if is_safe_id(actions[i]@) { None } else { Some(invalid_identifier_message(actions[i]@)) }
}

/// The first structural rule a grant body breaks, as its message.
pub open spec fn body_problem(g: ExecutionGrantV1) -> Option<Seq<char>> {
    if g.schema_version != 1 {
        Some("grant schema_version must be 1"@)
    } else if !is_safe_id(g.id@) {
        Some(invalid_identifier_message(g.id@))
    } else if !is_sha256_ref(g.manifest_hash@) {
        Some("manifest_hash must be sha256"@)
    } else if g.issued_at >= g.expires_at {
        Some("expires_at must be later than issued_at"@)
    } else if g.routes@.len() == 0 || g.actions@.len() == 0 || g.operations@.len() == 0 {
        Some("routes, actions and operations must be non-empty"@)
    } else if first_problem(action_check(g.actions@), g.actions@.len() as int) is Some {
        first_problem(action_check(g.actions@), g.actions@.len() as int)
    } else if !g.limits.all_positive() {
        Some("all grant limits must be strictly positive"@)
    } else {
        None
    }
}

/// The first structural rule a grant draft breaks, as its message.
pub open spec fn draft_problem(d: ExecutionGrantDraftV1) -> Option<Seq<char>> {
    if d.schema_version != 1 {
        Some("grant schema_version must be 1"@)
    } else if !is_safe_id(d.id@) {
        Some(invalid_identifier_message(d.id@))
    } else if !is_sha256_ref(d.manifest_hash@) {
        Some("manifest_hash must be sha256"@)
    } else if d.issued_at >= d.expires_at {
        Some("expires_at must be later than issued_at"@)
    } else if d.routes@.len() == 0 || d.actions@.len() == 0 || d.operations@.len() == 0 {
        Some("routes, actions and operations must be non-empty"@)
    } else if first_problem(action_check(d.actions@), d.actions@.len() as int) is Some {
        first_problem(action_check(d.actions@), d.actions@.len() as int)
    } else if !d.limits.all_positive() {
        Some("all grant limits must be strictly positive"@)
    } else {
        None
    }
}

/// The structural rules of a grant draft, the same as those of a sealed body.
pub open spec fn draft_valid(d: ExecutionGrantDraftV1) -> bool {
    &&& d.schema_version == 1
    &&& is_safe_id(d.id@)
    &&& is_sha256_ref(d.manifest_hash@)
    &&& d.issued_at < d.expires_at
    &&& d.routes@.len() > 0
    &&& d.actions@.len() > 0
    &&& d.operations@.len() > 0
    &&& actions_safe(d.actions@)
    &&& d.limits.all_positive()
}

/// The grant is active at `now`: issued at or before it, expiring after it.
pub open spec fn active_at(g: ExecutionGrantV1, now: u64) -> bool {
    g.issued_at <= now && now < g.expires_at
}

/// The name of an operation in a grant document.
pub open spec fn operation_name(op: GrantOperation) -> Seq<char> {
    match op {
        GrantOperation::Route => "route"@,
        GrantOperation::Run => "run"@,
        GrantOperation::Research => "research"@,
        GrantOperation::Canary => "canary"@,
    }
}

/// The operation names of a grant.
pub open spec fn operation_names(ops: Seq<GrantOperation>) -> Seq<Seq<char>> {
    ops.map_values(|op: GrantOperation| operation_name(op))
}

/// Canonical body of a grant: every field but the seal, compact JSON, the
/// routes, actions and operations listed as the grant holds them.
pub open spec fn grant_body(g: ExecutionGrantV1) -> Seq<u8> {
    utf8("{\"schema_version\":"@) + json_number(g.schema_version as nat) + utf8(",\"id\":"@) + json_text(g.id@)
        + utf8(",\"issued_at\":"@) + json_number(g.issued_at as nat) + utf8(",\"expires_at\":"@)
        + json_number(g.expires_at as nat) + utf8(",\"manifest_hash\":"@) + json_text(g.manifest_hash@)
        + utf8(",\"routes\":"@) + json_view_array(route_views(g.routes@)) + utf8(",\"actions\":"@)
        + json_view_array(action_views(g.actions@)) + utf8(",\"operations\":"@)
        + json_view_array(operation_names(g.operations@)) + utf8(",\"limits\":"@) + limits_json(g.limits) + seq![125u8]
}

/// The route texts of a grant, as strings.
fn route_strings(routes: &Vec<RouteRef>) -> (out: Vec<String>)
    ensures
        out@.map_values(|s: String| s@) == route_views(routes@),
{
    let mut out: Vec<String> = Vec::new();
    let mut i: usize = 0;
    while i < routes.len()
        invariant
            i <= routes@.len(),
            out@.map_values(|s: String| s@) == route_views(routes@.subrange(0, i as int)),
        decreases routes@.len() - i,
    {
        out.push(String::from_str(routes[i].as_str()));
        assert(route_views(routes@.subrange(0, i + 1)) =~= route_views(routes@.subrange(0, i as int)).push(routes@[i as int]@));
        assert(out@.map_values(|s: String| s@) =~= route_views(routes@.subrange(0, i + 1)));
        i = i + 1;
    }
    assert(routes@.subrange(0, routes@.len() as int) =~= routes@);
    out
}

fn operation_str(op: GrantOperation) -> (s: &'static str)
    ensures
        s@ == operation_name(op),
{
    proof {
        reveal_strlit("route");
        reveal_strlit("run");
        reveal_strlit("research");
        reveal_strlit("canary");
    }
    match op {
        GrantOperation::Route => "route",
        GrantOperation::Run => "run",
        GrantOperation::Research => "research",
        GrantOperation::Canary => "canary",
    }
}

/// The operation names of a grant, as strings.
fn operation_strings(ops: &Vec<GrantOperation>) -> (out: Vec<String>)
    ensures
        out@.map_values(|s: String| s@) == operation_names(ops@),
{
    let mut out: Vec<String> = Vec::new();
    let mut i: usize = 0;
    while i < ops.len()
        invariant
            i <= ops@.len(),
            out@.map_values(|s: String| s@) == operation_names(ops@.subrange(0, i as int)),
        decreases ops@.len() - i,
    {
        out.push(String::from_str(operation_str(ops[i])));
        assert(operation_names(ops@.subrange(0, i + 1)) =~= operation_names(ops@.subrange(0, i as int)).push(operation_name(ops@[i as int])));
        assert(out@.map_values(|s: String| s@) =~= operation_names(ops@.subrange(0, i + 1)));
        i = i + 1;
    }
    assert(ops@.subrange(0, ops@.len() as int) =~= ops@);
    out
}

/// The seal is the content address of the grant's own canonical body.
pub open spec fn seal_matches(g: ExecutionGrantV1) -> bool {
    g.grant_hash@ == content_address(grant_body(g))
}

/// The route views of a grant.
pub open spec fn route_views(routes: Seq<RouteRef>) -> Seq<Seq<char>> {
    routes.map_values(|r: RouteRef| r@)
}

/// The action texts of a grant.
pub open spec fn action_views(actions: Seq<String>) -> Seq<Seq<char>> {
    actions.map_values(|a: String| a@)
}

/// What a grant permits: exact route, action and operation.
pub open spec fn permits_spec(g: ExecutionGrantV1, route: Seq<char>, action: Seq<char>, op: GrantOperation) -> bool {
    &&& route_views(g.routes@).contains(route)
    &&& action_views(g.actions@).contains(action)
    &&& g.operations@.contains(op)
}

fn invalid(message: &str) -> (e: GrantError)
    ensures
        e matches GrantError::Invalid(m) && m@ == message@,
{
    GrantError::Invalid(String::from_str(message))
}

impl ExecutionGrantV1 {
    /// Checks the structural rules of the body.
    pub fn validate_body(&self) -> (r: Result<(), GrantError>)
        ensures
            r is Ok <==> body_valid(*self),
            r is Ok <==> body_problem(*self) is None,
            r matches Err(e) ==> (e matches GrantError::Invalid(m) && Some(m@) == body_problem(*self)),
    {
        proof {
            reveal_strlit("grant schema_version must be 1");
            reveal_strlit("manifest_hash must be sha256");
            reveal_strlit("expires_at must be later than issued_at");
            reveal_strlit("routes, actions and operations must be non-empty");
            reveal_strlit("all grant limits must be strictly positive");
        }
        if self.schema_version != 1 {
            return Err(invalid("grant schema_version must be 1"));
        }
        if !is_safe_identifier(self.id.as_str()) {
            return Err(GrantError::Invalid(invalid_identifier(self.id.as_str())));
        }
        if !is_sha256_reference(self.manifest_hash.as_str()) {
            return Err(invalid("manifest_hash must be sha256"));
        }
        if self.issued_at >= self.expires_at {
            return Err(invalid("expires_at must be later than issued_at"));
        }
        if self.routes.len() == 0 || self.actions.len() == 0 || self.operations.len() == 0 {
            return Err(invalid("routes, actions and operations must be non-empty"));
        }
        let mut i: usize = 0;
        while i < self.actions.len()
            invariant
                i <= self.actions@.len(),
                forall|j: int| 0 <= j < i ==> #[trigger] is_safe_id(self.actions@[j]@),
                first_problem(action_check(self.actions@), i as int) is None,
                self.schema_version == 1,
                is_safe_id(self.id@),
                is_sha256_ref(self.manifest_hash@),
                self.issued_at < self.expires_at,
                self.routes@.len() > 0 && self.actions@.len() > 0 && self.operations@.len() > 0,
            decreases self.actions@.len() - i,
        {
            if !is_safe_identifier(self.actions[i].as_str()) {
                proof {
                    lemma_first_problem_at(action_check(self.actions@), i as int, self.actions@.len() as int);
                }
                return Err(GrantError::Invalid(invalid_identifier(self.actions[i].as_str())));
            }
            assert(first_problem(action_check(self.actions@), i + 1) is None);
            i = i + 1;
        }
        match self.limits.validate() {
            Ok(()) => Ok(()),
            Err(_) => Err(invalid("all grant limits must be strictly positive")),
        }
    }

    /// Canonical bytes of the body: every field but the seal.
    pub fn body_bytes(&self) -> (b: Vec<u8>)
        ensures
            b@ == grant_body(*self),
    {
        let mut out: Vec<u8> = Vec::new();
        push_text(&mut out, "{\"schema_version\":");
        push_json_u64(&mut out, self.schema_version as u64);
        push_text(&mut out, ",\"id\":");
        push_json_string(&mut out, self.id.as_str());
        push_text(&mut out, ",\"issued_at\":");
        push_json_u64(&mut out, self.issued_at);
        push_text(&mut out, ",\"expires_at\":");
        push_json_u64(&mut out, self.expires_at);
        push_text(&mut out, ",\"manifest_hash\":");
        push_json_string(&mut out, self.manifest_hash.as_str());
        push_text(&mut out, ",\"routes\":");
        let routes = route_strings(&self.routes);
        push_json_view_array(&mut out, &routes);
        push_text(&mut out, ",\"actions\":");
        push_json_view_array(&mut out, &self.actions);
        push_text(&mut out, ",\"operations\":");
        let ops = operation_strings(&self.operations);
        push_json_view_array(&mut out, &ops);
        push_text(&mut out, ",\"limits\":");
        push_limits(&mut out, self.limits);
        out.push(125u8);
        assert(self.actions@.map_values(|s: String| s@) =~= action_views(self.actions@));
        assert(out@ =~= grant_body(*self));
        out
    }

    /// Revalidates structure and seal without requiring the validity window, so
    /// historical documents stay auditable after expiry or revocation.
    pub fn validate_seal(&self) -> (r: Result<(), GrantError>)
        ensures
            r is Ok <==> body_valid(*self) && seal_matches(*self),
            r matches Err(e) ==> (!body_valid(*self) ==> (e matches GrantError::Invalid(m) && Some(m@) == body_problem(*self))),
            r matches Err(e) ==> (body_valid(*self) ==> e is HashMismatch),
            body_valid(*self) <==> body_problem(*self) is None,
    {
        self.validate_body()?;
        let body = self.body_bytes();
        let h = content_hash(body.as_slice());
        if h != self.grant_hash {
            return Err(GrantError::HashMismatch);
        }
        Ok(())
    }

    /// Revalidates structure, seal and validity window at `now`.
    pub fn validate_at(&self, now: u64) -> (r: Result<(), GrantError>)
        ensures
            r is Ok <==> body_valid(*self) && seal_matches(*self) && active_at(*self, now),
            r matches Err(e) ==> (!body_valid(*self) ==> (e matches GrantError::Invalid(m) && Some(m@) == body_problem(*self))),
            r matches Err(e) ==> (body_valid(*self) && !seal_matches(*self) ==> e is HashMismatch),
            r matches Err(e) ==> (body_valid(*self) && seal_matches(*self) ==> e == GrantError::NotActive {
                now,
                issued_at: self.issued_at,
                expires_at: self.expires_at,
            }),
            now >= self.expires_at ==> r is Err,
            now < self.issued_at ==> r is Err,
            r is Ok ==> self.issued_at <= now < self.expires_at,
    {
        proof {
            law_grant_authorises_only_inside_its_window(*self, now);
        }
        self.validate_seal()?;
        if now < self.issued_at || now >= self.expires_at {
            return Err(GrantError::NotActive { now, issued_at: self.issued_at, expires_at: self.expires_at });
        }
        Ok(())
    }

    /// Whether the grant lists the exact route.
    pub fn has_route(&self, route: &RouteRef) -> (b: bool)
        ensures
            b == route_views(self.routes@).contains(route@),
    {
        let mut has_route = false;
        let mut i: usize = 0;
        while i < self.routes.len()
            invariant
                i <= self.routes@.len(),
                has_route == (exists|j: int| 0 <= j < i && #[trigger] self.routes@[j]@ == route@),
            decreases self.routes@.len() - i,
        {
            if self.routes[i].same_as(route) {
                has_route = true;
            }
            i = i + 1;
        }
        proof {
            if has_route {
                let j = choose|j: int| 0 <= j < self.routes@.len() && #[trigger] self.routes@[j]@ == route@;
                assert(route_views(self.routes@)[j] == route@);
            } else {
                if route_views(self.routes@).contains(route@) {
                    let j = choose|j: int| 0 <= j < route_views(self.routes@).len() && route_views(self.routes@)[j] == route@;
                    assert(self.routes@[j]@ == route@);
                }
            }
        }
        has_route
    }

    /// Whether the grant covers the exact route, action and operation.
    pub fn permits(&self, route: &RouteRef, action: &str, operation: GrantOperation) -> (b: bool)
        ensures
            b == permits_spec(*self, route@, action@, operation),
    {
        let has_route = self.has_route(route);
        let has_action = self.allows_action(action);
        let has_op = self.allows_operation(operation);
        has_route && has_action && has_op
    }

    /// Whether the grant names the exact action.
    pub fn allows_action(&self, action: &str) -> (b: bool)
        ensures
            b == action_views(self.actions@).contains(action@),
    {
        let key = String::from_str(action);
        let mut has_action = false;
        let mut k: usize = 0;
        while k < self.actions.len()
            invariant
                k <= self.actions@.len(),
                key@ == action@,
                has_action == (exists|j: int| 0 <= j < k && #[trigger] self.actions@[j]@ == action@),
            decreases self.actions@.len() - k,
        {
            if self.actions[k] == key {
                has_action = true;
            }
            k = k + 1;
        }
        proof {
            if has_action {
                let j = choose|j: int| 0 <= j < self.actions@.len() && #[trigger] self.actions@[j]@ == action@;
                assert(action_views(self.actions@)[j] == action@);
            } else {
                if action_views(self.actions@).contains(action@) {
                    let j = choose|j: int| 0 <= j < action_views(self.actions@).len() && action_views(self.actions@)[j] == action@;
                    assert(self.actions@[j]@ == action@);
                }
            }
        }
        has_action
    }

    /// Whether the grant names the operation.
    pub fn allows_operation(&self, operation: GrantOperation) -> (b: bool)
        ensures
            b == self.operations@.contains(operation),
    {
        let mut has_op = false;
        let mut m: usize = 0;
        while m < self.operations.len()
            invariant
                m <= self.operations@.len(),
                has_op == (exists|j: int| 0 <= j < m && #[trigger] self.operations@[j] == operation),
            decreases self.operations@.len() - m,
        {
            if self.operations[m] == operation {
                has_op = true;
            }
            m = m + 1;
        }
        has_op
    }
}

impl ExecutionGrantDraftV1 {
    /// Validates the draft and adds the seal: the content address of the
    /// canonical body of the grant it becomes.
    pub fn seal(self) -> (r: Result<ExecutionGrantV1, GrantError>)
        ensures
            r matches Ok(g) ==> g.schema_version == 1 && g.id == self.id && g.issued_at == self.issued_at
                && g.expires_at == self.expires_at && g.manifest_hash == self.manifest_hash
                && g.routes == self.routes && g.actions == self.actions && g.operations == self.operations
                && g.limits == self.limits && seal_matches(g),
            r is Ok <==> draft_valid(self),
            r is Ok <==> draft_problem(self) is None,
            r matches Err(e) ==> (e matches GrantError::Invalid(m) && Some(m@) == draft_problem(self)),
    {
        proof {
            reveal_strlit("grant schema_version must be 1");
        }
        if self.schema_version != 1 {
            return Err(invalid("grant schema_version must be 1"));
        }
        let mut grant = ExecutionGrantV1 {
            schema_version: 1,
            id: self.id,
            issued_at: self.issued_at,
            expires_at: self.expires_at,
            manifest_hash: self.manifest_hash,
            routes: self.routes,
            actions: self.actions,
            operations: self.operations,
            limits: self.limits,
            grant_hash: String::new(),
        };
        grant.validate_body()?;
        let body = grant.body_bytes();
        grant.grant_hash = content_hash(body.as_slice());
        Ok(grant)
    }
}

/// The earliest revocation of `id` in the log; the first one wins a tie.
pub open spec fn is_earliest_revocation(log: Seq<Revocation>, id: Seq<char>, k: int) -> bool {
    &&& 0 <= k < log.len()
    &&& log[k].grant_id@ == id
    &&& forall|j: int| 0 <= j < log.len() && #[trigger] log[j].grant_id@ == id ==> log[k].revoked_at <= log[j].revoked_at
    &&& forall|j: int| 0 <= j < k && #[trigger] log[j].grant_id@ == id ==> log[k].revoked_at < log[j].revoked_at
}

/// Picks the earliest revocation of a grant from the append-only log.
pub fn earliest_revocation(log: &Vec<Revocation>, id: &str) -> (r: Option<usize>)
    ensures
        r is None <==> forall|j: int| 0 <= j < log@.len() ==> #[trigger] log@[j].grant_id@ != id@,
        r matches Some(k) ==> is_earliest_revocation(log@, id@, k as int),
{
    let key = String::from_str(id);
    let mut best: Option<usize> = None;
    let mut i: usize = 0;
    while i < log.len()
        invariant
            i <= log@.len(),
            key@ == id@,
            best is None <==> forall|j: int| 0 <= j < i ==> #[trigger] log@[j].grant_id@ != id@,
            best matches Some(k) ==> k < i && log@[k as int].grant_id@ == id@
                && (forall|j: int| 0 <= j < i && #[trigger] log@[j].grant_id@ == id@ ==> log@[k as int].revoked_at <= log@[j].revoked_at)
                && (forall|j: int| 0 <= j < k && #[trigger] log@[j].grant_id@ == id@ ==> log@[k as int].revoked_at < log@[j].revoked_at),
        decreases log@.len() - i,
    {
        if log[i].grant_id == key {
            match best {
                None => {
                    best = Some(i);
                },
                Some(k) => {
                    if log[i].revoked_at < log[k].revoked_at {
                        best = Some(i);
                    }
                },
            }
        }
        i = i + 1;
    }
    best
}

/// Decides an authorisation from a loaded grant and the revocation log.
pub fn authorize(grant: &ExecutionGrantV1, log: &Vec<Revocation>, id: &str, now: u64) -> (r: Result<(), GrantError>)
    ensures
        r is Ok <==> body_valid(*grant) && seal_matches(*grant) && active_at(*grant, now)
            && forall|j: int| 0 <= j < log@.len() ==> #[trigger] log@[j].grant_id@ != id@,
        r matches Err(e) ==> (body_valid(*grant) && seal_matches(*grant) && active_at(*grant, now) ==> e == GrantError::Revoked(r->Err_0->Revoked_0) && r->Err_0->Revoked_0@ == id@),
        now >= grant.expires_at ==> r is Err,
        now < grant.issued_at ==> r is Err,
        r is Ok ==> grant.issued_at <= now < grant.expires_at,
{
    proof {
        law_grant_authorises_only_inside_its_window(*grant, now);
    }
    grant.validate_at(now)?;
    if earliest_revocation(log, id).is_some() {
        return Err(GrantError::Revoked(String::from_str(id)));
    }
    Ok(())
}

/// Law: a grant is active only inside `[issued_at, expires_at)`: not before it
/// is issued, and never at or after its expiry; inside that window it is.
pub proof fn law_grant_authorises_only_inside_its_window(g: ExecutionGrantV1, now: u64)
    ensures
        now >= g.expires_at ==> !active_at(g, now),
        now < g.issued_at ==> !active_at(g, now),
        active_at(g, now) <==> g.issued_at <= now < g.expires_at,
{
}

} // verus!
