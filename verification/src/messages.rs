//! The human text of every failure, as the command line and the terminal
//! interface print it.

use vstd::prelude::*;
use vstd::string::*;

use crate::assembly::AssemblyError;
use crate::dsh::DshSidecarError;
use crate::grant::GrantError;
use crate::handoff::HandoffError;
use crate::ledger::BudgetError;
use crate::operational::OperationalError;
use crate::policy::{AliasError, PolicyError};
use crate::policy_migration::PolicyMigrationError;
use crate::receipt::RunReceiptError;
use crate::routing_receipt::RoutingReceiptError;
use crate::run_model::RunCoordinatorError;
use crate::run_state::RunTransitionError;
use crate::selector::SelectError;
use crate::state::StateStoreError;
use crate::stores::{CatalogStoreError, ExecutionProfileStoreError, HealthStoreError, RunStoreError};
use crate::text::{decimal, decimal_string, is_safe_id};

verus! {

/// Text of two parts.
fn cat2(a: &str, b: &str) -> (m: String)
    ensures
        m@ == a@ + b@,
{
    let mut m = String::from_str(a);
    m.append(b);
    m
}

/// Text of three parts.
fn cat3(a: &str, b: &str, c: &str) -> (m: String)
    ensures
        m@ == a@ + b@ + c@,
{
    let mut m = cat2(a, b);
    m.append(c);
    m
}

/// Text of four parts.
fn cat4(a: &str, b: &str, c: &str, d: &str) -> (m: String)
    ensures
        m@ == a@ + b@ + c@ + d@,
{
    let mut m = cat3(a, b, c);
    m.append(d);
    m
}

/// Text of five parts.
fn cat5(a: &str, b: &str, c: &str, d: &str, e: &str) -> (m: String)
    ensures
        m@ == a@ + b@ + c@ + d@ + e@,
{
    let mut m = cat4(a, b, c, d);
    m.append(e);
    m
}

/// Decimal text of a signed integer.
pub open spec fn signed_decimal(v: int) -> Seq<char> {
    if v < 0 {
        "-"@ + decimal((-v) as nat)
    } else {
        decimal(v as nat)
    }
}

/// Writes a signed integer in decimal.
fn signed_string(v: i64) -> (s: String)
    ensures
        s@ == signed_decimal(v as int),
{
    if v < 0 {
        let magnitude: u64 = ((-(v + 1)) as u64) + 1;
        cat2("-", decimal_string(magnitude).as_str())
    } else {
        decimal_string(v as u64)
    }
}

/// How an optional exit code is printed for debugging.
pub open spec fn exit_code_text(code: Option<i32>) -> Seq<char> {
    match code {
        Some(c) => "Some("@ + signed_decimal(c as int) + ")"@,
        None => "None"@,
    }
}

/// Text of a sidecar failure.
pub open spec fn sidecar_message(e: DshSidecarError) -> Seq<char> {
    match e {
        DshSidecarError::Configuration => "invalid DSH sidecar configuration"@,
        DshSidecarError::Timeout => "DSH sidecar timed out"@,
        DshSidecarError::Truncated => "DSH sidecar output exceeded its limit"@,
        DshSidecarError::Protocol(m) => "DSH sidecar protocol error: "@ + m@,
        DshSidecarError::Remote { code, field, message } => "DSH sidecar "@ + code@ + " at "@ + field@ + ": "@ + message@,
        DshSidecarError::Exit { code, stderr } => "DSH sidecar exited "@ + exit_code_text(code) + ": "@ + stderr@,
    }
}

impl DshSidecarError {
    /// The failure as people read it.
    pub fn message(&self) -> (m: String)
        ensures
            m@ == sidecar_message(*self),
    {
        match self {
            DshSidecarError::Configuration => String::from_str("invalid DSH sidecar configuration"),
            DshSidecarError::Timeout => String::from_str("DSH sidecar timed out"),
            DshSidecarError::Truncated => String::from_str("DSH sidecar output exceeded its limit"),
            DshSidecarError::Protocol(m) => cat2("DSH sidecar protocol error: ", m.as_str()),
            DshSidecarError::Remote { code, field, message } => {
                let mut m = cat4("DSH sidecar ", code.as_str(), " at ", field.as_str());
                m.append(": ");
                m.append(message.as_str());
                m
            },
            DshSidecarError::Exit { code, stderr } => {
                let text = match code {
                    Some(c) => cat3("Some(", signed_string(*c as i64).as_str(), ")"),
                    None => String::from_str("None"),
                };
                cat4("DSH sidecar exited ", text.as_str(), ": ", stderr.as_str())
            },
        }
    }
}

/// Text of a grant failure.
pub open spec fn grant_message(e: GrantError) -> Seq<char> {
    match e {
        GrantError::Invalid(m) => m@,
        GrantError::HashMismatch => "grant_hash_mismatch"@,
        GrantError::NotActive { now, issued_at, expires_at } => "grant_not_active: "@ + decimal(now as nat) + " not in ["@
            + decimal(issued_at as nat) + ", "@ + decimal(expires_at as nat) + ")"@,
        GrantError::Revoked(id) => "grant_revoked: "@ + id@,
    }
}

impl GrantError {
    /// The failure as people read it.
    pub fn message(&self) -> (m: String)
        ensures
            m@ == grant_message(*self),
    {
        match self {
            GrantError::Invalid(m) => m.clone(),
            GrantError::HashMismatch => String::from_str("grant_hash_mismatch"),
            GrantError::NotActive { now, issued_at, expires_at } => {
                let mut m = cat4(
                    "grant_not_active: ",
                    decimal_string(*now).as_str(),
                    " not in [",
                    decimal_string(*issued_at).as_str(),
                );
                m.append(", ");
                m.append(decimal_string(*expires_at).as_str());
                m.append(")");
                m
            },
            GrantError::Revoked(id) => cat2("grant_revoked: ", id.as_str()),
        }
    }
}

/// Text of a budget failure.
pub open spec fn budget_message(e: BudgetError) -> Seq<char> {
    match e {
        BudgetError::Invalid(m) => m@,
        BudgetError::DuplicateReservation(id) => "reservation already exists: "@ + id@,
        BudgetError::MissingReservation(id) => "reservation not found: "@ + id@,
        BudgetError::Exceeded => "grant budget exceeded"@,
        BudgetError::ActualExceedsReservation => "actual usage exceeds reservation"@,
        BudgetError::Overflow => "budget arithmetic overflow"@,
    }
}

impl BudgetError {
    /// The failure as people read it.
    pub fn message(&self) -> (m: String)
        ensures
            m@ == budget_message(*self),
    {
        match self {
            BudgetError::Invalid(m) => m.clone(),
            BudgetError::DuplicateReservation(id) => cat2("reservation already exists: ", id.as_str()),
            BudgetError::MissingReservation(id) => cat2("reservation not found: ", id.as_str()),
            BudgetError::Exceeded => String::from_str("grant budget exceeded"),
            BudgetError::ActualExceedsReservation => String::from_str("actual usage exceeds reservation"),
            BudgetError::Overflow => String::from_str("budget arithmetic overflow"),
        }
    }
}

/// Text of a state store failure.
pub open spec fn state_message(e: StateStoreError) -> Seq<char> {
    match e {
        StateStoreError::NotFound => "state manifest v2 does not exist"@,
        StateStoreError::Invalid(m) => "invalid state store: "@ + m@,
        StateStoreError::Lease(m) => "state writer lease failed: "@ + m@,
        StateStoreError::Conflict { expected, actual } => "state manifest changed: expected "@ + expected@ + ", received "@
            + actual@,
    }
}

impl StateStoreError {
    /// The failure as people read it.
    pub fn message(&self) -> (m: String)
        ensures
            m@ == state_message(*self),
    {
        match self {
            StateStoreError::NotFound => String::from_str("state manifest v2 does not exist"),
            StateStoreError::Invalid(m) => cat2("invalid state store: ", m.as_str()),
            StateStoreError::Lease(m) => cat2("state writer lease failed: ", m.as_str()),
            StateStoreError::Conflict { expected, actual } => cat4(
                "state manifest changed: expected ",
                expected.as_str(),
                ", received ",
                actual.as_str(),
            ),
        }
    }
}

/// Text of a catalog store failure.
pub open spec fn catalog_store_message(e: CatalogStoreError) -> Seq<char> {
    match e {
        CatalogStoreError::InvalidId(id) => "invalid catalog proposal id '"@ + id@ + "'"@,
        CatalogStoreError::AlreadyExists(id) => "catalog proposal '"@ + id@ + "' already exists"@,
        CatalogStoreError::NotConfirmed => "catalog proposal requires explicit confirmation"@,
        CatalogStoreError::ProposalHashMismatch => "catalog proposal hash mismatch"@,
        CatalogStoreError::BaseConflict => "active catalog changed since proposal creation"@,
    }
}

impl CatalogStoreError {
    /// The failure as people read it.
    pub fn message(&self) -> (m: String)
        ensures
            m@ == catalog_store_message(*self),
    {
        match self {
            CatalogStoreError::InvalidId(id) => cat3("invalid catalog proposal id '", id.as_str(), "'"),
            CatalogStoreError::AlreadyExists(id) => cat3("catalog proposal '", id.as_str(), "' already exists"),
            CatalogStoreError::NotConfirmed => String::from_str("catalog proposal requires explicit confirmation"),
            CatalogStoreError::ProposalHashMismatch => String::from_str("catalog proposal hash mismatch"),
            CatalogStoreError::BaseConflict => String::from_str("active catalog changed since proposal creation"),
        }
    }
}

/// Text of an execution profile store failure.
pub open spec fn profile_store_message(e: ExecutionProfileStoreError) -> Seq<char> {
    match e {
        ExecutionProfileStoreError::Invalid(m) => m@,
        ExecutionProfileStoreError::Lease(m) => m@,
        ExecutionProfileStoreError::HashMismatch => "execution_profile_proposal_hash_mismatch"@,
        ExecutionProfileStoreError::ConfirmationRequired => "execution_profile_confirmation_required"@,
        ExecutionProfileStoreError::Conflict { expected, actual } => "execution_profile_conflict: expected "@ + expected@
            + ", received "@ + actual@,
    }
}

impl ExecutionProfileStoreError {
    /// The failure as people read it.
    pub fn message(&self) -> (m: String)
        ensures
            m@ == profile_store_message(*self),
    {
        match self {
            ExecutionProfileStoreError::Invalid(m) => m.clone(),
            ExecutionProfileStoreError::Lease(m) => m.clone(),
            ExecutionProfileStoreError::HashMismatch => String::from_str("execution_profile_proposal_hash_mismatch"),
            ExecutionProfileStoreError::ConfirmationRequired => String::from_str("execution_profile_confirmation_required"),
            ExecutionProfileStoreError::Conflict { expected, actual } => cat4(
                "execution_profile_conflict: expected ",
                expected.as_str(),
                ", received ",
                actual.as_str(),
            ),
        }
    }
}

/// Text of a health store failure.
pub open spec fn health_store_message(e: HealthStoreError) -> Seq<char> {
    match e {
        HealthStoreError::Io(m) => m@,
        HealthStoreError::Json(m) => m@,
        HealthStoreError::SchemaVersion { received } => "invalid health schema_version "@ + decimal(received as nat)
            + "; supported: 1"@,
        HealthStoreError::InvalidHealth { route } => "invalid health for route '"@ + route@ + "'"@,
    }
}

impl HealthStoreError {
    /// The failure as people read it.
    pub fn message(&self) -> (m: String)
        ensures
            m@ == health_store_message(*self),
    {
        match self {
            HealthStoreError::Io(m) => m.clone(),
            HealthStoreError::Json(m) => m.clone(),
            HealthStoreError::SchemaVersion { received } => cat3(
                "invalid health schema_version ",
                decimal_string(*received as u64).as_str(),
                "; supported: 1",
            ),
            HealthStoreError::InvalidHealth { route } => cat3("invalid health for route '", route.as_str(), "'"),
        }
    }
}

/// Text of a run store failure.
pub open spec fn run_store_message(e: RunStoreError) -> Seq<char> {
    match e {
        RunStoreError::InvalidId(id) => "invalid run id '"@ + id@ + "'"@,
        RunStoreError::IdentityMismatch => "run state identity or schema mismatch"@,
    }
}

impl RunStoreError {
    /// The failure as people read it.
    pub fn message(&self) -> (m: String)
        ensures
            m@ == run_store_message(*self),
    {
        match self {
            RunStoreError::InvalidId(id) => cat3("invalid run id '", id.as_str(), "'"),
            RunStoreError::IdentityMismatch => String::from_str("run state identity or schema mismatch"),
        }
    }
}

/// Text of a checkpoint failure.
pub open spec fn handoff_message(e: HandoffError) -> Seq<char> {
    match e {
        HandoffError::SchemaVersion { received } => "invalid checkpoint schema_version "@ + decimal(received as nat)
            + "; supported: 1"@,
        HandoffError::Empty { field } => "checkpoint field '"@ + field@ + "' cannot be empty"@,
        HandoffError::NonRelativeFile { file } => "checkpoint file '"@ + file@ + "' must be a safe relative path"@,
    }
}

impl HandoffError {
    /// The failure as people read it.
    pub fn message(&self) -> (m: String)
        ensures
            m@ == handoff_message(*self),
    {
        match self {
            HandoffError::SchemaVersion { received } => cat3(
                "invalid checkpoint schema_version ",
                decimal_string(*received as u64).as_str(),
                "; supported: 1",
            ),
            HandoffError::Empty { field } => cat3("checkpoint field '", field, "' cannot be empty"),
            HandoffError::NonRelativeFile { file } => cat3("checkpoint file '", file.as_str(), "' must be a safe relative path"),
        }
    }
}

/// Text of a routing receipt failure.
pub open spec fn routing_receipt_message(e: RoutingReceiptError) -> Seq<char> {
    match e {
        RoutingReceiptError::InvalidId(id) => "invalid routing receipt id '"@ + id@ + "'"@,
        RoutingReceiptError::SchemaVersion => "routing receipt and request must be schema v2"@,
        RoutingReceiptError::HashMismatch => "routing receipt hashes do not match its decision"@,
        RoutingReceiptError::SelectedProjectionMismatch => "routing receipt does not contain one exact selected projection"@,
        RoutingReceiptError::InvalidTransitions => "routing receipt transitions are invalid"@,
    }
}

impl RoutingReceiptError {
    /// The failure as people read it.
    pub fn message(&self) -> (m: String)
        ensures
            m@ == routing_receipt_message(*self),
    {
        match self {
            RoutingReceiptError::InvalidId(id) => cat3("invalid routing receipt id '", id.as_str(), "'"),
            RoutingReceiptError::SchemaVersion => String::from_str("routing receipt and request must be schema v2"),
            RoutingReceiptError::HashMismatch => String::from_str("routing receipt hashes do not match its decision"),
            RoutingReceiptError::SelectedProjectionMismatch => String::from_str(
                "routing receipt does not contain one exact selected projection",
            ),
            RoutingReceiptError::InvalidTransitions => String::from_str("routing receipt transitions are invalid"),
        }
    }
}

/// Text of a coordinator failure.
pub open spec fn coordinator_message(e: RunCoordinatorError) -> Seq<char> {
    match e {
        RunCoordinatorError::Invalid(m) => m@,
        RunCoordinatorError::Grant(m) => m@,
        RunCoordinatorError::Route(m) => m@,
        RunCoordinatorError::Budget(m) => m@,
        RunCoordinatorError::State(m) => m@,
        RunCoordinatorError::Receipt(m) => m@,
        RunCoordinatorError::Lease(m) => m@,
        RunCoordinatorError::AlreadyExists(id) => "run already exists: "@ + id@,
        RunCoordinatorError::ProbeNotDue { next_action_at } => "probe_not_due: next action at "@ + decimal(
            next_action_at as nat,
        ),
    }
}

impl RunCoordinatorError {
    /// The failure as people read it.
    pub fn message(&self) -> (m: String)
        ensures
            m@ == coordinator_message(*self),
    {
        match self {
            RunCoordinatorError::Invalid(m) => m.clone(),
            RunCoordinatorError::Grant(m) => m.clone(),
            RunCoordinatorError::Route(m) => m.clone(),
            RunCoordinatorError::Budget(m) => m.clone(),
            RunCoordinatorError::State(m) => m.clone(),
            RunCoordinatorError::Receipt(m) => m.clone(),
            RunCoordinatorError::Lease(m) => m.clone(),
            RunCoordinatorError::AlreadyExists(id) => cat2("run already exists: ", id.as_str()),
            RunCoordinatorError::ProbeNotDue { next_action_at } => cat2(
                "probe_not_due: next action at ",
                decimal_string(*next_action_at).as_str(),
            ),
        }
    }
}

/// Text of a run receipt failure.
pub open spec fn run_receipt_message(e: RunReceiptError) -> Seq<char> {
    match e {
        RunReceiptError::Invalid(m) => "invalid run receipt: "@ + m@,
        RunReceiptError::HashMismatch => "run receipt hash mismatch"@,
        RunReceiptError::AlreadyExists(id) => "run receipt '"@ + id@ + "' already exists"@,
    }
}

impl RunReceiptError {
    /// The failure as people read it.
    pub fn message(&self) -> (m: String)
        ensures
            m@ == run_receipt_message(*self),
    {
        match self {
            RunReceiptError::Invalid(m) => cat2("invalid run receipt: ", m.as_str()),
            RunReceiptError::HashMismatch => String::from_str("run receipt hash mismatch"),
            RunReceiptError::AlreadyExists(id) => cat3("run receipt '", id.as_str(), "' already exists"),
        }
    }
}

impl RunTransitionError {
    /// The refusal as people read it.
    pub fn message(&self) -> (m: String)
        ensures
            m@ == "cannot apply '"@ + self.event@ + "' while run is '"@ + self.state@ + "'; one active route is allowed"@,
    {
        cat5("cannot apply '", self.event, "' while run is '", self.state, "'; one active route is allowed")
    }
}

/// Text of a policy migration failure.
pub open spec fn migration_message(e: PolicyMigrationError) -> Seq<char> {
    match e {
        PolicyMigrationError::NotConfirmed => "policy migration requires explicit confirmation"@,
        PolicyMigrationError::BaseConflict => "policy changed since migration dry-run"@,
        PolicyMigrationError::BackupConflict => "policy v1 backup exists with different bytes"@,
    }
}

impl PolicyMigrationError {
    /// The failure as people read it.
    pub fn message(&self) -> (m: String)
        ensures
            m@ == migration_message(*self),
    {
        match self {
            PolicyMigrationError::NotConfirmed => String::from_str("policy migration requires explicit confirmation"),
            PolicyMigrationError::BaseConflict => String::from_str("policy changed since migration dry-run"),
            PolicyMigrationError::BackupConflict => String::from_str("policy v1 backup exists with different bytes"),
        }
    }
}

/// Text of an operational document failure.
pub open spec fn operational_message(e: OperationalError) -> Seq<char> {
    match e {
        OperationalError::Invalid(m) => "invalid_operational_document: "@ + m@,
        OperationalError::Conflict(f) => "stale_operational_base: "@ + f@,
        OperationalError::Serialization(m) => "operational_serialization_failed: "@ + m@,
    }
}

impl OperationalError {
    /// The failure as people read it.
    pub fn message(&self) -> (m: String)
        ensures
            m@ == operational_message(*self),
    {
        match self {
            OperationalError::Invalid(m) => cat2("invalid_operational_document: ", m.as_str()),
            OperationalError::Conflict(f) => cat2("stale_operational_base: ", f),
            OperationalError::Serialization(m) => cat2("operational_serialization_failed: ", m.as_str()),
        }
    }
}

/// How a list of safe names is printed for debugging: quoted, comma-separated, in brackets.
pub open spec fn names_debug(names: Seq<String>) -> Seq<char>
    decreases names.len(),
{
    if names.len() == 0 {
        "[]"@
    } else {
        names_debug_items(names.drop_last(), names.last()@)
    }
}

/// The bracketed list of `names` followed by `last`.
pub open spec fn names_debug_items(names: Seq<String>, last: Seq<char>) -> Seq<char>
    decreases names.len(),
{
    "["@ + names_body(names) + "\""@ + last + "\"]"@
}

/// Each name quoted and followed by a comma and a space.
pub open spec fn names_body(names: Seq<String>) -> Seq<char>
    decreases names.len(),
{
    if names.len() == 0 {
        Seq::empty()
    } else {
        names_body(names.drop_last()) + "\""@ + names.last()@ + "\", "@
    }
}

fn names_text(names: &Vec<String>) -> (m: String)
    ensures
        m@ == names_debug(names@),
{
    let n = names.len();
    if n == 0 {
        return String::from_str("[]");
    }
    let mut body = String::new();
    let mut k: usize = 0;
    while k < n - 1
        invariant
            n == names@.len(),
            n > 0,
            k <= n - 1,
            body@ == names_body(names@.subrange(0, k as int)),
        decreases n - 1 - k,
    {
        body.append("\"");
        body.append(names[k].as_str());
        body.append("\", ");
        assert(names@.subrange(0, k + 1).drop_last() =~= names@.subrange(0, k as int));
        k = k + 1;
    }
    assert(names@.drop_last() =~= names@.subrange(0, n - 1));
    let mut m = String::from_str("[");
    m.append(body.as_str());
    m.append("\"");
    m.append(names[n - 1].as_str());
    m.append("\"]");
    m
}

/// Every name of the list is a safe identifier, so printing it needs no escape.
pub open spec fn all_safe(names: Seq<String>) -> bool {
    forall|k: int| 0 <= k < names.len() ==> #[trigger] is_safe_id(names[k]@)
}

/// Text of an alias failure; the list of aliases is exact when every alias
/// is a safe identifier, as the catalog guarantees of its own aliases.
pub open spec fn alias_message(e: AliasError) -> Seq<char> {
    match e {
        AliasError::InvalidAlias { alias } => "invalid route alias '"@ + alias@ + "'"@,
        AliasError::Unknown { value, aliases } => "unknown route or alias '"@ + value@ + "'; aliases: "@ + names_debug(
            aliases@,
        ),
    }
}

impl AliasError {
    /// The failure as people read it.
    pub fn message(&self) -> (m: String)
        ensures
            (self matches AliasError::Unknown { aliases, .. } ==> all_safe(aliases@)) ==> m@ == alias_message(*self),
    {
        match self {
            AliasError::InvalidAlias { alias } => cat3("invalid route alias '", alias.as_str(), "'"),
            AliasError::Unknown { value, aliases } => cat4(
                "unknown route or alias '",
                value.as_str(),
                "'; aliases: ",
                names_text(aliases).as_str(),
            ),
        }
    }
}

/// Text of a policy failure.
pub open spec fn policy_message(e: PolicyError) -> Seq<char> {
    match e {
        PolicyError::Parse(m) => "invalid routing policy TOML: "@ + m@,
        PolicyError::MissingSchemaVersion => "routing policy is missing schema_version"@,
        PolicyError::MigrationRequired => "routing policy v1 requires explicit migrate_v1 settings"@,
        PolicyError::SchemaVersion { received } => "unsupported routing policy schema_version "@ + signed_decimal(
            received as int,
        ) + "; supported: 2"@,
        PolicyError::InvalidSetting { field, value } => "invalid routing policy setting "@ + field@ + "="@ + value@,
        PolicyError::Alias(a) => alias_message(a),
    }
}

impl PolicyError {
    /// The failure as people read it.
    pub fn message(&self) -> (m: String)
        ensures
            (self matches PolicyError::Alias(AliasError::Unknown { aliases, .. }) ==> all_safe(aliases@)) ==> m@
                == policy_message(*self),
    {
        match self {
            PolicyError::Parse(m) => cat2("invalid routing policy TOML: ", m.as_str()),
            PolicyError::MissingSchemaVersion => String::from_str("routing policy is missing schema_version"),
            PolicyError::MigrationRequired => String::from_str("routing policy v1 requires explicit migrate_v1 settings"),
            PolicyError::SchemaVersion { received } => cat3(
                "unsupported routing policy schema_version ",
                signed_string(*received).as_str(),
                "; supported: 2",
            ),
            PolicyError::InvalidSetting { field, value } => cat4(
                "invalid routing policy setting ",
                field,
                "=",
                value.as_str(),
            ),
            PolicyError::Alias(a) => a.message(),
        }
    }
}

impl SelectError {
    /// The failure as people read it: its code, then its explanation.
    pub fn message(&self) -> (m: String)
        ensures
            m@ == self.code@ + ": "@ + self.message@,
    {
        cat3(self.code.as_str(), ": ", self.message.as_str())
    }
}

impl AssemblyError {
    /// The failure as people read it.
    pub fn message(&self) -> (m: String)
        ensures
            self matches AssemblyError::Invalid(t) && m@ == t@,
    {
        match self {
            AssemblyError::Invalid(t) => t.clone(),
        }
    }
}

} // verus!
