//! Locations of the durable stores and the checks their documents must pass
//! before an operation may publish them.

use vstd::prelude::*;
use vstd::string::*;

use crate::grant::GrantError;
use crate::receipt::RunReceiptError;
use crate::route::RouteRef;
use crate::order::{lemma_bytes_lt_irreflexive, lemma_bytes_lt_transitive, sort, sorted_by, stable_sorted, text_less, text_lt, Ordered};
use crate::util::{first_problem, lemma_first_problem_at};
use crate::text::{invalid_hash, invalid_hash_message, invalid_identifier, invalid_identifier_message, is_content_hash, is_content_hash_exec, is_safe_id, is_safe_identifier, join, join_path};

verus! {

/// File name of a document stored under its id.
pub open spec fn json_name(id: Seq<char>) -> Seq<char> {
    id + ".json"@
}

fn json_file(id: &str) -> (s: String)
    ensures
        s@ == json_name(id@),
{
    proof {
        reveal_strlit(".json");
    }
    let mut s = String::from_str(id);
    s.append(".json");
    s
}

/// Summary of the active catalog and its staged proposals.
#[derive(Debug, Clone, PartialEq, Eq)]
pub struct CatalogStatus {
    /// Hash of the active catalog.
    pub active_hash: String,
    /// Number of active routes.
    pub active_routes: usize,
    /// Available proposals, ordered.
    pub staged: Vec<String>,
}

/// The proposal a file of the proposals directory holds: a name with the
/// extension `json` and a non-empty stem.
pub open spec fn staged_id(name: Seq<char>) -> Option<Seq<char>> {
    if name.len() > 5 && name.subrange(name.len() - 5, name.len() as int) == ".json"@ {
        Some(name.subrange(0, name.len() - 5))
    } else {
        None
    }
}

/// The proposals among the first `k` file names, in directory order.
pub open spec fn staged_upto(names: Seq<String>, k: int) -> Seq<Seq<char>>
    decreases k,
{
    if k <= 0 {
        Seq::empty()
    } else {
        match staged_id(names[k - 1]@) {
            Some(id) => staged_upto(names, k - 1).push(id),
            None => staged_upto(names, k - 1),
        }
    }
}

/// The stem of a file name with the `json` extension, if it has one.
fn proposal_stem(name: &str) -> (r: Option<String>)
    ensures
        match (r, staged_id(name@)) {
            (Some(a), Some(b)) => a@ == b,
            (None, None) => true,
            _ => false,
        },
{
    proof {
        reveal_strlit(".json");
    }
    let n = name.unicode_len();
    if n <= 5 {
        return None;
    }
    let tail = name.substring_char(n - 5, n);
    if !same_text(tail, ".json") {
        return None;
    }
    Some(String::from_str(name.substring_char(0, n - 5)))
}

/// Summarises the catalog: its hash, its number of routes and the proposals
/// among the file names of the proposals directory, ordered.
pub fn catalog_status(active_hash: String, active_routes: usize, names: &Vec<String>) -> (s: CatalogStatus)
    ensures
        s.active_hash == active_hash,
        s.active_routes == active_routes,
        crate::order::sorted_by(s.staged@),
        s.staged@.map_values(|x: String| x@).to_multiset() == staged_upto(names@, names@.len() as int).to_multiset(),
{
    let mut staged: Vec<String> = Vec::new();
    let mut k: usize = 0;
    while k < names.len()
        invariant
            k <= names@.len(),
            staged@.map_values(|x: String| x@) == staged_upto(names@, k as int),
        decreases names@.len() - k,
    {
        match proposal_stem(names[k].as_str()) {
            Some(id) => {
                let ghost before = staged@;
                staged.push(id);
                assert(staged@.map_values(|x: String| x@) =~= before.map_values(|x: String| x@).push(staged@.last()@));
            },
            None => {},
        }
        k = k + 1;
    }
    let ghost unsorted = staged@;
    let sorted = crate::order::sort(staged);
    proof {
        crate::catalog::lemma_map_multiset(sorted@, unsorted, |x: String| x@);
    }
    CatalogStatus { active_hash, active_routes, staged: sorted }
}

/// Stable failure of catalog staging or activation.
#[derive(Debug, Clone, PartialEq, Eq)]
pub enum CatalogStoreError {
    /// Unsafe identifier.
    InvalidId(String),
    /// The proposal already exists.
    AlreadyExists(String),
    /// `--confirm` is missing.
    NotConfirmed,
    /// The contents do not match their seal.
    ProposalHashMismatch,
    /// The active catalog changed since the proposal was created.
    BaseConflict,
}

/// Stable code of each catalog store failure.
pub open spec fn catalog_code(e: CatalogStoreError) -> Seq<char> {
    match e {
        CatalogStoreError::InvalidId(_) => "invalid_proposal_id"@,
        CatalogStoreError::AlreadyExists(_) => "proposal_already_exists"@,
        CatalogStoreError::NotConfirmed => "proposal_not_confirmed"@,
        CatalogStoreError::ProposalHashMismatch => "proposal_hash_mismatch"@,
        CatalogStoreError::BaseConflict => "catalog_base_conflict"@,
    }
}

impl CatalogStoreError {
    /// Stable code shared by the command line and the terminal interface.
    pub fn code(&self) -> (c: &'static str)
        ensures
            c@ == catalog_code(*self),
    {
        match self {
            CatalogStoreError::InvalidId(_) => "invalid_proposal_id",
            CatalogStoreError::AlreadyExists(_) => "proposal_already_exists",
            CatalogStoreError::NotConfirmed => "proposal_not_confirmed",
            CatalogStoreError::ProposalHashMismatch => "proposal_hash_mismatch",
            CatalogStoreError::BaseConflict => "catalog_base_conflict",
        }
    }
}

/// Local repository of the active catalog and its proposals.
#[derive(Debug, Clone)]
pub struct CatalogStore {
    root: String,
}

impl CatalogStore {
    /// Opens a root without changing it.
    pub fn open(root: String) -> (s: CatalogStore)
        ensures
            s.root() == root@,
    {
        CatalogStore { root }
    }

    /// The root directory.
    pub closed spec fn root(&self) -> Seq<char> {
        self.root@
    }

    /// Path of the active catalog.
    pub fn active_path(&self) -> (p: String)
        ensures
            p@ == join_path(self.root(), "active.json"@),
    {
        proof {
            reveal_strlit("active.json");
        }
        join(self.root.as_str(), "active.json")
    }

    /// Directory of the proposals.
    pub fn proposals(&self) -> (p: String)
        ensures
            p@ == join_path(self.root(), "proposals"@),
    {
        proof {
            reveal_strlit("proposals");
        }
        join(self.root.as_str(), "proposals")
    }

    /// Path of a proposal, once its id is known to be safe.
    pub fn proposal_path(&self, id: &str) -> (r: Result<String, CatalogStoreError>)
        ensures
            r is Ok <==> is_safe_id(id@),
            r matches Ok(p) ==> p@ == join_path(join_path(self.root(), "proposals"@), json_name(id@)),
            r matches Err(e) ==> (e matches CatalogStoreError::InvalidId(s) && s@ == id@),
    {
        if !is_safe_identifier(id) {
            return Err(CatalogStoreError::InvalidId(String::from_str(id)));
        }
        let dir = self.proposals();
        let name = json_file(id);
        Ok(join(dir.as_str(), name.as_str()))
    }
}

/// Checks an activation request before any document is read: explicit
/// confirmation first, then a safe id.
pub fn check_apply_request(id: &str, confirmed: bool) -> (r: Result<(), CatalogStoreError>)
    ensures
        !confirmed ==> r == Err::<(), CatalogStoreError>(CatalogStoreError::NotConfirmed),
        confirmed ==> (r is Ok <==> is_safe_id(id@)),
        confirmed && !is_safe_id(id@) ==> (r matches Err(e) && e matches CatalogStoreError::InvalidId(s) && s@ == id@),
{
    if !confirmed {
        return Err(CatalogStoreError::NotConfirmed);
    }
    if !is_safe_identifier(id) {
        return Err(CatalogStoreError::InvalidId(String::from_str(id)));
    }
    Ok(())
}

/// What activating a stored proposal requires once it is read: version 2 and
/// the requested id, seals that match its contents, and an active catalog
/// that is still the base it was made from.
pub open spec fn proposal_check(
    id: Seq<char>,
    schema_version: u16,
    proposal_id: Seq<char>,
    recomputed_proposal_hash: Seq<char>,
    proposal_hash: Seq<char>,
    recomputed_catalog_hash: Seq<char>,
    proposed_catalog_hash: Seq<char>,
    active_hash: Seq<char>,
    expected_active_hash: Seq<char>,
) -> Result<(), CatalogStoreError> {
    if schema_version != 2 || proposal_id != id {
        Err(CatalogStoreError::ProposalHashMismatch)
    } else if recomputed_proposal_hash != proposal_hash || recomputed_catalog_hash != proposed_catalog_hash {
        Err(CatalogStoreError::ProposalHashMismatch)
    } else if active_hash != expected_active_hash {
        Err(CatalogStoreError::BaseConflict)
    } else {
        Ok(())
    }
}

/// Decides whether a stored proposal can become the active catalog.
pub fn check_proposal(
    id: &str,
    schema_version: u16,
    proposal_id: &str,
    recomputed_proposal_hash: &str,
    proposal_hash: &str,
    recomputed_catalog_hash: &str,
    proposed_catalog_hash: &str,
    active_hash: &str,
    expected_active_hash: &str,
) -> (r: Result<(), CatalogStoreError>)
    ensures
        r == proposal_check(id@, schema_version, proposal_id@, recomputed_proposal_hash@, proposal_hash@,
            recomputed_catalog_hash@, proposed_catalog_hash@, active_hash@, expected_active_hash@),
{
    if schema_version != 2 || !same_text(proposal_id, id) {
        return Err(CatalogStoreError::ProposalHashMismatch);
    }
    if !same_text(recomputed_proposal_hash, proposal_hash) || !same_text(recomputed_catalog_hash, proposed_catalog_hash) {
        return Err(CatalogStoreError::ProposalHashMismatch);
    }
    if !same_text(active_hash, expected_active_hash) {
        return Err(CatalogStoreError::BaseConflict);
    }
    Ok(())
}

/// Whether two texts are equal.
pub fn same_text(a: &str, b: &str) -> (r: bool)
    ensures
        r == (a@ == b@),
{
    let x = String::from_str(a);
    let y = String::from_str(b);
    x == y
}

/// Base named when no execution profile is active yet.
pub const EMPTY_EXECUTION_PROFILE_HASH: &'static str = "sha256:0000000000000000000000000000000000000000000000000000000000000000";

/// Failure of the execution profile store.
#[derive(Debug, Clone, PartialEq, Eq)]
pub enum ExecutionProfileStoreError {
    /// Invalid document or identity.
    Invalid(String),
    /// Altered seal.
    HashMismatch,
    /// Apply without `--confirm`.
    ConfirmationRequired,
    /// The active base changed.
    Conflict {
        /// Base expected.
        expected: String,
        /// Base observed.
        actual: String,
    },
    /// Durable exclusion.
    Lease(String),
}

/// Transactional store of the operating profile.
#[derive(Debug, Clone)]
pub struct ExecutionProfileStore {
    root: String,
    leases: String,
}

impl ExecutionProfileStore {
    /// Opens the locations without creating documents.
    pub fn open(root: String, leases: String) -> (s: ExecutionProfileStore)
        ensures
            s.root() == root@,
            s.leases() == leases@,
    {
        ExecutionProfileStore { root, leases }
    }

    /// The root directory.
    pub closed spec fn root(&self) -> Seq<char> {
        self.root@
    }

    /// The lease directory.
    pub closed spec fn leases(&self) -> Seq<char> {
        self.leases@
    }

    /// Path of the active profile.
    pub fn active_path(&self) -> (p: String)
        ensures
            p@ == join_path(self.root(), "active.json"@),
    {
        proof {
            reveal_strlit("active.json");
        }
        join(self.root.as_str(), "active.json")
    }

    /// Directory of the staged proposals.
    pub fn staging(&self) -> (p: String)
        ensures
            p@ == join_path(self.root(), "staging"@),
    {
        proof {
            reveal_strlit("staging");
        }
        join(self.root.as_str(), "staging")
    }

    /// Path of a staged proposal.
    pub fn staged_path(&self, id: &str) -> (p: String)
        ensures
            p@ == join_path(join_path(self.root(), "staging"@), json_name(id@)),
    {
        let dir = self.staging();
        let name = json_file(id);
        join(dir.as_str(), name.as_str())
    }
}

fn profile_invalid(message: &str) -> (e: ExecutionProfileStoreError)
    ensures
        e matches ExecutionProfileStoreError::Invalid(m) && m@ == message@,
{
    ExecutionProfileStoreError::Invalid(String::from_str(message))
}

/// Checks the identifier of a profile proposal.
pub fn validate_profile_id(id: &str) -> (r: Result<(), ExecutionProfileStoreError>)
    ensures
        r is Ok <==> is_safe_id(id@),
        r matches Err(e) ==> e matches ExecutionProfileStoreError::Invalid(m) && m@ == invalid_identifier_message(id@),
{
    if !is_safe_identifier(id) {
        return Err(ExecutionProfileStoreError::Invalid(invalid_identifier(id)));
    }
    Ok(())
}

/// Checks a lowercase content hash.
pub fn validate_profile_hash(hash: &str) -> (r: Result<(), ExecutionProfileStoreError>)
    ensures
        r is Ok <==> is_content_hash(hash@),
        r matches Err(e) ==> e matches ExecutionProfileStoreError::Invalid(m) && m@ == invalid_hash_message(hash@),
{
    if !is_content_hash_exec(hash) {
        return Err(ExecutionProfileStoreError::Invalid(invalid_hash(hash)));
    }
    Ok(())
}

/// A staged profile proposal is intact: version 1, safe id, well-formed
/// hashes, a valid profile whose hash is the one recorded, and a seal that
/// matches the body.
pub open spec fn profile_proposal_ok(
    schema_version: u16,
    id: Seq<char>,
    expected_active_hash: Seq<char>,
    proposed_profile_hash: Seq<char>,
    profile_valid: bool,
    recomputed_profile_hash: Seq<char>,
    recomputed_proposal_hash: Seq<char>,
    proposal_hash: Seq<char>,
) -> bool {
    &&& schema_version == 1
    &&& is_safe_id(id)
    &&& is_content_hash(expected_active_hash)
    &&& is_content_hash(proposed_profile_hash)
    &&& profile_valid
    &&& recomputed_profile_hash == proposed_profile_hash
    &&& recomputed_proposal_hash == proposal_hash
}

/// The structural rule a staged profile proposal breaks, as its message.
pub open spec fn profile_proposal_problem(
    schema_version: u16,
    id: Seq<char>,
    expected_active_hash: Seq<char>,
    proposed_profile_hash: Seq<char>,
    profile_valid: bool,
) -> Option<Seq<char>> {
    if schema_version != 1 {
        Some("execution profile proposal schema_version must be 1"@)
    } else if !is_safe_id(id) {
        Some(invalid_identifier_message(id))
    } else if !is_content_hash(expected_active_hash) {
        Some(invalid_hash_message(expected_active_hash))
    } else if !is_content_hash(proposed_profile_hash) {
        Some(invalid_hash_message(proposed_profile_hash))
    } else if !profile_valid {
        Some("invalid execution profile"@)
    } else {
        None
    }
}

/// Revalidates a staged profile proposal.
pub fn validate_profile_proposal(
    schema_version: u16,
    id: &str,
    expected_active_hash: &str,
    proposed_profile_hash: &str,
    profile_valid: bool,
    recomputed_profile_hash: &str,
    recomputed_proposal_hash: &str,
    proposal_hash: &str,
) -> (r: Result<(), ExecutionProfileStoreError>)
    ensures
        r is Ok <==> profile_proposal_ok(schema_version, id@, expected_active_hash@, proposed_profile_hash@,
            profile_valid, recomputed_profile_hash@, recomputed_proposal_hash@, proposal_hash@),
        r matches Err(e) ==> match profile_proposal_problem(schema_version, id@, expected_active_hash@, proposed_profile_hash@, profile_valid) {
            Some(p) => e matches ExecutionProfileStoreError::Invalid(m) && m@ == p,
            None => e is HashMismatch,
        },
{
    proof {
        reveal_strlit("execution profile proposal schema_version must be 1");
        reveal_strlit("invalid execution profile");
    }
    if schema_version != 1 {
        return Err(profile_invalid("execution profile proposal schema_version must be 1"));
    }
    validate_profile_id(id)?;
    validate_profile_hash(expected_active_hash)?;
    validate_profile_hash(proposed_profile_hash)?;
    if !profile_valid {
        return Err(profile_invalid("invalid execution profile"));
    }
    if !same_text(recomputed_profile_hash, proposed_profile_hash) || !same_text(recomputed_proposal_hash, proposal_hash) {
        return Err(ExecutionProfileStoreError::HashMismatch);
    }
    Ok(())
}

/// What the status reads of one staged profile proposal.
#[derive(Debug, Clone, PartialEq, Eq)]
pub struct ProfileProposalFacts {
    /// Version of the proposal.
    pub schema_version: u16,
    /// Proposal id.
    pub id: String,
    /// Base the proposal was made for.
    pub expected_active_hash: String,
    /// Recorded hash of the proposed profile.
    pub proposed_profile_hash: String,
    /// The proposed profile passes its own validation.
    pub profile_valid: bool,
    /// Hash of the proposed profile, recomputed.
    pub recomputed_profile_hash: String,
    /// Seal of the proposal, recomputed.
    pub recomputed_proposal_hash: String,
    /// Recorded seal of the proposal.
    pub proposal_hash: String,
}

impl Ordered for ProfileProposalFacts {
    open spec fn precedes(&self, other: &Self) -> bool {
        text_lt(self.id@, other.id@)
    }

    proof fn precedes_irreflexive(a: &Self) {
        lemma_bytes_lt_irreflexive(vstd::utf8::encode_utf8(a.id@));
    }

    proof fn precedes_transitive(a: &Self, b: &Self, c: &Self) {
        lemma_bytes_lt_transitive(
            vstd::utf8::encode_utf8(a.id@),
            vstd::utf8::encode_utf8(b.id@),
            vstd::utf8::encode_utf8(c.id@),
        );
    }

    fn less(&self, other: &Self) -> (r: bool) {
        text_less(self.id.as_str(), other.id.as_str())
    }
}

/// A staged proposal is intact.
pub open spec fn proposal_facts_ok(p: ProfileProposalFacts) -> bool {
    profile_proposal_ok(p.schema_version, p.id@, p.expected_active_hash@, p.proposed_profile_hash@, p.profile_valid,
        p.recomputed_profile_hash@, p.recomputed_proposal_hash@, p.proposal_hash@)
}

/// What is wrong with the staged proposal at a position: `Some(m)` for an
/// invalid one with message `m`, `None` for an altered seal.
pub open spec fn staged_check(ps: Seq<ProfileProposalFacts>) -> spec_fn(int) -> Option<Option<Seq<char>>> {
    |i: int| if proposal_facts_ok(ps[i]) {
        None
    } else {
        Some(profile_proposal_problem(ps[i].schema_version, ps[i].id@, ps[i].expected_active_hash@,
            ps[i].proposed_profile_hash@, ps[i].profile_valid))
    }
}

/// Status of the execution profile store.
#[derive(Debug, Clone, PartialEq, Eq)]
pub struct ProfileStatusPlan {
    /// Hash of the active profile, or the empty base.
    pub active_hash: String,
    /// Staged proposals, ordered by id.
    pub proposals: Vec<ProfileProposalFacts>,
}

/// Summarises the profile store: the active hash (the empty base when no
/// profile is active) and every staged proposal ordered by id; one invalid
/// proposal, the first read, makes the whole status fail.
pub fn profile_status(active_hash: Option<String>, staged: Vec<ProfileProposalFacts>) -> (r: Result<ProfileStatusPlan, ExecutionProfileStoreError>)
    ensures
        r is Ok <==> forall|i: int| 0 <= i < staged@.len() ==> proposal_facts_ok(#[trigger] staged@[i]),
        r matches Err(e) ==> match first_problem(staged_check(staged@), staged@.len() as int) {
            Some(Some(m)) => e matches ExecutionProfileStoreError::Invalid(x) && x@ == m,
            Some(None) => e is HashMismatch,
            None => false,
        },
        r matches Ok(plan) ==> plan.active_hash@ == match active_hash {
            Some(h) => h@,
            None => EMPTY_EXECUTION_PROFILE_HASH@,
        },
        r matches Ok(plan) ==> sorted_by(plan.proposals@) && plan.proposals@.to_multiset() == staged@.to_multiset()
            && plan.proposals@ == stable_sorted(staged@),
{
    let ghost f = staged_check(staged@);
    let mut i: usize = 0;
    while i < staged.len()
        invariant
            i <= staged@.len(),
            f == staged_check(staged@),
            first_problem(f, i as int) is None,
            forall|j: int| 0 <= j < i ==> proposal_facts_ok(#[trigger] staged@[j]),
        decreases staged@.len() - i,
    {
        let p = &staged[i];
        match validate_profile_proposal(
            p.schema_version,
            p.id.as_str(),
            p.expected_active_hash.as_str(),
            p.proposed_profile_hash.as_str(),
            p.profile_valid,
            p.recomputed_profile_hash.as_str(),
            p.recomputed_proposal_hash.as_str(),
            p.proposal_hash.as_str(),
        ) {
            Err(e) => {
                proof { lemma_first_problem_at(f, i as int, staged@.len() as int); }
                return Err(e);
            },
            Ok(()) => {},
        }
        assert(first_problem(f, i + 1) is None);
        i = i + 1;
    }
    let hash = match active_hash {
        Some(h) => h,
        None => String::from_str(EMPTY_EXECUTION_PROFILE_HASH),
    };
    Ok(ProfileStatusPlan { active_hash: hash, proposals: sort(staged) })
}

/// Checks a publish request before the lease is taken: safe id, well-formed
/// expected base, explicit confirmation.
pub fn check_profile_apply_request(id: &str, expected_hash: &str, confirmed: bool) -> (r: Result<(), ExecutionProfileStoreError>)
    ensures
        r is Ok <==> is_safe_id(id@) && is_content_hash(expected_hash@) && confirmed,
        r matches Err(e) ==> (if !is_safe_id(id@) {
            e matches ExecutionProfileStoreError::Invalid(m) && m@ == invalid_identifier_message(id@)
        } else if !is_content_hash(expected_hash@) {
            e matches ExecutionProfileStoreError::Invalid(m) && m@ == invalid_hash_message(expected_hash@)
        } else {
            e is ConfirmationRequired
        }),
{
    validate_profile_id(id)?;
    validate_profile_hash(expected_hash)?;
    if !confirmed {
        return Err(ExecutionProfileStoreError::ConfirmationRequired);
    }
    Ok(())
}

/// Checks that the proposal was made for the base named by the operator and
/// that this base is still the active one.
pub fn check_profile_base(id: &str, proposal_id: &str, proposal_base: &str, expected_hash: &str, active_hash: &str) -> (r: Result<(), ExecutionProfileStoreError>)
    ensures
        r is Ok <==> proposal_id@ == id@ && proposal_base@ == expected_hash@ && active_hash@ == expected_hash@,
        (proposal_id@ != id@ || proposal_base@ != expected_hash@) ==> (r matches Err(ExecutionProfileStoreError::Conflict { expected, actual })
            && expected@ == proposal_base@ && actual@ == expected_hash@),
        (proposal_id@ == id@ && proposal_base@ == expected_hash@ && active_hash@ != expected_hash@) ==> (
            r matches Err(ExecutionProfileStoreError::Conflict { expected, actual }) && expected@ == expected_hash@ && actual@ == active_hash@),
{
    if !same_text(proposal_id, id) || !same_text(proposal_base, expected_hash) {
        return Err(ExecutionProfileStoreError::Conflict { expected: String::from_str(proposal_base), actual: String::from_str(expected_hash) });
    }
    if !same_text(active_hash, expected_hash) {
        return Err(ExecutionProfileStoreError::Conflict { expected: String::from_str(expected_hash), actual: String::from_str(active_hash) });
    }
    Ok(())
}

/// Durable store of grants and revocations.
#[derive(Debug, Clone)]
pub struct GrantStore {
    root: String,
}

impl GrantStore {
    /// Opens the directory without creating it.
    pub fn open(root: String) -> (s: GrantStore)
        ensures
            s.root() == root@,
    {
        GrantStore { root }
    }

    /// The root directory.
    pub closed spec fn root(&self) -> Seq<char> {
        self.root@
    }

    /// Directory of the immutable grant documents.
    pub fn objects(&self) -> (p: String)
        ensures
            p@ == join_path(self.root(), "objects"@),
    {
        proof {
            reveal_strlit("objects");
        }
        join(self.root.as_str(), "objects")
    }

    /// Path of a grant document, once its id is known to be safe.
    pub fn grant_path(&self, id: &str) -> (r: Result<String, GrantError>)
        ensures
            r is Ok <==> is_safe_id(id@),
            r matches Ok(p) ==> p@ == join_path(join_path(self.root(), "objects"@), json_name(id@)),
            r matches Err(e) ==> e matches GrantError::Invalid(m) && m@ == invalid_identifier_message(id@),
    {
        if !is_safe_identifier(id) {
            return Err(GrantError::Invalid(invalid_identifier(id)));
        }
        let dir = self.objects();
        let name = json_file(id);
        Ok(join(dir.as_str(), name.as_str()))
    }

    /// Path of the append-only revocation log.
    pub fn revocations_path(&self) -> (p: String)
        ensures
            p@ == join_path(self.root(), "revocations.jsonl"@),
    {
        proof {
            reveal_strlit("revocations.jsonl");
        }
        join(self.root.as_str(), "revocations.jsonl")
    }
}

/// Durable file of health by route, written atomically.
#[derive(Debug, Clone, PartialEq, Eq)]
pub struct HealthStore {
    path: String,
}

impl HealthStore {
    /// Opens a file; it is not created until the first update.
    pub fn open(path: String) -> (s: HealthStore)
        ensures
            s.path() == path@,
    {
        HealthStore { path }
    }

    /// The file.
    pub closed spec fn path(&self) -> Seq<char> {
        self.path@
    }
}

/// Failure to read or keep durable health.
#[derive(Debug, Clone, PartialEq, Eq)]
pub enum HealthStoreError {
    /// File system failure.
    Io(String),
    /// Invalid JSON.
    Json(String),
    /// Unknown version.
    SchemaVersion {
        /// Version received.
        received: u16,
    },
    /// Invalid success rate for a route.
    InvalidHealth {
        /// Route concerned.
        route: RouteRef,
    },
}

/// Checks a loaded health document: version 1, and for each route in order
/// whether its success rate is finite within `0..=1`. The error names the
/// first route whose rate is not.
pub fn check_health_document(schema_version: u16, rates: &Vec<(RouteRef, bool)>) -> (r: Result<(), HealthStoreError>)
    ensures
        r is Ok <==> schema_version == 1 && forall|k: int| 0 <= k < rates@.len() ==> (#[trigger] rates@[k]).1,
        schema_version != 1 ==> r == Err::<(), HealthStoreError>(HealthStoreError::SchemaVersion { received: schema_version }),
        r matches Err(HealthStoreError::InvalidHealth { route }) ==> schema_version == 1 && exists|k: int| 0 <= k < rates@.len()
            && !(#[trigger] rates@[k]).1 && rates@[k].0 == route && forall|j: int| 0 <= j < k ==> (#[trigger] rates@[j]).1,
{
    if schema_version != 1 {
        return Err(HealthStoreError::SchemaVersion { received: schema_version });
    }
    let mut k: usize = 0;
    while k < rates.len()
        invariant
            k <= rates@.len(),
            schema_version == 1,
            forall|j: int| 0 <= j < k ==> (#[trigger] rates@[j]).1,
        decreases rates@.len() - k,
    {
        if !rates[k].1 {
            return Err(HealthStoreError::InvalidHealth { route: rates[k].0.duplicate() });
        }
        k = k + 1;
    }
    Ok(())
}

/// Read-modify-write store of grant ledgers, serialised by an inter-process lease.
#[derive(Debug, Clone)]
pub struct LedgerStore {
    root: String,
    leases: String,
}

impl LedgerStore {
    /// Opens the locations without creating documents.
    pub fn open(root: String, leases: String) -> (s: LedgerStore)
        ensures
            s.root() == root@,
            s.leases() == leases@,
    {
        LedgerStore { root, leases }
    }

    /// The root directory.
    pub closed spec fn root(&self) -> Seq<char> {
        self.root@
    }

    /// The lease directory.
    pub closed spec fn leases(&self) -> Seq<char> {
        self.leases@
    }

    /// Path of the ledger of a grant.
    pub fn path(&self, grant_id: &str) -> (p: String)
        ensures
            p@ == join_path(self.root(), json_name(grant_id@)),
    {
        let name = json_file(grant_id);
        join(self.root.as_str(), name.as_str())
    }
}

/// Append-only directory of routing receipts.
#[derive(Debug, Clone)]
pub struct RoutingReceiptStore {
    root: String,
}

impl RoutingReceiptStore {
    /// Opens the directory without creating it yet.
    pub fn open(root: String) -> (s: RoutingReceiptStore)
        ensures
            s.root() == root@,
    {
        RoutingReceiptStore { root }
    }

    /// The root directory.
    pub closed spec fn root(&self) -> Seq<char> {
        self.root@
    }

    /// Path of a receipt.
    pub fn receipt_path(&self, id: &str) -> (p: String)
        ensures
            p@ == join_path(self.root(), json_name(id@)),
    {
        let name = json_file(id);
        join(self.root.as_str(), name.as_str())
    }
}

/// Append-only store of final run receipts.
#[derive(Debug, Clone)]
pub struct RunReceiptStoreV2 {
    root: String,
}

impl RunReceiptStoreV2 {
    /// Opens a directory fixed by the layout.
    pub fn open(root: String) -> (s: RunReceiptStoreV2)
        ensures
            s.root() == root@,
    {
        RunReceiptStoreV2 { root }
    }

    /// The root directory.
    pub closed spec fn root(&self) -> Seq<char> {
        self.root@
    }

    /// Path of the receipt of a run, once its id is known to be safe.
    pub fn path_for(&self, id: &str) -> (r: Result<String, RunReceiptError>)
        ensures
            r is Ok <==> is_safe_id(id@),
            r matches Ok(p) ==> p@ == join_path(self.root(), json_name(id@)),
            r matches Err(e) ==> e matches RunReceiptError::Invalid(m) && m@ == "identifier contains unsupported characters"@,
    {
        if !is_safe_identifier(id) {
            return Err(RunReceiptError::Invalid(String::from_str("identifier contains unsupported characters")));
        }
        let name = json_file(id);
        Ok(join(self.root.as_str(), name.as_str()))
    }
}

/// Failure of durable run recovery.
#[derive(Debug, Clone, PartialEq, Eq)]
pub enum RunStoreError {
    /// Unsafe identifier.
    InvalidId(String),
    /// The document belongs to another run or version.
    IdentityMismatch,
}

/// Store of one durable run.
#[derive(Debug, Clone)]
pub struct RunStateStore {
    path: String,
}

impl RunStateStore {
    /// Opens the file without changing it.
    pub fn open(path: String) -> (s: RunStateStore)
        ensures
            s.path() == path@,
    {
        RunStateStore { path }
    }

    /// The file.
    pub closed spec fn path(&self) -> Seq<char> {
        self.path@
    }
}

/// Checks a run id before its state is saved or loaded.
pub fn validate_run_id(id: &str) -> (r: Result<(), RunStoreError>)
    ensures
        r is Ok <==> is_safe_id(id@),
        r matches Err(e) ==> (e matches RunStoreError::InvalidId(s) && s@ == id@),
{
    if !is_safe_identifier(id) {
        return Err(RunStoreError::InvalidId(String::from_str(id)));
    }
    Ok(())
}

/// Checks that a loaded run document is version 2 and belongs to the run asked for.
pub fn check_run_document(schema_version: u16, document_id: &str, id: &str) -> (r: Result<(), RunStoreError>)
    ensures
        r is Ok <==> schema_version == 2 && document_id@ == id@,
        r matches Err(e) ==> e is IdentityMismatch,
{
    if schema_version != 2 || !same_text(document_id, id) {
        return Err(RunStoreError::IdentityMismatch);
    }
    Ok(())
}

/// Store of the single active routing snapshot.
#[derive(Debug, Clone)]
pub struct RoutingSnapshotStore {
    path: String,
}

impl RoutingSnapshotStore {
    /// Opens the file without creating anything yet.
    pub fn open(path: String) -> (s: RoutingSnapshotStore)
        ensures
            s.path() == path@,
    {
        RoutingSnapshotStore { path }
    }

    /// The file.
    pub closed spec fn path(&self) -> Seq<char> {
        self.path@
    }
}

} // verus!
