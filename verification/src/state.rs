//! Content-addressed state objects under one active manifest.

use vstd::prelude::*;
use vstd::string::*;

use crate::util::{first_problem, lemma_first_problem_at};
use crate::json::{ascii_bytes, json_number, json_string, push_ascii, push_json_string, push_json_u64};
use crate::text::{content_address, content_hash, decimal, decimal_string, invalid_hash, invalid_hash_message, is_content_hash, is_content_hash_exec, join, join_path, lemma_content_hash_ascii};

verus! {

/// The only mutable pointer of the v2 state.
#[derive(Debug, Clone, PartialEq, Eq)]
pub struct StateManifestV2 {
    /// Closed document version, 2.
    pub schema_version: u16,
    /// Monotonic generation.
    pub generation: u64,
    /// Catalog object.
    pub catalog_hash: String,
    /// Policy object.
    pub policy_hash: String,
    /// Evidence object.
    pub evidence_hash: String,
    /// Health object.
    pub health_hash: String,
    /// Capabilities object.
    pub capabilities_hash: String,
}

/// Failure of the transactional state.
#[derive(Debug, Clone, PartialEq, Eq)]
pub enum StateStoreError {
    /// No active manifest exists yet.
    NotFound,
    /// Invariant or hash violated.
    Invalid(String),
    /// Another process holds the writer lease.
    Lease(String),
    /// The base manifest changed during the transaction.
    Conflict {
        /// Expected hash.
        expected: String,
        /// Observed hash.
        actual: String,
    },
}

/// UTF-8 bytes of a text.
pub open spec fn utf8(s: Seq<char>) -> Seq<u8> {
    vstd::utf8::encode_utf8(s)
}

/// The canonical bytes of a manifest: its fields, in declaration order, as compact JSON.
pub open spec fn manifest_bytes(m: StateManifestV2) -> Seq<u8> {
    ascii_bytes("{\"schema_version\":"@) + json_number(m.schema_version as nat)
        + ascii_bytes(",\"generation\":"@) + json_number(m.generation as nat)
        + ascii_bytes(",\"catalog_hash\":"@) + json_string(utf8(m.catalog_hash@))
        + ascii_bytes(",\"policy_hash\":"@) + json_string(utf8(m.policy_hash@))
        + ascii_bytes(",\"evidence_hash\":"@) + json_string(utf8(m.evidence_hash@))
        + ascii_bytes(",\"health_hash\":"@) + json_string(utf8(m.health_hash@))
        + ascii_bytes(",\"capabilities_hash\":"@) + json_string(utf8(m.capabilities_hash@))
        + ascii_bytes("}"@)
}

/// The five object hashes a manifest pins, in order.
pub open spec fn component_views(m: StateManifestV2) -> Seq<Seq<char>> {
    seq![m.catalog_hash@, m.policy_hash@, m.evidence_hash@, m.health_hash@, m.capabilities_hash@]
}


/// What is wrong with the pinned hash at a position, if anything.
pub open spec fn hash_check(hashes: Seq<Seq<char>>) -> spec_fn(int) -> Option<Seq<char>> {
    |i: int| if is_content_hash(hashes[i]) { None } else { Some(invalid_hash_message(hashes[i])) }
}

/// The first rule a manifest breaks, as its message.
pub open spec fn manifest_problem(m: StateManifestV2) -> Option<Seq<char>> {
    if m.schema_version != 2 {
        Some("state manifest schema_version "@ + decimal(m.schema_version as nat) + " is unsupported; supported: 2"@)
    } else if m.generation == 0 {
        Some("state manifest generation must be positive"@)
    } else {
        first_problem(hash_check(component_views(m)), 5)
    }
}

/// The rules of an active manifest.
pub open spec fn manifest_valid(m: StateManifestV2) -> bool {
    &&& m.schema_version == 2
    &&& m.generation > 0
    &&& forall|i: int| 0 <= i < 5 ==> #[trigger] is_content_hash(component_views(m)[i])
}

impl StateManifestV2 {
    /// Hashes of every object pinned by the generation.
    pub fn component_hashes(&self) -> (r: [&str; 5])
        ensures
            r[0]@ == self.catalog_hash@,
            r[1]@ == self.policy_hash@,
            r[2]@ == self.evidence_hash@,
            r[3]@ == self.health_hash@,
            r[4]@ == self.capabilities_hash@,
    {
        [
            self.catalog_hash.as_str(),
            self.policy_hash.as_str(),
            self.evidence_hash.as_str(),
            self.health_hash.as_str(),
            self.capabilities_hash.as_str(),
        ]
    }

    /// The canonical bytes of the manifest.
    pub fn canonical_bytes(&self) -> (out: Vec<u8>)
        ensures
            out@ == manifest_bytes(*self),
    {
        let mut out: Vec<u8> = Vec::new();
        proof {
            reveal_strlit("{\"schema_version\":");
            reveal_strlit(",\"generation\":");
            reveal_strlit(",\"catalog_hash\":");
            reveal_strlit(",\"policy_hash\":");
            reveal_strlit(",\"evidence_hash\":");
            reveal_strlit(",\"health_hash\":");
            reveal_strlit(",\"capabilities_hash\":");
            reveal_strlit("}");
        }
        push_ascii(&mut out, "{\"schema_version\":");
        push_json_u64(&mut out, self.schema_version as u64);
        push_ascii(&mut out, ",\"generation\":");
        push_json_u64(&mut out, self.generation);
        push_ascii(&mut out, ",\"catalog_hash\":");
        push_json_string(&mut out, self.catalog_hash.as_str());
        push_ascii(&mut out, ",\"policy_hash\":");
        push_json_string(&mut out, self.policy_hash.as_str());
        push_ascii(&mut out, ",\"evidence_hash\":");
        push_json_string(&mut out, self.evidence_hash.as_str());
        push_ascii(&mut out, ",\"health_hash\":");
        push_json_string(&mut out, self.health_hash.as_str());
        push_ascii(&mut out, ",\"capabilities_hash\":");
        push_json_string(&mut out, self.capabilities_hash.as_str());
        push_ascii(&mut out, "}");
        assert(out@ =~= manifest_bytes(*self));
        out
    }

    /// Canonical hash of the manifest itself, naming caches derived from it.
    pub fn manifest_hash(&self) -> (h: String)
        ensures
            h@ == content_address(manifest_bytes(*self)),
            is_content_hash(h@),
    {
        let bytes = self.canonical_bytes();
        content_hash(bytes.as_slice())
    }

    /// Checks version, generation and the form of every pinned hash.
    pub fn validate(&self) -> (r: Result<(), StateStoreError>)
        ensures
            r is Ok <==> manifest_valid(*self),
            r is Ok <==> manifest_problem(*self) is None,
            r matches Err(e) ==> (e matches StateStoreError::Invalid(m) && Some(m@) == manifest_problem(*self)),
    {
        proof {
            reveal_strlit("state manifest schema_version ");
            reveal_strlit(" is unsupported; supported: 2");
            reveal_strlit("state manifest generation must be positive");
        }
        let ghost f = hash_check(component_views(*self));
        if self.schema_version != 2 {
            let mut m = String::from_str("state manifest schema_version ");
            m.append(decimal_string(self.schema_version as u64).as_str());
            m.append(" is unsupported; supported: 2");
            return Err(StateStoreError::Invalid(m));
        }
        if self.generation == 0 {
            return Err(StateStoreError::Invalid(String::from_str("state manifest generation must be positive")));
        }
        let hashes = self.component_hashes();
        let mut i: usize = 0;
        while i < 5
            invariant
                i <= 5,
                hashes[0]@ == self.catalog_hash@,
                hashes[1]@ == self.policy_hash@,
                hashes[2]@ == self.evidence_hash@,
                hashes[3]@ == self.health_hash@,
                hashes[4]@ == self.capabilities_hash@,
                forall|j: int| 0 <= j < i ==> #[trigger] is_content_hash(component_views(*self)[j]),
                f == hash_check(component_views(*self)),
                first_problem(f, i as int) is None,
                self.schema_version == 2 && self.generation != 0,
            decreases 5 - i,
        {
            if !is_content_hash_exec(hashes[i]) {
                assert(!is_content_hash(component_views(*self)[i as int]));
                proof { lemma_first_problem_at(f, i as int, 5); }
                return Err(StateStoreError::Invalid(invalid_hash(hashes[i])));
            }
            assert(hashes[i as int]@ == component_views(*self)[i as int]);
            assert(first_problem(f, i + 1) is None);
            i = i + 1;
        }
        Ok(())
    }
}


/// Local store of content-addressed objects.
#[derive(Debug, Clone, PartialEq, Eq)]
pub struct StateStore {
    root: String,
}

/// Where the object named by a content hash lives below a root.
pub open spec fn object_path_spec(root: Seq<char>, hash: Seq<char>) -> Seq<char> {
    join_path(join_path(root, "objects"@), hash.subrange(7, 71) + ".json"@)
}

/// The manifest a commit publishes.
pub open spec fn committed(generation: u64, hashes: Seq<Seq<char>>, m: StateManifestV2) -> bool {
    &&& m.schema_version == 2
    &&& m.generation == generation
    &&& component_views(m) == hashes
}

impl StateStore {
    /// Opens a location without creating it.
    pub fn open(root: String) -> (s: StateStore)
        ensures
            s.root() == root@,
    {
        StateStore { root }
    }

    /// The root directory.
    pub closed spec fn root(&self) -> Seq<char> {
        self.root@
    }

    /// Path of the active manifest.
    pub fn manifest_path(&self) -> (p: String)
        ensures
            p@ == join_path(self.root(), "state-manifest-v2.json"@),
    {
        proof {
            reveal_strlit("state-manifest-v2.json");
        }
        join(self.root.as_str(), "state-manifest-v2.json")
    }

    /// Local path of a validated hash.
    pub fn object_path(&self, hash: &str) -> (r: Result<String, StateStoreError>)
        ensures
            r is Ok <==> is_content_hash(hash@),
            r matches Ok(p) ==> p@ == object_path_spec(self.root(), hash@),
            r matches Err(e) ==> (e matches StateStoreError::Invalid(m) && m@ == invalid_hash_message(hash@)),
    {
        if !is_content_hash_exec(hash) {
            return Err(StateStoreError::Invalid(invalid_hash(hash)));
        }
        proof {
            lemma_content_hash_ascii(hash@);
            reveal_strlit("objects");
            reveal_strlit(".json");
        }
        let objects = join(self.root.as_str(), "objects");
        let hex = hash.substring_ascii(7, 71);
        let mut name = String::from_str(hex);
        name.append(".json");
        Ok(join(objects.as_str(), name.as_str()))
    }

    /// Checks that the bytes read for an object are the ones its hash names.
    pub fn check_object(&self, hash: &str, bytes: &[u8]) -> (r: Result<(), StateStoreError>)
        ensures
            r is Ok <==> is_content_hash(hash@) && content_address(bytes@) == hash@,
            r matches Err(e) ==> (e matches StateStoreError::Invalid(m) && m@ == if is_content_hash(hash@) {
                "object hash mismatch for '"@ + object_path_spec(self.root(), hash@) + "': expected "@ + hash@
                    + ", received "@ + content_address(bytes@)
            } else {
                invalid_hash_message(hash@)
            }),
    {
        proof {
            reveal_strlit("object hash mismatch for '");
            reveal_strlit("': expected ");
            reveal_strlit(", received ");
        }
        let path = self.object_path(hash)?;
        let actual = content_hash(bytes);
        let expected = String::from_str(hash);
        if actual != expected {
            let mut m = String::from_str("object hash mismatch for '");
            m.append(path.as_str());
            m.append("': expected ");
            m.append(hash);
            m.append(", received ");
            m.append(actual.as_str());
            return Err(StateStoreError::Invalid(m));
        }
        Ok(())
    }
}

/// The generation a commit publishes: one more than the active one, or one
/// when there is no active manifest yet.
pub fn next_generation(current: Option<&StateManifestV2>) -> (r: Result<u64, StateStoreError>)
    ensures
        current is None ==> r == Ok::<u64, StateStoreError>(1),
        current matches Some(m) ==> (r is Ok <==> m.generation < u64::MAX),
        current matches Some(m) ==> (r matches Ok(g) ==> g == m.generation + 1),
        r matches Err(e) ==> (e matches StateStoreError::Invalid(m) && m@ == "generation overflow"@),
{
    proof {
        reveal_strlit("generation overflow");
    }
    match current {
        None => Ok(1),
        Some(m) => match m.generation.checked_add(1) {
            Some(g) => Ok(g),
            None => Err(StateStoreError::Invalid(String::from_str("generation overflow"))),
        },
    }
}

/// Compare-and-swap check: the active manifest must still be the expected base.
pub fn check_base(expected: &str, current: &StateManifestV2) -> (r: Result<(), StateStoreError>)
    ensures
        r is Ok <==> is_content_hash(expected@) && content_address(manifest_bytes(*current)) == expected@,
        r matches Err(e) ==> (!is_content_hash(expected@) ==> (e matches StateStoreError::Invalid(m) && m@ == invalid_hash_message(expected@))),
        r matches Err(e) ==> (is_content_hash(expected@) ==> (e matches StateStoreError::Conflict { expected: x, actual: a }
            && x@ == expected@ && a@ == content_address(manifest_bytes(*current)))),
{
    if !is_content_hash_exec(expected) {
        return Err(StateStoreError::Invalid(invalid_hash(expected)));
    }
    let actual = current.manifest_hash();
    let wanted = String::from_str(expected);
    if actual != wanted {
        return Err(StateStoreError::Conflict { expected: wanted, actual });
    }
    Ok(())
}

/// What choosing the next generation gives: one with no active manifest, or
/// one more than the active generation, which must not overflow.
pub open spec fn next_generation_result(current: Option<&StateManifestV2>, r: Result<u64, StateStoreError>) -> bool {
    match current {
        None => r == Ok::<u64, StateStoreError>(1),
        Some(m) => if m.generation < u64::MAX {
            r == Ok::<u64, StateStoreError>((m.generation + 1) as u64)
        } else {
            r matches Err(StateStoreError::Invalid(x)) && x@ == "generation overflow"@
        },
    }
}

/// Decides a commit before any object is written: against an expected base,
/// that base must be a content hash and still the active manifest (none
/// active is `NotFound`); then the generation to publish is the next one.
/// The caller publishes only the manifest of the generation this returns.
pub fn commit_generation(expected: Option<&str>, current: Option<&StateManifestV2>) -> (r: Result<u64, StateStoreError>)
    ensures
        match expected {
            Some(h) => if !is_content_hash(h@) {
                r matches Err(StateStoreError::Invalid(m)) && m@ == invalid_hash_message(h@)
            } else {
                match current {
                    None => r == Err::<u64, StateStoreError>(StateStoreError::NotFound),
                    Some(m) => if content_address(manifest_bytes(*m)) != h@ {
                        r matches Err(StateStoreError::Conflict { expected: x, actual: y }) && x@ == h@
                            && y@ == content_address(manifest_bytes(*m))
                    } else {
                        next_generation_result(current, r)
                    },
                }
            },
            None => next_generation_result(current, r),
        },
{
    if let Some(h) = expected {
        match current {
            None => {
                if !is_content_hash_exec(h) {
                    return Err(StateStoreError::Invalid(invalid_hash(h)));
                }
                return Err(StateStoreError::NotFound);
            },
            Some(m) => check_base(h, m)?,
        }
    }
    next_generation(current)
}

/// The manifest published for a generation whose objects were written.
pub fn new_manifest(
    generation: u64,
    catalog_hash: String,
    policy_hash: String,
    evidence_hash: String,
    health_hash: String,
    capabilities_hash: String,
) -> (m: StateManifestV2)
    ensures
        committed(generation, seq![catalog_hash@, policy_hash@, evidence_hash@, health_hash@, capabilities_hash@], m),
{
    StateManifestV2 { schema_version: 2, generation, catalog_hash, policy_hash, evidence_hash, health_hash, capabilities_hash }
}

/// Law: a manifest published from hashes the store computed, at a positive
/// generation, always passes validation when it is read back.
pub proof fn law_committed_manifest_valid(generation: u64, hashes: Seq<Seq<char>>, m: StateManifestV2)
    requires
        generation > 0,
        hashes.len() == 5,
        forall|i: int| 0 <= i < 5 ==> #[trigger] is_content_hash(hashes[i]),
        committed(generation, hashes, m),
    ensures
        manifest_valid(m),
{
}

/// Attempts a health observation makes to commit against a moving base.
pub const HEALTH_COMMIT_ATTEMPTS: u32 = 256;

/// What a health observation does after a failed commit.
#[derive(Debug, Clone, PartialEq, Eq)]
pub enum CommitRetry {
    /// Reload the state and try again.
    Again,
    /// Give up with this error.
    Stop(StateStoreError),
}

/// After the `attempt`-th failed commit (counting from one), a conflicting
/// base or a held lease is retried while attempts remain; the last such
/// failure is returned when they run out, and any other failure stops at once.
pub fn after_failed_commit(attempt: u32, error: StateStoreError) -> (r: CommitRetry)
    requires
        1 <= attempt <= HEALTH_COMMIT_ATTEMPTS,
    ensures
        !(error is Conflict || error is Lease) ==> r == CommitRetry::Stop(error),
        (error is Conflict || error is Lease) && attempt < HEALTH_COMMIT_ATTEMPTS ==> r == CommitRetry::Again,
        (error is Conflict || error is Lease) && attempt == HEALTH_COMMIT_ATTEMPTS ==> r == CommitRetry::Stop(error),
{
    match error {
        StateStoreError::Conflict { .. } | StateStoreError::Lease(_) => {
            if attempt < HEALTH_COMMIT_ATTEMPTS {
                CommitRetry::Again
            } else {
                CommitRetry::Stop(error)
            }
        },
        _ => CommitRetry::Stop(error),
    }
}

} // verus!
