//! Route classes, extraordinary authorisations and the decision seal.

use vstd::prelude::*;
use vstd::string::*;

use crate::text::{is_blank, is_blank_text, is_sha256_ref, is_sha256_reference};
use crate::util::copy_strings;

verus! {

/// Scope in which a route may be used.
#[derive(Debug, Clone, Copy, PartialEq, Eq, Structural)]
pub enum RouteClass {
    /// Real work subject to every evidence gate.
    Production,
    /// Probe or canary; it never promotes the route by itself.
    ProbeTest,
}

/// A requested exception and its trusted decision.
#[derive(Debug, Clone, Copy, PartialEq, Eq, Structural)]
pub struct AuthorizationDecision {
    /// The client asked for the exception.
    pub requested: bool,
    /// Policy permitted the request.
    pub permitted: bool,
}

/// Extraordinary authorisations kept in the receipt.
#[derive(Debug, Clone, Copy, PartialEq, Eq, Structural)]
pub struct SelectionAuthorizations {
    /// Any eligible fallback.
    pub allow_any_eligible: AuthorizationDecision,
    /// Skipping the verification gate.
    pub allow_unverified_quality: AuthorizationDecision,
}

impl AuthorizationDecision {
    /// Resolves a per-request wish against the persistent profile permission:
    /// an omitted wish is no request, and a request is permitted only when the
    /// profile allows it.
    pub fn resolve(requested: Option<bool>, profile_allows: bool) -> (d: AuthorizationDecision)
        ensures
            d.requested == (requested == Some(true)),
            d.permitted == (requested == Some(true) && profile_allows),
    {
        let asked = match requested {
            Some(b) => b,
            None => false,
        };
        AuthorizationDecision { requested: asked, permitted: asked && profile_allows }
    }
}

/// Trusted hashes of the single generation a selection used.
#[derive(Debug, Clone, PartialEq, Eq)]
pub struct DecisionSealV2 {
    /// Manifest read once.
    pub manifest_hash: String,
    /// Catalog hash.
    pub catalog_hash: String,
    /// Policy hash.
    pub policy_hash: String,
    /// Active evidence hash.
    pub evidence_hash: String,
    /// Health hash.
    pub health_hash: String,
    /// Capability index hash.
    pub capabilities_hash: String,
    /// Exact receipts used, ordered by hash.
    pub capability_receipt_hashes: Vec<String>,
}

/// `sha256:` followed by sixty-four zeros: the placeholder of a seal that only knows its policy.
pub open spec fn legacy_empty() -> Seq<char> {
    "sha256:0000000000000000000000000000000000000000000000000000000000000000"@
}

/// A seal carrying only a policy hash, the others being the placeholder.
pub open spec fn is_legacy_seal(s: DecisionSealV2) -> bool {
    &&& s.manifest_hash@ == legacy_empty()
    &&& s.catalog_hash@ == legacy_empty()
    &&& s.evidence_hash@ == legacy_empty()
    &&& s.health_hash@ == legacy_empty()
    &&& s.capabilities_hash@ == legacy_empty()
    &&& s.capability_receipt_hashes@.len() == 0
    &&& !is_blank(s.policy_hash@)
}

/// Every hash of the seal has the `sha256:<hex>` form.
pub open spec fn all_hashes_well_formed(s: DecisionSealV2) -> bool {
    &&& is_sha256_ref(s.manifest_hash@)
    &&& is_sha256_ref(s.catalog_hash@)
    &&& is_sha256_ref(s.policy_hash@)
    &&& is_sha256_ref(s.evidence_hash@)
    &&& is_sha256_ref(s.health_hash@)
    &&& is_sha256_ref(s.capabilities_hash@)
    &&& forall|i: int| 0 <= i < s.capability_receipt_hashes@.len() ==> #[trigger] is_sha256_ref(s.capability_receipt_hashes@[i]@)
}

/// A seal the selector accepts.
pub open spec fn seal_valid(s: DecisionSealV2) -> bool {
    is_legacy_seal(s) || all_hashes_well_formed(s)
}

fn legacy_empty_string() -> (s: String)
    ensures
        s@ == legacy_empty(),
{
    String::from_str("sha256:0000000000000000000000000000000000000000000000000000000000000000")
}

fn field_message(field: &str) -> (m: String)
    ensures
        m@ == field@ + " must be sha256:<hex>"@,
{
    let mut m = String::from_str(field);
    m.append(" must be sha256:<hex>");
    m
}

impl DecisionSealV2 {
    /// The seal of a selection that only knows the policy it used.
    pub fn legacy(policy_hash: &str) -> (s: DecisionSealV2)
        ensures
            s.policy_hash@ == policy_hash@,
            s.manifest_hash@ == legacy_empty(),
            s.catalog_hash@ == legacy_empty(),
            s.evidence_hash@ == legacy_empty(),
            s.health_hash@ == legacy_empty(),
            s.capabilities_hash@ == legacy_empty(),
            s.capability_receipt_hashes@.len() == 0,
    {
        DecisionSealV2 {
            manifest_hash: legacy_empty_string(),
            catalog_hash: legacy_empty_string(),
            policy_hash: String::from_str(policy_hash),
            evidence_hash: legacy_empty_string(),
            health_hash: legacy_empty_string(),
            capabilities_hash: legacy_empty_string(),
            capability_receipt_hashes: Vec::new(),
        }
    }

    /// A copy of the seal.
    pub fn duplicate(&self) -> (s: DecisionSealV2)
        ensures
            s.manifest_hash == self.manifest_hash,
            s.catalog_hash == self.catalog_hash,
            s.policy_hash == self.policy_hash,
            s.evidence_hash == self.evidence_hash,
            s.health_hash == self.health_hash,
            s.capabilities_hash == self.capabilities_hash,
            s.capability_receipt_hashes@ == self.capability_receipt_hashes@,
    {
        DecisionSealV2 {
            manifest_hash: self.manifest_hash.clone(),
            catalog_hash: self.catalog_hash.clone(),
            policy_hash: self.policy_hash.clone(),
            evidence_hash: self.evidence_hash.clone(),
            health_hash: self.health_hash.clone(),
            capabilities_hash: self.capabilities_hash.clone(),
            capability_receipt_hashes: copy_strings(&self.capability_receipt_hashes),
        }
    }
}

/// Accepts a legacy seal with a non-blank policy hash, or a seal whose every
/// hash is `sha256:<64 hex>`; the error names the first offending field.
pub fn validate_seal(seal: &DecisionSealV2) -> (r: Result<(), String>)
    ensures
        r is Ok <==> seal_valid(*seal),
{
    let empty = legacy_empty_string();
    if seal.manifest_hash == empty && seal.catalog_hash == empty && seal.evidence_hash == empty
        && seal.health_hash == empty && seal.capabilities_hash == empty
        && seal.capability_receipt_hashes.len() == 0 && !is_blank_text(seal.policy_hash.as_str()) {
        return Ok(());
    }
    if !is_sha256_reference(seal.manifest_hash.as_str()) {
        return Err(field_message("manifest_hash"));
    }
    if !is_sha256_reference(seal.catalog_hash.as_str()) {
        return Err(field_message("catalog_hash"));
    }
    if !is_sha256_reference(seal.policy_hash.as_str()) {
        return Err(field_message("policy_hash"));
    }
    if !is_sha256_reference(seal.evidence_hash.as_str()) {
        return Err(field_message("evidence_hash"));
    }
    if !is_sha256_reference(seal.health_hash.as_str()) {
        return Err(field_message("health_hash"));
    }
    if !is_sha256_reference(seal.capabilities_hash.as_str()) {
        return Err(field_message("capabilities_hash"));
    }
    let mut i: usize = 0;
    while i < seal.capability_receipt_hashes.len()
        invariant
            i <= seal.capability_receipt_hashes@.len(),
            forall|j: int| 0 <= j < i ==> #[trigger] is_sha256_ref(seal.capability_receipt_hashes@[j]@),
        decreases seal.capability_receipt_hashes@.len() - i,
    {
        if !is_sha256_reference(seal.capability_receipt_hashes[i].as_str()) {
            proof {
                assert(!all_hashes_well_formed(*seal));
            }
            return Err(String::from_str("capability receipt hash must be sha256:<hex>"));
        }
        i = i + 1;
    }
    Ok(())
}

/// Law: the seal of a selection that only knows a non-blank policy hash is accepted.
pub proof fn law_legacy_seal_accepted(s: DecisionSealV2)
    requires
        s.manifest_hash@ == legacy_empty(),
        s.catalog_hash@ == legacy_empty(),
        s.evidence_hash@ == legacy_empty(),
        s.health_hash@ == legacy_empty(),
        s.capabilities_hash@ == legacy_empty(),
        s.capability_receipt_hashes@.len() == 0,
        !is_blank(s.policy_hash@),
    ensures
        seal_valid(s),
{
}

} // verus!
