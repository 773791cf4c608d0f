//! The public, stable form of the reasons a route did not win: code, field
//! and message of each kind, the details it carries, and the check that a
//! stored reason is one of them.

use vstd::prelude::*;
use vstd::string::*;

verus! {

/// Kind of a discard reason, without its measured details.
#[derive(Debug, Clone, Copy, PartialEq, Eq, Structural)]
pub enum DiscardKind {
    /// Disabled by policy.
    Disabled,
    /// Incompatible production or test class.
    ClassMismatch,
    /// A capability is missing.
    MissingCapability,
    /// The sensitivity ceiling is too low.
    SensitivityTooHigh,
    /// The context window is too small.
    ContextTooSmall,
    /// The route cannot honour the effort.
    UnsupportedEffort,
    /// The route is still cooling down.
    Cooldown,
    /// The projection belongs to another action or route.
    ProjectionMismatch,
    /// No effective score.
    NoQualityScore,
    /// A score, but not enough evidence for production.
    UnverifiedQuality,
    /// Below the absolute threshold.
    BelowMinimum,
    /// Not approved as fallback.
    UnapprovedFallback,
    /// Outside `Qmax - margin`.
    OutsideSelectionMargin,
    /// Eligible, but another route had a lower expected cost.
    HigherExpectedCost,
    /// Costs or success rate break the contract.
    InvalidEconomics,
}

/// Public code, field and message of each kind.
pub open spec fn parts_spec(k: DiscardKind) -> (Seq<char>, Seq<char>, Seq<char>) {
    match k {
        DiscardKind::Disabled => ("disabled"@, "policy.routes.enabled"@, "route is disabled by policy"@),
        DiscardKind::ClassMismatch => ("class_mismatch"@, "request.class"@, "route class is incompatible with the request"@),
        DiscardKind::MissingCapability => ("missing_capability"@, "task.required_capabilities"@, "route does not provide a required capability"@),
        DiscardKind::SensitivityTooHigh => ("sensitivity_too_high"@, "task.sensitivity"@, "route sensitivity ceiling is too low"@),
        DiscardKind::ContextTooSmall => ("context_too_small"@, "task.minimum_context"@, "route context window is too small"@),
        DiscardKind::UnsupportedEffort => ("unsupported_effort"@, "task.reasoning_effort"@, "route does not support the requested reasoning effort"@),
        DiscardKind::Cooldown => ("cooldown"@, "health.cooldown_until"@, "route is cooling down"@),
        DiscardKind::ProjectionMismatch => ("projection_mismatch"@, "evidence.projections"@, "quality projection does not match the route and action"@),
        DiscardKind::NoQualityScore => ("no_quality_score"@, "evidence.projections.effective_score"@, "route has no effective quality score"@),
        DiscardKind::UnverifiedQuality => ("unverified_quality"@, "evidence.projections.coverage"@, "route quality is not independently verified"@),
        DiscardKind::BelowMinimum => ("below_minimum"@, "policy.profiles.minimum_quality"@, "route quality is below the absolute minimum"@),
        DiscardKind::UnapprovedFallback => ("unapproved_fallback"@, "policy.routes.approved_fallback"@, "route is not approved as fallback"@),
        DiscardKind::OutsideSelectionMargin => ("outside_selection_margin"@, "policy.profiles.selection_margin"@, "route is outside the quality selection margin"@),
        DiscardKind::HigherExpectedCost => ("higher_expected_cost"@, "catalog.routes.costs"@, "another eligible route has lower expected cost"@),
        DiscardKind::InvalidEconomics => ("invalid_economics"@, "catalog.routes.costs"@, "route economics are unknown, non-finite, or invalid"@),
    }
}

/// Names of the details each kind carries, in the order they are read.
pub open spec fn details_spec(k: DiscardKind) -> Seq<Seq<char>> {
    match k {
        DiscardKind::MissingCapability => seq!["capability"@],
        DiscardKind::ContextTooSmall => seq!["available"@, "required"@],
        DiscardKind::UnsupportedEffort => seq!["effort"@],
        DiscardKind::Cooldown => seq!["until"@],
        DiscardKind::BelowMinimum => seq!["score"@, "minimum"@],
        DiscardKind::OutsideSelectionMargin => seq!["score"@, "floor"@],
        _ => seq![],
    }
}

/// The kinds, in declaration order.
pub open spec fn all_kinds() -> Seq<DiscardKind> {
    seq![
        DiscardKind::Disabled,
        DiscardKind::ClassMismatch,
        DiscardKind::MissingCapability,
        DiscardKind::SensitivityTooHigh,
        DiscardKind::ContextTooSmall,
        DiscardKind::UnsupportedEffort,
        DiscardKind::Cooldown,
        DiscardKind::ProjectionMismatch,
        DiscardKind::NoQualityScore,
        DiscardKind::UnverifiedQuality,
        DiscardKind::BelowMinimum,
        DiscardKind::UnapprovedFallback,
        DiscardKind::OutsideSelectionMargin,
        DiscardKind::HigherExpectedCost,
        DiscardKind::InvalidEconomics,
    ]
}

impl DiscardKind {
    /// Public code, field and message of the kind.
    pub fn public_parts(self) -> (r: (&'static str, &'static str, &'static str))
        ensures
            (r.0@, r.1@, r.2@) == parts_spec(self),
    {
        match self {
            DiscardKind::Disabled => ("disabled", "policy.routes.enabled", "route is disabled by policy"),
            DiscardKind::ClassMismatch => ("class_mismatch", "request.class", "route class is incompatible with the request"),
            DiscardKind::MissingCapability => ("missing_capability", "task.required_capabilities", "route does not provide a required capability"),
            DiscardKind::SensitivityTooHigh => ("sensitivity_too_high", "task.sensitivity", "route sensitivity ceiling is too low"),
            DiscardKind::ContextTooSmall => ("context_too_small", "task.minimum_context", "route context window is too small"),
            DiscardKind::UnsupportedEffort => ("unsupported_effort", "task.reasoning_effort", "route does not support the requested reasoning effort"),
            DiscardKind::Cooldown => ("cooldown", "health.cooldown_until", "route is cooling down"),
            DiscardKind::ProjectionMismatch => ("projection_mismatch", "evidence.projections", "quality projection does not match the route and action"),
            DiscardKind::NoQualityScore => ("no_quality_score", "evidence.projections.effective_score", "route has no effective quality score"),
            DiscardKind::UnverifiedQuality => ("unverified_quality", "evidence.projections.coverage", "route quality is not independently verified"),
            DiscardKind::BelowMinimum => ("below_minimum", "policy.profiles.minimum_quality", "route quality is below the absolute minimum"),
            DiscardKind::UnapprovedFallback => ("unapproved_fallback", "policy.routes.approved_fallback", "route is not approved as fallback"),
            DiscardKind::OutsideSelectionMargin => ("outside_selection_margin", "policy.profiles.selection_margin", "route is outside the quality selection margin"),
            DiscardKind::HigherExpectedCost => ("higher_expected_cost", "catalog.routes.costs", "another eligible route has lower expected cost"),
            DiscardKind::InvalidEconomics => ("invalid_economics", "catalog.routes.costs", "route economics are unknown, non-finite, or invalid"),
        }
    }

    /// Names of the details the kind carries, in the order they are read.
    pub fn detail_names(self) -> (r: Vec<&'static str>)
        ensures
            r@.map_values(|s: &'static str| s@) == details_spec(self),
    {
        let mut v: Vec<&'static str> = Vec::new();
        match self {
            DiscardKind::MissingCapability => v.push("capability"),
            DiscardKind::ContextTooSmall => {
                v.push("available");
                v.push("required");
            },
            DiscardKind::UnsupportedEffort => v.push("effort"),
            DiscardKind::Cooldown => v.push("until"),
            DiscardKind::BelowMinimum => {
                v.push("score");
                v.push("minimum");
            },
            DiscardKind::OutsideSelectionMargin => {
                v.push("score");
                v.push("floor");
            },
            _ => {},
        }
        assert(v@.map_values(|s: &'static str| s@) =~= details_spec(self));
        v
    }
}

/// Distinct kinds have distinct codes.
pub proof fn lemma_codes_distinct(a: DiscardKind, b: DiscardKind)
    requires
        parts_spec(a).0 == parts_spec(b).0,
    ensures
        a == b,
{
    reveal_strlit("disabled");
    reveal_strlit("class_mismatch");
    reveal_strlit("missing_capability");
    reveal_strlit("sensitivity_too_high");
    reveal_strlit("context_too_small");
    reveal_strlit("unsupported_effort");
    reveal_strlit("cooldown");
    reveal_strlit("projection_mismatch");
    reveal_strlit("no_quality_score");
    reveal_strlit("unverified_quality");
    reveal_strlit("below_minimum");
    reveal_strlit("unapproved_fallback");
    reveal_strlit("outside_selection_margin");
    reveal_strlit("higher_expected_cost");
    reveal_strlit("invalid_economics");
    if a != b {
        let x = parts_spec(a).0;
        let y = parts_spec(b).0;
        assert(x.len() != y.len() || exists|i: int| 0 <= i < x.len() && x[i] != y[i]) by {
            if x.len() == y.len() {
                let i: int = if x[0] != y[0] { 0 } else if x[1] != y[1] { 1 } else if x[2] != y[2] { 2 } else if x[3] != y[3] { 3 } else { 4 };
                assert(x[i] != y[i]);
            }
        }
    }
}

/// The texts of stored detail names.
pub open spec fn key_views(v: Seq<String>) -> Seq<Seq<char>> {
    v.map_values(|x: String| x@)
}

/// A stored reason is the kind of its code, carries exactly that kind's
/// details, and repeats that kind's field and message.
pub open spec fn public_ok(k: DiscardKind, code: Seq<char>, field: Seq<char>, message: Seq<char>, keys: Seq<Seq<char>>) -> bool {
    &&& parts_spec(k).0 == code
    &&& parts_spec(k).1 == field
    &&& parts_spec(k).2 == message
    &&& forall|n: Seq<char>| keys.contains(n) <==> #[trigger] details_spec(k).contains(n)
}

fn kind_from_code(code: &str) -> (r: Option<DiscardKind>)
    ensures
        r matches Some(k) ==> parts_spec(k).0 == code@,
        r is None ==> forall|k: DiscardKind| parts_spec(k).0 != code@,
{
    let kinds = [
        DiscardKind::Disabled,
        DiscardKind::ClassMismatch,
        DiscardKind::MissingCapability,
        DiscardKind::SensitivityTooHigh,
        DiscardKind::ContextTooSmall,
        DiscardKind::UnsupportedEffort,
        DiscardKind::Cooldown,
        DiscardKind::ProjectionMismatch,
        DiscardKind::NoQualityScore,
        DiscardKind::UnverifiedQuality,
        DiscardKind::BelowMinimum,
        DiscardKind::UnapprovedFallback,
        DiscardKind::OutsideSelectionMargin,
        DiscardKind::HigherExpectedCost,
        DiscardKind::InvalidEconomics,
    ];
    let wanted = String::from_str(code);
    let mut i: usize = 0;
    while i < 15
        invariant
            i <= 15,
            wanted@ == code@,
            kinds@ == all_kinds(),
            forall|j: int| 0 <= j < i ==> (#[trigger] parts_spec(kinds@[j])).0 != code@,
        decreases 15 - i,
    {
        let k = kinds[i];
        let (c, _, _) = k.public_parts();
        if String::from_str(c) == wanted {
            return Some(k);
        }
        i = i + 1;
    }
    proof {
        assert forall|k: DiscardKind| parts_spec(k).0 != code@ by {
            let j: int = match k {
                DiscardKind::Disabled => 0,
                DiscardKind::ClassMismatch => 1,
                DiscardKind::MissingCapability => 2,
                DiscardKind::SensitivityTooHigh => 3,
                DiscardKind::ContextTooSmall => 4,
                DiscardKind::UnsupportedEffort => 5,
                DiscardKind::Cooldown => 6,
                DiscardKind::ProjectionMismatch => 7,
                DiscardKind::NoQualityScore => 8,
                DiscardKind::UnverifiedQuality => 9,
                DiscardKind::BelowMinimum => 10,
                DiscardKind::UnapprovedFallback => 11,
                DiscardKind::OutsideSelectionMargin => 12,
                DiscardKind::HigherExpectedCost => 13,
                DiscardKind::InvalidEconomics => 14,
            };
            assert(kinds@[j] == k);
        }
    }
    None
}

fn str_in(v: &Vec<&'static str>, s: &String) -> (r: bool)
    ensures
        r == v@.map_values(|x: &'static str| x@).contains(s@),
{
    let mut i: usize = 0;
    while i < v.len()
        invariant
            i <= v@.len(),
            forall|j: int| 0 <= j < i ==> (#[trigger] v@[j])@ != s@,
        decreases v@.len() - i,
    {
        if String::from_str(v[i]) == *s {
            assert(v@.map_values(|x: &'static str| x@)[i as int] == s@);
            return true;
        }
        i = i + 1;
    }
    proof {
        let m = v@.map_values(|x: &'static str| x@);
        if m.contains(s@) {
            let k = choose|k: int| 0 <= k < m.len() && #[trigger] m[k] == s@;
            assert(v@[k]@ == s@);
        }
    }
    false
}

fn string_in(v: &Vec<String>, s: &'static str) -> (r: bool)
    ensures
        r == v@.map_values(|x: String| x@).contains(s@),
{
    let wanted = String::from_str(s);
    let mut i: usize = 0;
    while i < v.len()
        invariant
            i <= v@.len(),
            wanted@ == s@,
            forall|j: int| 0 <= j < i ==> (#[trigger] v@[j])@ != s@,
        decreases v@.len() - i,
    {
        if v[i] == wanted {
            assert(v@.map_values(|x: String| x@)[i as int] == s@);
            return true;
        }
        i = i + 1;
    }
    proof {
        let m = v@.map_values(|x: String| x@);
        if m.contains(s@) {
            let k = choose|k: int| 0 <= k < m.len() && #[trigger] m[k] == s@;
            assert(v@[k]@ == s@);
        }
    }
    false
}

/// Recognises a stored reason by its code, its detail names, its field and
/// its message; the values of the details are read by the caller.
pub fn from_public(code: &str, field: &str, message: &str, detail_keys: &Vec<String>) -> (r: Result<DiscardKind, String>)
    ensures
        r matches Ok(k) ==> public_ok(k, code@, field@, message@, key_views(detail_keys@)),
        r is Err ==> forall|k: DiscardKind| !#[trigger] public_ok(k, code@, field@, message@, key_views(detail_keys@)),
{
    let ghost keys = key_views(detail_keys@);
    let kind = match kind_from_code(code) {
        Some(k) => k,
        None => {
            let mut m = String::from_str("unknown discard code: ");
            m.append(code);
            return Err(m);
        },
    };
    proof {
        assert forall|k: DiscardKind| #[trigger] public_ok(k, code@, field@, message@, keys) implies k == kind by {
            lemma_codes_distinct(k, kind);
        }
    }
    let names = kind.detail_names();
    let mut i: usize = 0;
    while i < names.len()
        invariant
            i <= names@.len(),
            names@.map_values(|s: &'static str| s@) == details_spec(kind),
            keys == key_views(detail_keys@),
            forall|k: DiscardKind| #[trigger] public_ok(k, code@, field@, message@, keys) ==> k == kind,
            forall|j: int| 0 <= j < i ==> keys.contains(#[trigger] names@[j]@),
        decreases names@.len() - i,
    {
        if !string_in(detail_keys, names[i]) {
            proof {
                assert(details_spec(kind)[i as int] == names@[i as int]@);
                assert(details_spec(kind).contains(names@[i as int]@));
            }
            let mut m = String::from_str("missing discard detail: ");
            m.append(names[i]);
            return Err(m);
        }
        i = i + 1;
    }
    let mut j: usize = 0;
    while j < detail_keys.len()
        invariant
            j <= detail_keys@.len(),
            names@.map_values(|s: &'static str| s@) == details_spec(kind),
            keys == key_views(detail_keys@),
            forall|k: DiscardKind| #[trigger] public_ok(k, code@, field@, message@, keys) ==> k == kind,
            forall|m: int| 0 <= m < j ==> details_spec(kind).contains(#[trigger] keys[m]),
        decreases detail_keys@.len() - j,
    {
        if !str_in(&names, &detail_keys[j]) {
            proof {
                assert(keys[j as int] == detail_keys@[j as int]@);
                assert(keys.contains(keys[j as int]));
            }
            return Err(String::from_str("unknown discard detail"));
        }
        j = j + 1;
    }
    let (_, f, m) = kind.public_parts();
    if String::from_str(f) != String::from_str(field) || String::from_str(m) != String::from_str(message) {
        return Err(String::from_str("discard field or message does not match code"));
    }
    proof {
        assert forall|n: Seq<char>| keys.contains(n) <==> #[trigger] details_spec(kind).contains(n) by {
            if keys.contains(n) {
                let m2 = choose|m2: int| 0 <= m2 < keys.len() && keys[m2] == n;
                assert(details_spec(kind).contains(keys[m2]));
            }
            if details_spec(kind).contains(n) {
                let m2 = choose|m2: int| 0 <= m2 < details_spec(kind).len() && details_spec(kind)[m2] == n;
                assert(names@[m2]@ == n);
            }
        }
    }
    Ok(kind)
}

/// The public form of every kind is accepted back as that kind and as no
/// other: code, field, message and detail names identify the kind.
pub proof fn law_public_form_identifies_kind(k: DiscardKind, other: DiscardKind)
    ensures
        public_ok(k, parts_spec(k).0, parts_spec(k).1, parts_spec(k).2, details_spec(k)),
        public_ok(other, parts_spec(k).0, parts_spec(k).1, parts_spec(k).2, details_spec(k)) ==> other == k,
{
    if public_ok(other, parts_spec(k).0, parts_spec(k).1, parts_spec(k).2, details_spec(k)) {
        lemma_codes_distinct(other, k);
    }
}

} // verus!
