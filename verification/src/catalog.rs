//! Safe normalisation of the catalog that DSH discovers: which discovered
//! routes become catalog routes, and why the others are rejected.

use vstd::prelude::*;
use vstd::string::*;

use crate::order::{lemma_triple_lt, sort, sorted_by, text_less, text_lt, triple_less, triple_lt, Ordered};
use crate::route::{is_route_text, RouteRef};

verus! {

/// Initial class of an imported route.
#[derive(Debug, Clone, Copy, PartialEq, Eq, Structural)]
pub enum CatalogClass {
    /// Probes and tests only, until exact canaries pass.
    ProbeTest,
    /// A later, explicit promotion.
    Production,
}

/// Route rejected before it can reach execution.
#[derive(Debug, Clone, PartialEq, Eq)]
pub struct CatalogRejection {
    /// Stable code.
    pub code: String,
    /// Provider received.
    pub provider: String,
    /// Model received.
    pub model: String,
    /// Explanation without sensitive data.
    pub message: String,
}

/// What the import reads of one discovered route.
#[derive(Debug, Clone, PartialEq, Eq)]
pub struct DiscoveredRoute {
    /// Provider.
    pub provider: String,
    /// Model.
    pub model: String,
    /// Revision, when published.
    pub revision: Option<String>,
    /// Every published cost component is known, finite and zero.
    pub cost_proven_zero: bool,
}

/// A discovered route accepted into the catalog, with its position in the discovery.
#[derive(Debug, Clone, PartialEq, Eq)]
pub struct ImportedRoute {
    /// Position of the discovered entry.
    pub index: usize,
    /// Exact identity; the harness is always `dsh`.
    pub route: RouteRef,
    /// An import never promotes a route by itself.
    pub class: CatalogClass,
}

/// Reviewable outcome of an import.
#[derive(Debug, Clone, PartialEq, Eq)]
pub struct CatalogImportPlan {
    /// Accepted routes, ordered by identity.
    pub routes: Vec<ImportedRoute>,
    /// Excluded entries with a stable reason, ordered by provider, model and code.
    pub rejected: Vec<CatalogRejection>,
}

/// Pure adapter of the DSH discovery interface.
pub struct DshCatalogBridge;

/// The exact identity a discovered route asks for.
pub open spec fn identity_of(d: DiscoveredRoute) -> Seq<char> {
    match d.revision {
        Some(rev) => "dsh/"@ + d.provider@ + "/"@ + d.model@ + "/"@ + rev@,
        None => "dsh/"@ + d.provider@ + "/"@ + d.model@,
    }
}

/// Why an entry is rejected, if it is.
#[derive(Debug, Clone, Copy, PartialEq, Eq, Structural)]
pub enum ImportVerdict {
    /// Becomes a catalog route.
    Accepted,
    /// OpenCode entry whose cost is not proven zero.
    CostNotProvenZero,
    /// Provider, model or revision is not a safe route segment.
    InvalidRouteRef,
    /// The same exact route was already accepted.
    DuplicateRouteRef,
}

/// Identities accepted among the first `n` entries.
pub open spec fn accepted_identities(items: Seq<DiscoveredRoute>, n: int) -> Set<Seq<char>>
    decreases n, 0int,
{
    if n <= 0 {
        Set::empty()
    } else {
        let prev = accepted_identities(items, n - 1);
        if verdict(items, n - 1) == ImportVerdict::Accepted {
            prev.insert(identity_of(items[n - 1]))
        } else {
            prev
        }
    }
}

/// Verdict on entry `i`, given the entries before it.
pub open spec fn verdict(items: Seq<DiscoveredRoute>, i: int) -> ImportVerdict
    decreases i, 1int,
{
    let d = items[i];
    if d.provider@ == "opencode"@ && !d.cost_proven_zero {
        ImportVerdict::CostNotProvenZero
    } else if !is_route_text(identity_of(d)) {
        ImportVerdict::InvalidRouteRef
    } else if i > 0 && accepted_identities(items, i).contains(identity_of(d)) {
        ImportVerdict::DuplicateRouteRef
    } else {
        ImportVerdict::Accepted
    }
}

/// Explanation of a rejection verdict.
pub open spec fn verdict_message(v: ImportVerdict) -> Seq<char> {
    match v {
        ImportVerdict::CostNotProvenZero => "every OpenCode cost component must be known, finite and zero"@,
        ImportVerdict::InvalidRouteRef => "provider, model or revision is not a safe route segment"@,
        _ => "DSH discovery returned the same exact route more than once"@,
    }
}

/// Stable code of a rejection verdict.
pub open spec fn verdict_code(v: ImportVerdict) -> Seq<char> {
    match v {
        ImportVerdict::CostNotProvenZero => "opencode_cost_not_proven_zero"@,
        ImportVerdict::InvalidRouteRef => "invalid_route_ref"@,
        _ => "duplicate_route_ref"@,
    }
}

/// Sort key of a rejection: provider, model, code.
pub open spec fn rejection_key(r: CatalogRejection) -> (Option<String>, Option<String>, Option<String>) {
    (Some(r.provider), Some(r.model), Some(r.code))
}

impl Ordered for CatalogRejection {
    open spec fn precedes(&self, other: &Self) -> bool {
        triple_lt(rejection_key(*self), rejection_key(*other))
    }

    proof fn precedes_irreflexive(a: &Self) {
        lemma_triple_lt(rejection_key(*a), rejection_key(*a), rejection_key(*a));
    }

    proof fn precedes_transitive(a: &Self, b: &Self, c: &Self) {
        lemma_triple_lt(rejection_key(*a), rejection_key(*b), rejection_key(*c));
    }

    fn less(&self, other: &Self) -> (r: bool) {
        let a = (Some(self.provider.clone()), Some(self.model.clone()), Some(self.code.clone()));
        let b = (Some(other.provider.clone()), Some(other.model.clone()), Some(other.code.clone()));
        triple_less(&a, &b)
    }
}

impl Ordered for ImportedRoute {
    open spec fn precedes(&self, other: &Self) -> bool {
        text_lt(self.route@, other.route@)
    }

    proof fn precedes_irreflexive(a: &Self) {
        crate::order::lemma_bytes_lt_irreflexive(vstd::utf8::encode_utf8(a.route@));
    }

    proof fn precedes_transitive(a: &Self, b: &Self, c: &Self) {
        crate::order::lemma_bytes_lt_transitive(
            vstd::utf8::encode_utf8(a.route@),
            vstd::utf8::encode_utf8(b.route@),
            vstd::utf8::encode_utf8(c.route@),
        );
    }

    fn less(&self, other: &Self) -> (r: bool) {
        text_less(self.route.as_str(), other.route.as_str())
    }
}

fn identity(d: &DiscoveredRoute) -> (s: String)
    ensures
        s@ == identity_of(*d),
{
    proof {
        reveal_strlit("dsh/");
        reveal_strlit("/");
    }
    let mut s = String::from_str("dsh/");
    s.append(d.provider.as_str());
    s.append("/");
    s.append(d.model.as_str());
    if let Some(rev) = &d.revision {
        s.append("/");
        s.append(rev.as_str());
    }
    s
}

fn rejection(code: &str, d: &DiscoveredRoute, message: &str) -> (r: CatalogRejection)
    ensures
        r.code@ == code@,
        r.provider@ == d.provider@,
        r.model@ == d.model@,
        r.message@ == message@,
{
    CatalogRejection {
        code: String::from_str(code),
        provider: d.provider.clone(),
        model: d.model.clone(),
        message: String::from_str(message),
    }
}

/// The entries accepted among the first `n`, in discovery order.
pub open spec fn accepted_among(items: Seq<DiscoveredRoute>, n: int) -> Seq<(int, Seq<char>)>
    decreases n,
{
    if n <= 0 {
        Seq::empty()
    } else if verdict(items, n - 1) == ImportVerdict::Accepted {
        accepted_among(items, n - 1).push((n - 1, identity_of(items[n - 1])))
    } else {
        accepted_among(items, n - 1)
    }
}

/// The rejections among the first `n` entries, in discovery order: provider,
/// model, code and message of each.
pub open spec fn rejected_among(items: Seq<DiscoveredRoute>, n: int) -> Seq<(Seq<char>, Seq<char>, Seq<char>, Seq<char>)>
    decreases n,
{
    if n <= 0 {
        Seq::empty()
    } else if verdict(items, n - 1) != ImportVerdict::Accepted {
        rejected_among(items, n - 1).push((items[n - 1].provider@, items[n - 1].model@, verdict_code(verdict(items, n - 1)),
            verdict_message(verdict(items, n - 1))))
    } else {
        rejected_among(items, n - 1)
    }
}

/// What an accepted route is: its position and identity.
pub open spec fn imported_view(r: ImportedRoute) -> (int, Seq<char>) {
    (r.index as int, r.route@)
}

/// What a rejection is: provider, model, code and message.
pub open spec fn rejection_view(r: CatalogRejection) -> (Seq<char>, Seq<char>, Seq<char>, Seq<char>) {
    (r.provider@, r.model@, r.code@, r.message@)
}

impl DshCatalogBridge {
    /// Decides, entry by entry, which discovered routes enter the catalog: an
    /// OpenCode entry needs every cost proven zero, the identity must be a
    /// valid route, and an identity is accepted once. Accepted routes are
    /// ordered by identity, rejections by provider, model and code. Every
    /// accepted route starts in the probe-and-test class.
    pub fn import(items: &Vec<DiscoveredRoute>) -> (plan: CatalogImportPlan)
        ensures
            sorted_by(plan.routes@),
            sorted_by(plan.rejected@),
            plan.routes@.map_values(|r: ImportedRoute| imported_view(r)).to_multiset()
                == accepted_among(items@, items@.len() as int).to_multiset(),
            plan.rejected@.map_values(|r: CatalogRejection| rejection_view(r)).to_multiset()
                == rejected_among(items@, items@.len() as int).to_multiset(),
            forall|j: int| 0 <= j < plan.routes@.len() ==> (#[trigger] plan.routes@[j]).class == CatalogClass::ProbeTest,
    {
        let mut routes: Vec<ImportedRoute> = Vec::new();
        let mut rejected: Vec<CatalogRejection> = Vec::new();
        let mut seen: Vec<String> = Vec::new();
        proof {
            reveal_strlit("opencode");
            reveal_strlit("opencode_cost_not_proven_zero");
            reveal_strlit("invalid_route_ref");
            reveal_strlit("duplicate_route_ref");
        }
        let mut i: usize = 0;
        while i < items.len()
            invariant
                i <= items@.len(),
                routes@.map_values(|r: ImportedRoute| imported_view(r)) == accepted_among(items@, i as int),
                rejected@.map_values(|r: CatalogRejection| rejection_view(r)) == rejected_among(items@, i as int),
                forall|x: Seq<char>| seen@.map_values(|s: String| s@).contains(x) <==> #[trigger] accepted_identities(items@, i as int).contains(x),
                forall|j: int| 0 <= j < routes@.len() ==> (#[trigger] routes@[j]).class == CatalogClass::ProbeTest,
            decreases items@.len() - i,
        {
            let d = &items[i];
            let ghost before_routes = routes@;
            let ghost before_rejected = rejected@;
            let ghost before_seen = seen@;
            let v = if d.provider == String::from_str("opencode") && !d.cost_proven_zero {
                ImportVerdict::CostNotProvenZero
            } else {
                let id = identity(d);
                match RouteRef::parse(id.as_str()) {
                    None => ImportVerdict::InvalidRouteRef,
                    Some(route) => {
                        if contains_text(&seen, &id) {
                            ImportVerdict::DuplicateRouteRef
                        } else {
                            seen.push(id);
                            routes.push(ImportedRoute { index: i, route, class: CatalogClass::ProbeTest });
                            ImportVerdict::Accepted
                        }
                    },
                }
            };
            match v {
                ImportVerdict::CostNotProvenZero => rejected.push(
                    rejection("opencode_cost_not_proven_zero", d, "every OpenCode cost component must be known, finite and zero"),
                ),
                ImportVerdict::InvalidRouteRef => rejected.push(
                    rejection("invalid_route_ref", d, "provider, model or revision is not a safe route segment"),
                ),
                ImportVerdict::DuplicateRouteRef => rejected.push(
                    rejection("duplicate_route_ref", d, "DSH discovery returned the same exact route more than once"),
                ),
                ImportVerdict::Accepted => {},
            }
            proof {
                reveal_strlit("opencode");
                let dd = items@[i as int];
                if dd.provider@ == "opencode"@ && !dd.cost_proven_zero {
                    assert(v == ImportVerdict::CostNotProvenZero);
                } else if !is_route_text(identity_of(dd)) {
                    assert(v == ImportVerdict::InvalidRouteRef);
                } else if accepted_identities(items@, i as int).contains(identity_of(dd)) {
                    assert(v == ImportVerdict::DuplicateRouteRef);
                } else {
                    assert(v == ImportVerdict::Accepted);
                }
                assert(v == verdict(items@, i as int));
                if v == ImportVerdict::Accepted {
                    assert(accepted_identities(items@, i + 1) == accepted_identities(items@, i as int).insert(identity_of(dd)));
                } else {
                    assert(accepted_identities(items@, i + 1) == accepted_identities(items@, i as int));
                }
                if v == ImportVerdict::Accepted {
                    assert(routes@.map_values(|r: ImportedRoute| imported_view(r)) =~= before_routes.map_values(|r: ImportedRoute| imported_view(r)).push((i as int, identity_of(items@[i as int]))));
                    assert(seen@.map_values(|s: String| s@) =~= before_seen.map_values(|s: String| s@).push(identity_of(items@[i as int])));
                    assert forall|x: Seq<char>| seen@.map_values(|s: String| s@).contains(x) <==> #[trigger] accepted_identities(items@, i + 1).contains(x) by {
                        if seen@.map_values(|s: String| s@).contains(x) {
                            let m = seen@.map_values(|s: String| s@);
                            let k = choose|k: int| 0 <= k < m.len() && #[trigger] m[k] == x;
                            if k < before_seen.len() {
                                assert(before_seen.map_values(|s: String| s@)[k] == x);
                            }
                        }
                        if before_seen.map_values(|s: String| s@).contains(x) {
                            let m = before_seen.map_values(|s: String| s@);
                            let k = choose|k: int| 0 <= k < m.len() && #[trigger] m[k] == x;
                            assert(seen@.map_values(|s: String| s@)[k] == x);
                        }
                        assert(seen@.map_values(|s: String| s@)[before_seen.len() as int] == identity_of(items@[i as int]));
                    }
                    assert(rejected@ == before_rejected);
                } else {
                    assert(rejected@.map_values(|r: CatalogRejection| rejection_view(r)) =~= before_rejected.map_values(|r: CatalogRejection| rejection_view(r)).push(
                        (items@[i as int].provider@, items@[i as int].model@, verdict_code(v), verdict_message(v))));
                    assert(routes@ == before_routes);
                    assert(seen@ == before_seen);
                }
            }
            i = i + 1;
        }
        let ghost all_routes = routes@;
        let ghost all_rejected = rejected@;
        let routes = sort(routes);
        let rejected = sort(rejected);
        proof {
            lemma_map_multiset(all_routes, routes@, |r: ImportedRoute| imported_view(r));
            lemma_map_multiset(all_rejected, rejected@, |r: CatalogRejection| rejection_view(r));
            assert forall|j: int| 0 <= j < routes@.len() implies (#[trigger] routes@[j]).class == CatalogClass::ProbeTest by {
                let r = routes@[j];
                assert(routes@.contains(r));
                vstd::seq_lib::to_multiset_contains(routes@, r);
                vstd::seq_lib::to_multiset_contains(all_routes, r);
                let k = choose|k: int| 0 <= k < all_routes.len() && all_routes[k] == r;
                assert(all_routes[k].class == CatalogClass::ProbeTest);
            }
        }
        CatalogImportPlan { routes, rejected }
    }
}

pub proof fn lemma_map_multiset<A, B>(s: Seq<A>, t: Seq<A>, f: spec_fn(A) -> B)
    requires
        s.to_multiset() == t.to_multiset(),
    ensures
        s.map_values(f).to_multiset() == t.map_values(f).to_multiset(),
    decreases s.len(),
{
    broadcast use vstd::multiset::group_multiset_axioms, vstd::seq_lib::group_to_multiset_ensures;
    if s.len() == 0 {
        vstd::seq_lib::to_multiset_len(t);
        assert(t.len() == 0);
        assert(s.map_values(f) =~= t.map_values(f));
    } else {
        let x = s[0];
        vstd::seq_lib::to_multiset_contains(s, x);
        vstd::seq_lib::to_multiset_contains(t, x);
        assert(s.contains(x));
        assert(t.contains(x));
        let k = choose|k: int| 0 <= k < t.len() && t[k] == x;
        let s1 = s.remove(0);
        let t1 = t.remove(k);
        vstd::seq_lib::to_multiset_remove(s, 0);
        vstd::seq_lib::to_multiset_remove(t, k);
        lemma_map_multiset(s1, t1, f);
        let ms = s.map_values(f);
        let mt = t.map_values(f);
        assert(ms.remove(0) =~= s1.map_values(f));
        assert(mt.remove(k) =~= t1.map_values(f));
        vstd::seq_lib::to_multiset_remove(ms, 0);
        vstd::seq_lib::to_multiset_remove(mt, k);
        vstd::seq_lib::to_multiset_contains(ms, f(x));
        vstd::seq_lib::to_multiset_contains(mt, f(x));
        assert(ms[0] == f(x));
        assert(mt[k] == f(x));
        assert(ms.contains(f(x)));
        assert(mt.contains(f(x)));
        assert(ms.to_multiset() =~= ms.to_multiset().remove(f(x)).insert(f(x)));
        assert(mt.to_multiset() =~= mt.to_multiset().remove(f(x)).insert(f(x)));
    }
}

/// Whether a list of texts holds one.
pub fn contains_text(v: &Vec<String>, s: &String) -> (r: bool)
    ensures
        r == v@.map_values(|t: String| t@).contains(s@),
{
    let mut i: usize = 0;
    while i < v.len()
        invariant
            i <= v@.len(),
            forall|j: int| 0 <= j < i ==> (#[trigger] v@[j])@ != s@,
        decreases v@.len() - i,
    {
        if v[i] == *s {
            assert(v@.map_values(|t: String| t@)[i as int] == s@);
            return true;
        }
        i = i + 1;
    }
    proof {
        if v@.map_values(|t: String| t@).contains(s@) {
            let m = v@.map_values(|t: String| t@);
            let k = choose|k: int| 0 <= k < m.len() && #[trigger] m[k] == s@;
            assert(v@[k]@ == s@);
        }
    }
    false
}

} // verus!
