//! Route selection: the gates every candidate must pass, and the choice among
//! the routes that pass them. Scores and costs are measured by the caller;
//! the selector receives where each score stands against the thresholds and
//! an integer key that orders the expected costs.

use vstd::prelude::*;
use vstd::string::*;

use crate::catalog::contains_text;
use crate::assembly::{has_text, strictly_sorted, unique_sorted};
use crate::discard::DiscardKind;
use crate::order::{lemma_bytes_lt_irreflexive, lemma_bytes_lt_transitive, lemma_text_lt_total, sort, sorted_by, text_less, text_lt, Ordered};
use crate::route::RouteRef;
use crate::seal::{seal_valid, validate_seal, AuthorizationDecision, DecisionSealV2, RouteClass, SelectionAuthorizations};
use crate::text::{is_blank, is_blank_text};
use crate::util::{copy_opt_string, copy_strings};

verus! {

/// Where a candidate's effective quality score stands against the minimum.
#[derive(Debug, Clone, Copy, PartialEq, Eq, Structural)]
pub enum ScoreStanding {
    /// There is no effective score.
    Missing,
    /// The score is below the absolute minimum.
    BelowMinimum,
    /// The score reaches the minimum.
    Sufficient,
}

/// What the gates read of a resolved request.
#[derive(Debug, Clone, PartialEq, Eq)]
pub struct GateRequest {
    /// Version of the document.
    pub schema_version: u16,
    /// Predicted tokens.
    pub predicted_tokens: u64,
    /// The minimum quality is finite and within `0..=100`.
    pub minimum_quality_valid: bool,
    /// The selection margin is finite and within `0..=100`.
    pub margin_valid: bool,
    /// Action.
    pub action: String,
    /// Production or probe.
    pub class: RouteClass,
    /// Required capabilities, each once, in their order.
    pub required_capabilities: Vec<String>,
    /// Minimum context.
    pub required_context: u64,
    /// Required reasoning effort, if any.
    pub effort: Option<String>,
    /// Decision instant, Unix seconds.
    pub now: u64,
    /// The selection follows a failure.
    pub fallback: bool,
    /// Extraordinary authorizations.
    pub authorizations: SelectionAuthorizations,
}

/// What the gates read of one candidate route.
#[derive(Debug, Clone, PartialEq, Eq)]
pub struct GateCandidate {
    /// Exact route.
    pub route: RouteRef,
    /// Enabled by policy.
    pub enabled: bool,
    /// Production or probe.
    pub class: RouteClass,
    /// Capabilities shown and still valid.
    pub capabilities: Vec<String>,
    /// The request's sensitivity fits within the route's ceiling.
    pub sensitivity_fits: bool,
    /// Usable context window.
    pub context_window: u64,
    /// Efforts the route honours.
    pub supported_efforts: Vec<String>,
    /// End of a cooldown, if any.
    pub cooldown_until: Option<u64>,
    /// Route of the quality projection.
    pub projection_route: RouteRef,
    /// Action of the quality projection.
    pub projection_action: String,
    /// Effective score against the minimum.
    pub score: ScoreStanding,
    /// The quality is independently verified.
    pub verified: bool,
    /// Listed as approved fallback.
    pub approved_fallback: bool,
    /// Costs are finite and not negative and the success rate lies in `0..=1`.
    pub economics_valid: bool,
    /// The expected cost of the request on this route is finite.
    pub cost_finite: bool,
    /// Latency p95, the first tie-break after the cost.
    pub latency_p95_ms: u64,
    /// Human alias of the route, if the policy gives one.
    pub alias: Option<String>,
    /// Hash of the evidence behind the route's quality projection.
    pub evidence_hash: String,
}

/// One independent reason why a route did not win; measured scores stay with the caller.
#[derive(Debug, Clone, PartialEq, Eq)]
pub enum Reason {
    /// Disabled by policy.
    Disabled,
    /// Incompatible class.
    ClassMismatch,
    /// A required capability is missing.
    MissingCapability(String),
    /// The sensitivity ceiling is too low.
    SensitivityTooHigh,
    /// The context window is too small.
    ContextTooSmall {
        /// Usable context.
        available: u64,
        /// Required context.
        required: u64,
    },
    /// The required effort is not honoured.
    UnsupportedEffort(String),
    /// Still cooling down until the instant.
    Cooldown(u64),
    /// The projection belongs to another route or action.
    ProjectionMismatch,
    /// No effective score.
    NoQualityScore,
    /// Below the absolute minimum.
    BelowMinimum,
    /// Quality not independently verified.
    UnverifiedQuality,
    /// Not approved as fallback.
    UnapprovedFallback,
    /// Outside the selection margin.
    OutsideSelectionMargin,
    /// Another finalist had a lower expected cost.
    HigherExpectedCost,
    /// Invalid or unknown economics.
    InvalidEconomics,
}

/// Kind of each reason.
pub open spec fn kind_of(r: Reason) -> DiscardKind {
    match r {
        Reason::Disabled => DiscardKind::Disabled,
        Reason::ClassMismatch => DiscardKind::ClassMismatch,
        Reason::MissingCapability(_) => DiscardKind::MissingCapability,
        Reason::SensitivityTooHigh => DiscardKind::SensitivityTooHigh,
        Reason::ContextTooSmall { .. } => DiscardKind::ContextTooSmall,
        Reason::UnsupportedEffort(_) => DiscardKind::UnsupportedEffort,
        Reason::Cooldown(_) => DiscardKind::Cooldown,
        Reason::ProjectionMismatch => DiscardKind::ProjectionMismatch,
        Reason::NoQualityScore => DiscardKind::NoQualityScore,
        Reason::BelowMinimum => DiscardKind::BelowMinimum,
        Reason::UnverifiedQuality => DiscardKind::UnverifiedQuality,
        Reason::UnapprovedFallback => DiscardKind::UnapprovedFallback,
        Reason::OutsideSelectionMargin => DiscardKind::OutsideSelectionMargin,
        Reason::HigherExpectedCost => DiscardKind::HigherExpectedCost,
        Reason::InvalidEconomics => DiscardKind::InvalidEconomics,
    }
}

impl Reason {
    /// The public kind of the reason.
    pub fn kind(&self) -> (k: DiscardKind)
        ensures
            k == kind_of(*self),
    {
        match self {
            Reason::Disabled => DiscardKind::Disabled,
            Reason::ClassMismatch => DiscardKind::ClassMismatch,
            Reason::MissingCapability(_) => DiscardKind::MissingCapability,
            Reason::SensitivityTooHigh => DiscardKind::SensitivityTooHigh,
            Reason::ContextTooSmall { .. } => DiscardKind::ContextTooSmall,
            Reason::UnsupportedEffort(_) => DiscardKind::UnsupportedEffort,
            Reason::Cooldown(_) => DiscardKind::Cooldown,
            Reason::ProjectionMismatch => DiscardKind::ProjectionMismatch,
            Reason::NoQualityScore => DiscardKind::NoQualityScore,
            Reason::BelowMinimum => DiscardKind::BelowMinimum,
            Reason::UnverifiedQuality => DiscardKind::UnverifiedQuality,
            Reason::UnapprovedFallback => DiscardKind::UnapprovedFallback,
            Reason::OutsideSelectionMargin => DiscardKind::OutsideSelectionMargin,
            Reason::HigherExpectedCost => DiscardKind::HigherExpectedCost,
            Reason::InvalidEconomics => DiscardKind::InvalidEconomics,
        }
    }
}

/// The reason alone when the condition holds, nothing otherwise.
pub open spec fn when(c: bool, r: Reason) -> Seq<Reason> {
    if c {
        seq![r]
    } else {
        Seq::empty()
    }
}

/// Whether a list of texts holds the text.
pub open spec fn holds_text(v: Seq<String>, s: Seq<char>) -> bool {
    v.map_values(|t: String| t@).contains(s)
}

/// The required capabilities that the route lacks, in the request's order.
pub open spec fn missing_capabilities(required: Seq<String>, have: Seq<String>) -> Seq<Reason>
    decreases required.len(),
{
    if required.len() == 0 {
        Seq::empty()
    } else {
        missing_capabilities(required.drop_last(), have) + when(
            !holds_text(have, required.last()@),
            Reason::MissingCapability(required.last()),
        )
    }
}

/// The effort gate.
pub open spec fn effort_reasons(r: GateRequest, c: GateCandidate) -> Seq<Reason> {
    match r.effort {
        Some(e) => when(!holds_text(c.supported_efforts@, e@), Reason::UnsupportedEffort(e)),
        None => Seq::empty(),
    }
}

/// The cooldown gate.
pub open spec fn cooldown_reasons(r: GateRequest, c: GateCandidate) -> Seq<Reason> {
    match c.cooldown_until {
        Some(until) => when(until > r.now, Reason::Cooldown(until)),
        None => Seq::empty(),
    }
}

/// The score gate.
pub open spec fn score_reasons(c: GateCandidate) -> Seq<Reason> {
    match c.score {
        ScoreStanding::Missing => seq![Reason::NoQualityScore],
        ScoreStanding::BelowMinimum => seq![Reason::BelowMinimum],
        ScoreStanding::Sufficient => Seq::empty(),
    }
}

/// Gates up to the context window.
pub open spec fn first_reasons(r: GateRequest, c: GateCandidate) -> Seq<Reason> {
    when(!c.enabled, Reason::Disabled) + when(c.class != r.class, Reason::ClassMismatch)
        + missing_capabilities(r.required_capabilities@, c.capabilities@) + when(
        !c.sensitivity_fits,
        Reason::SensitivityTooHigh,
    ) + when(
        c.context_window < r.required_context,
        Reason::ContextTooSmall { available: c.context_window, required: r.required_context },
    )
}

/// Gates from the effort to the score.
pub open spec fn middle_reasons(r: GateRequest, c: GateCandidate) -> Seq<Reason> {
    effort_reasons(r, c) + cooldown_reasons(r, c) + when(
        c.projection_route@ != c.route@ || c.projection_action@ != r.action@,
        Reason::ProjectionMismatch,
    ) + score_reasons(c)
}

/// Gates of verification, fallback approval and economics.
pub open spec fn tail_reasons(r: GateRequest, c: GateCandidate) -> Seq<Reason> {
    when(!c.verified && !r.authorizations.allow_unverified_quality.permitted, Reason::UnverifiedQuality)
        + when(
        r.fallback && !c.approved_fallback && !r.authorizations.allow_any_eligible.permitted,
        Reason::UnapprovedFallback,
    ) + when(!c.economics_valid, Reason::InvalidEconomics)
}

/// Gates from the effort on.
pub open spec fn last_reasons(r: GateRequest, c: GateCandidate) -> Seq<Reason> {
    middle_reasons(r, c) + tail_reasons(r, c)
}

/// Every gate the candidate fails, in the order the gates are checked.
#[verifier::opaque]
pub open spec fn gate_reasons(r: GateRequest, c: GateCandidate) -> Seq<Reason> {
    first_reasons(r, c) + last_reasons(r, c)
}

/// Appends the reason when the condition holds.
fn push_when(out: &mut Vec<Reason>, c: bool, r: Reason)
    ensures
        final(out)@ == old(out)@ + when(c, r),
{
    if c {
        out.push(r);
    } else {
        assert(old(out)@ + when(c, r) =~= old(out)@);
    }
}

/// Appends one reason per required capability that the route lacks.
fn push_missing(out: &mut Vec<Reason>, required: &Vec<String>, have: &Vec<String>)
    ensures
        final(out)@ == old(out)@ + missing_capabilities(required@, have@),
{
    let ghost start = out@;
    let mut i: usize = 0;
    assert(required@.subrange(0, 0) =~= Seq::<String>::empty());
    assert(start + missing_capabilities(Seq::<String>::empty(), have@) =~= start);
    while i < required.len()
        invariant
            i <= required@.len(),
            out@ == start + missing_capabilities(required@.subrange(0, i as int), have@),
        decreases required@.len() - i,
    {
        let found = contains_text(have, &required[i]);
        let ghost before = out@;
        push_when(out, !found, Reason::MissingCapability(required[i].clone()));
        proof {
            let next = required@.subrange(0, i + 1);
            assert(next.drop_last() =~= required@.subrange(0, i as int));
            assert(next.last() == required@[i as int]);
            assert(out@ =~= start + missing_capabilities(next, have@));
        }
        i = i + 1;
    }
    assert(required@.subrange(0, required@.len() as int) =~= required@);
}

/// Appends the gates up to the context window.
fn push_first(out: &mut Vec<Reason>, request: &GateRequest, candidate: &GateCandidate)
    ensures
        final(out)@ == old(out)@ + first_reasons(*request, *candidate),
{
    let ghost start = out@;
    push_when(out, !candidate.enabled, Reason::Disabled);
    push_when(out, candidate.class != request.class, Reason::ClassMismatch);
    push_missing(out, &request.required_capabilities, &candidate.capabilities);
    push_when(out, !candidate.sensitivity_fits, Reason::SensitivityTooHigh);
    push_when(
        out,
        candidate.context_window < request.required_context,
        Reason::ContextTooSmall { available: candidate.context_window, required: request.required_context },
    );
    assert(out@ =~= start + first_reasons(*request, *candidate));
}

/// Appends the effort gate.
fn push_effort(out: &mut Vec<Reason>, request: &GateRequest, candidate: &GateCandidate)
    ensures
        final(out)@ == old(out)@ + effort_reasons(*request, *candidate),
{
    match &request.effort {
        Some(effort) => {
            let supported = contains_text(&candidate.supported_efforts, effort);
            push_when(out, !supported, Reason::UnsupportedEffort(effort.clone()));
        },
        None => {
            assert(old(out)@ + effort_reasons(*request, *candidate) =~= old(out)@);
        },
    }
}

/// Appends the cooldown gate.
fn push_cooldown(out: &mut Vec<Reason>, request: &GateRequest, candidate: &GateCandidate)
    ensures
        final(out)@ == old(out)@ + cooldown_reasons(*request, *candidate),
{
    match candidate.cooldown_until {
        Some(until) => {
            push_when(out, until > request.now, Reason::Cooldown(until));
        },
        None => {
            assert(old(out)@ + cooldown_reasons(*request, *candidate) =~= old(out)@);
        },
    }
}

/// Appends the score gate.
fn push_score(out: &mut Vec<Reason>, candidate: &GateCandidate)
    ensures
        final(out)@ == old(out)@ + score_reasons(*candidate),
{
    match candidate.score {
        ScoreStanding::Missing => {
            out.push(Reason::NoQualityScore);
            assert(out@ =~= old(out)@ + score_reasons(*candidate));
        },
        ScoreStanding::BelowMinimum => {
            out.push(Reason::BelowMinimum);
            assert(out@ =~= old(out)@ + score_reasons(*candidate));
        },
        ScoreStanding::Sufficient => {
            assert(old(out)@ + score_reasons(*candidate) =~= old(out)@);
        },
    }
}

/// Appends the gates from the effort to the score.
fn push_middle(out: &mut Vec<Reason>, request: &GateRequest, candidate: &GateCandidate)
    ensures
        final(out)@ == old(out)@ + middle_reasons(*request, *candidate),
{
    let ghost start = out@;
    push_effort(out, request, candidate);
    push_cooldown(out, request, candidate);
    let same_route = candidate.projection_route.same_as(&candidate.route);
    let same_action = candidate.projection_action == request.action;
    push_when(out, !same_route || !same_action, Reason::ProjectionMismatch);
    push_score(out, candidate);
    assert(out@ =~= start + middle_reasons(*request, *candidate));
}

/// Appends the gates of verification, fallback approval and economics.
fn push_tail(out: &mut Vec<Reason>, request: &GateRequest, candidate: &GateCandidate)
    ensures
        final(out)@ == old(out)@ + tail_reasons(*request, *candidate),
{
    let ghost start = out@;
    push_when(
        out,
        !candidate.verified && !request.authorizations.allow_unverified_quality.permitted,
        Reason::UnverifiedQuality,
    );
    push_when(
        out,
        request.fallback && !candidate.approved_fallback
            && !request.authorizations.allow_any_eligible.permitted,
        Reason::UnapprovedFallback,
    );
    push_when(out, !candidate.economics_valid, Reason::InvalidEconomics);
    assert(out@ =~= start + tail_reasons(*request, *candidate));
}

/// The missing-capability gate only ever reports missing capabilities.
proof fn lemma_missing_only_capabilities(required: Seq<String>, have: Seq<String>)
    ensures
        forall|x: Reason| #[trigger] missing_capabilities(required, have).contains(x) ==> x is MissingCapability,
    decreases required.len(),
{
    broadcast use vstd::seq_lib::lemma_seq_concat_contains_all_elements;
    if required.len() > 0 {
        lemma_missing_only_capabilities(required.drop_last(), have);
        let w = when(!holds_text(have, required.last()@), Reason::MissingCapability(required.last()));
        assert forall|x: Reason| #[trigger] w.contains(x) implies x is MissingCapability by {
            assert(w.len() > 0 && w[0] == x);
        }
        let m = missing_capabilities(required, have);
        assert(m == missing_capabilities(required.drop_last(), have) + w);
        assert forall|x: Reason| #[trigger] m.contains(x) implies x is MissingCapability by {
            assert(missing_capabilities(required.drop_last(), have).contains(x) || w.contains(x));
        }
    } else {
        assert forall|x: Reason| #[trigger] missing_capabilities(required, have).contains(x) implies x is MissingCapability by {
            assert(missing_capabilities(required, have).len() == 0);
        }
    }
}

/// A one-reason check reports a reason exactly when its condition holds and it is that reason.
proof fn lemma_when_contains(b: bool, y: Reason, x: Reason)
    ensures
        #[trigger] when(b, y).contains(x) <==> b && x == y,
{
    if b {
        assert(when(b, y)[0] == y);
    }
}

/// The missing-capability gate reports exactly the required capabilities the route lacks.
proof fn lemma_missing_contains(required: Seq<String>, have: Seq<String>, x: Reason)
    ensures
        missing_capabilities(required, have).contains(x) <==> (x matches Reason::MissingCapability(cap)
            && required.contains(cap) && !holds_text(have, cap@)),
    decreases required.len(),
{
    broadcast use vstd::seq_lib::lemma_seq_concat_contains_all_elements;
    if required.len() > 0 {
        let last = required.last();
        let prev = required.drop_last();
        lemma_missing_contains(prev, have, x);
        lemma_when_contains(!holds_text(have, last@), Reason::MissingCapability(last), x);
        assert(missing_capabilities(required, have)
            == missing_capabilities(prev, have) + when(!holds_text(have, last@), Reason::MissingCapability(last)));
        if let Reason::MissingCapability(cap) = x {
            if required.contains(cap) {
                let k = choose|k: int| 0 <= k < required.len() && required[k] == cap;
                if k < required.len() - 1 {
                    assert(prev[k] == cap);
                }
            }
            if prev.contains(cap) {
                let k = choose|k: int| 0 <= k < prev.len() && prev[k] == cap;
                assert(required[k] == cap);
            }
            assert(required[required.len() - 1] == last);
        }
    } else {
        if let Reason::MissingCapability(cap) = x {
            assert(!required.contains(cap));
        }
    }
}

/// The check a reason belongs to refuses the candidate: the meaning of each
/// reason, independent of the order in which the gates are checked.
pub open spec fn check_refuses(r: GateRequest, c: GateCandidate, x: Reason) -> bool {
    match x {
        Reason::Disabled => !c.enabled,
        Reason::ClassMismatch => c.class != r.class,
        Reason::MissingCapability(cap) => r.required_capabilities@.contains(cap) && !holds_text(c.capabilities@, cap@),
        Reason::SensitivityTooHigh => !c.sensitivity_fits,
        Reason::ContextTooSmall { available, required } => c.context_window < r.required_context
            && available == c.context_window && required == r.required_context,
        Reason::UnsupportedEffort(e) => r.effort == Some(e) && !holds_text(c.supported_efforts@, e@),
        Reason::Cooldown(until) => c.cooldown_until == Some(until) && until > r.now,
        Reason::ProjectionMismatch => c.projection_route@ != c.route@ || c.projection_action@ != r.action@,
        Reason::NoQualityScore => c.score is Missing,
        Reason::BelowMinimum => c.score is BelowMinimum,
        Reason::UnverifiedQuality => !c.verified && !r.authorizations.allow_unverified_quality.permitted,
        Reason::UnapprovedFallback => r.fallback && !c.approved_fallback && !r.authorizations.allow_any_eligible.permitted,
        Reason::OutsideSelectionMargin => false,
        Reason::HigherExpectedCost => false,
        Reason::InvalidEconomics => !c.economics_valid,
    }
}

/// The reasons of the gates up to the context window.
spec fn first_kind(x: Reason) -> bool {
    x is Disabled || x is ClassMismatch || x is MissingCapability || x is SensitivityTooHigh || x is ContextTooSmall
}

/// The reasons of the gates from the effort to the score.
spec fn middle_kind(x: Reason) -> bool {
    x is UnsupportedEffort || x is Cooldown || x is ProjectionMismatch || x is NoQualityScore || x is BelowMinimum
}

proof fn lemma_first_contains(r: GateRequest, c: GateCandidate, x: Reason)
    ensures
        first_reasons(r, c).contains(x) <==> first_kind(x) && check_refuses(r, c, x),
{
    broadcast use vstd::seq_lib::lemma_seq_concat_contains_all_elements;
    lemma_missing_contains(r.required_capabilities@, c.capabilities@, x);
    lemma_when_contains(!c.enabled, Reason::Disabled, x);
    lemma_when_contains(c.class != r.class, Reason::ClassMismatch, x);
    lemma_when_contains(!c.sensitivity_fits, Reason::SensitivityTooHigh, x);
    lemma_when_contains(c.context_window < r.required_context,
        Reason::ContextTooSmall { available: c.context_window, required: r.required_context }, x);
}

proof fn lemma_middle_contains(r: GateRequest, c: GateCandidate, x: Reason)
    ensures
        middle_reasons(r, c).contains(x) <==> middle_kind(x) && check_refuses(r, c, x),
{
    broadcast use vstd::seq_lib::lemma_seq_concat_contains_all_elements;
    lemma_when_contains(c.projection_route@ != c.route@ || c.projection_action@ != r.action@, Reason::ProjectionMismatch, x);
    match r.effort {
        Some(e) => lemma_when_contains(!holds_text(c.supported_efforts@, e@), Reason::UnsupportedEffort(e), x),
        None => {},
    }
    match c.cooldown_until {
        Some(u) => lemma_when_contains(u > r.now, Reason::Cooldown(u), x),
        None => {},
    }
    if score_reasons(c).contains(x) {
        assert(score_reasons(c)[0] == x);
    }
    if x is NoQualityScore && c.score is Missing {
        assert(score_reasons(c)[0] == x);
    }
    if x is BelowMinimum && c.score is BelowMinimum {
        assert(score_reasons(c)[0] == x);
    }
}

proof fn lemma_tail_contains(r: GateRequest, c: GateCandidate, x: Reason)
    ensures
        tail_reasons(r, c).contains(x) <==> (x is UnverifiedQuality || x is UnapprovedFallback || x is InvalidEconomics)
            && check_refuses(r, c, x),
{
    broadcast use vstd::seq_lib::lemma_seq_concat_contains_all_elements;
    lemma_when_contains(!c.verified && !r.authorizations.allow_unverified_quality.permitted, Reason::UnverifiedQuality, x);
    lemma_when_contains(r.fallback && !c.approved_fallback && !r.authorizations.allow_any_eligible.permitted,
        Reason::UnapprovedFallback, x);
    lemma_when_contains(!c.economics_valid, Reason::InvalidEconomics, x);
}

/// Law: the checks report a reason exactly when the check it names refuses the
/// candidate, so a candidate passes every check exactly when none refuses it. In particular an
/// approved fallback route, or any route of a first selection, is never
/// refused as an unapproved fallback.
pub proof fn law_gate_reasons_are_the_failed_gates(r: GateRequest, c: GateCandidate)
    ensures
        forall|x: Reason| #[trigger] gate_reasons(r, c).contains(x) <==> check_refuses(r, c, x),
        gate_reasons(r, c).len() == 0 <==> forall|x: Reason| !#[trigger] check_refuses(r, c, x),
{
    broadcast use vstd::seq_lib::lemma_seq_concat_contains_all_elements;
    reveal(gate_reasons);
    assert forall|x: Reason| #[trigger] gate_reasons(r, c).contains(x) <==> check_refuses(r, c, x) by {
        lemma_first_contains(r, c, x);
        lemma_middle_contains(r, c, x);
        lemma_tail_contains(r, c, x);
        assert(gate_reasons(r, c) == first_reasons(r, c) + (middle_reasons(r, c) + tail_reasons(r, c)));
    }
    if gate_reasons(r, c).len() > 0 {
        assert(gate_reasons(r, c).contains(gate_reasons(r, c)[0]));
    }
    if exists|x: Reason| #[trigger] check_refuses(r, c, x) {
        let x = choose|x: Reason| #[trigger] check_refuses(r, c, x);
        assert(gate_reasons(r, c).contains(x));
    }
}

/// A route is refused as an unapproved fallback exactly when the selection is
/// a fallback, the route is not approved for fallback and no authorisation
/// allows any eligible route: an approved fallback route, or any route of a
/// first selection, never carries that reason.
pub proof fn law_unapproved_fallback_only_when_unapproved(r: GateRequest, c: GateCandidate)
    ensures
        gate_reasons(r, c).contains(Reason::UnapprovedFallback)
            <==> r.fallback && !c.approved_fallback && !r.authorizations.allow_any_eligible.permitted,
        c.approved_fallback ==> !gate_reasons(r, c).contains(Reason::UnapprovedFallback),
        !r.fallback ==> !gate_reasons(r, c).contains(Reason::UnapprovedFallback),
{
    broadcast use vstd::seq_lib::lemma_seq_concat_contains_all_elements;
    reveal(gate_reasons);
    let u = Reason::UnapprovedFallback;
    lemma_missing_only_capabilities(r.required_capabilities@, c.capabilities@);
    assert forall|b: bool, x: Reason| x != u implies !(#[trigger] when(b, x)).contains(u) by {
        if when(b, x).contains(u) {
            assert(when(b, x)[0] == u);
        }
    }
    assert(!missing_capabilities(r.required_capabilities@, c.capabilities@).contains(u));
    assert(!effort_reasons(r, c).contains(u)) by {
        if effort_reasons(r, c).contains(u) {
            assert(effort_reasons(r, c)[0] == u);
        }
    }
    assert(!cooldown_reasons(r, c).contains(u)) by {
        if cooldown_reasons(r, c).contains(u) {
            assert(cooldown_reasons(r, c)[0] == u);
        }
    }
    assert(!score_reasons(c).contains(u)) by {
        if score_reasons(c).contains(u) {
            assert(score_reasons(c)[0] == u);
        }
    }
    let cond = r.fallback && !c.approved_fallback && !r.authorizations.allow_any_eligible.permitted;
    if cond {
        assert(when(cond, u)[0] == u);
    } else {
        assert(!when(cond, u).contains(u));
    }
}

/// Every gate a candidate fails, in the order the gates are checked.
pub fn filter_reasons(request: &GateRequest, candidate: &GateCandidate) -> (out: Vec<Reason>)
    ensures
        out@ == gate_reasons(*request, *candidate),
        out@.contains(Reason::UnapprovedFallback)
            <==> request.fallback && !candidate.approved_fallback && !request.authorizations.allow_any_eligible.permitted,
        forall|x: Reason| #[trigger] out@.contains(x) <==> check_refuses(*request, *candidate, x),
{
    proof {
        law_unapproved_fallback_only_when_unapproved(*request, *candidate);
        law_gate_reasons_are_the_failed_gates(*request, *candidate);
    }
    let mut out: Vec<Reason> = Vec::new();
    push_first(&mut out, request, candidate);
    push_middle(&mut out, request, candidate);
    push_tail(&mut out, request, candidate);
    reveal(gate_reasons);
    assert(out@ =~= gate_reasons(*request, *candidate));
    out
}


/// A route that did not win, with every reason why.
#[derive(Debug, Clone, PartialEq, Eq)]
pub struct Discarded {
    /// Position of the candidate.
    pub index: usize,
    /// Route evaluated.
    pub route: RouteRef,
    /// Independent reasons.
    pub reasons: Vec<Reason>,
}

impl View for Discarded {
    type V = (usize, Seq<char>, Seq<Reason>);

    open spec fn view(&self) -> (usize, Seq<char>, Seq<Reason>) {
        (self.index, self.route@, self.reasons@)
    }
}

/// Candidates after the gates: those that passed, and those discarded.
#[derive(Debug, Clone, PartialEq, Eq)]
pub struct Sifted {
    /// Positions of the eligible candidates, in candidate order.
    pub eligible: Vec<usize>,
    /// Discarded candidates, in candidate order.
    pub discarded: Vec<Discarded>,
}

/// The candidate passes every gate and its expected cost is finite.
pub open spec fn passes(r: GateRequest, c: GateCandidate) -> bool {
    gate_reasons(r, c).len() == 0 && c.cost_finite
}

/// Reasons of a discarded candidate: its failed gates, or invalid economics
/// when it passed them with an infinite expected cost.
pub open spec fn final_reasons(r: GateRequest, c: GateCandidate) -> Seq<Reason> {
    if gate_reasons(r, c).len() == 0 {
        when(!c.cost_finite, Reason::InvalidEconomics)
    } else {
        gate_reasons(r, c)
    }
}

/// Positions of the eligible among the first `k` candidates.
pub open spec fn eligible_upto(r: GateRequest, cs: Seq<GateCandidate>, k: int) -> Seq<usize>
    decreases k,
{
    if k <= 0 {
        Seq::empty()
    } else if passes(r, cs[k - 1]) {
        eligible_upto(r, cs, k - 1).push((k - 1) as usize)
    } else {
        eligible_upto(r, cs, k - 1)
    }
}

/// Discards among the first `k` candidates: position, route and reasons.
pub open spec fn discards_upto(r: GateRequest, cs: Seq<GateCandidate>, k: int) -> Seq<(usize, Seq<char>, Seq<Reason>)>
    decreases k,
{
    if k <= 0 {
        Seq::empty()
    } else if passes(r, cs[k - 1]) {
        discards_upto(r, cs, k - 1)
    } else {
        discards_upto(r, cs, k - 1).push(((k - 1) as usize, cs[k - 1].route@, final_reasons(r, cs[k - 1])))
    }
}

/// Views of a list of discards.
pub open spec fn discard_views(v: Seq<Discarded>) -> Seq<(usize, Seq<char>, Seq<Reason>)> {
    v.map_values(|d: Discarded| d@)
}

/// Runs every gate over every candidate.
pub fn sift(request: &GateRequest, candidates: &Vec<GateCandidate>) -> (out: Sifted)
    ensures
        forall|j: int| 0 <= j < out.eligible@.len() ==> #[trigger] out.eligible@[j] < candidates@.len(),
        out.eligible@ == eligible_upto(*request, candidates@, candidates@.len() as int),
        discard_views(out.discarded@) == discards_upto(*request, candidates@, candidates@.len() as int),
{
    let mut eligible: Vec<usize> = Vec::new();
    let mut discarded: Vec<Discarded> = Vec::new();
    let mut i: usize = 0;
    while i < candidates.len()
        invariant
            i <= candidates@.len(),
            forall|j: int| 0 <= j < eligible@.len() ==> #[trigger] eligible@[j] < i,
            eligible@ == eligible_upto(*request, candidates@, i as int),
            discard_views(discarded@) == discards_upto(*request, candidates@, i as int),
        decreases candidates@.len() - i,
    {
        let candidate = &candidates[i];
        let mut reasons = filter_reasons(request, candidate);
        if reasons.len() == 0 && !candidate.cost_finite {
            reasons.push(Reason::InvalidEconomics);
        }
        proof {
            assert(reasons@ =~= final_reasons(*request, candidates@[i as int]));
        }
        if reasons.len() == 0 {
            eligible.push(i);
        } else {
            let ghost before = discarded@;
            discarded.push(Discarded { index: i, route: candidate.route.duplicate(), reasons });
            proof {
                assert(discard_views(discarded@) =~= discard_views(before).push(discarded@.last()@));
            }
        }
        i = i + 1;
    }
    Sifted { eligible, discarded }
}

/// Where an eligible candidate stands once the caller measured scores and costs.
#[derive(Debug, Clone, Copy, PartialEq, Eq, Structural)]
pub struct Standing {
    /// The score reaches the floor `max(minimum, Qmax - margin)`.
    pub within_margin: bool,
    /// Key that orders expected costs as their total order does.
    pub cost_key: u64,
}

/// The chosen route and every other one, discarded.
#[derive(Debug, Clone, PartialEq, Eq)]
pub struct Selection {
    /// Position of the chosen candidate.
    pub selected: usize,
    /// Every other candidate with its reasons, ordered by route.
    pub discarded: Vec<Discarded>,
}

/// A route decision but for its measured scores and expected cost, which the
/// caller adds: the chosen route with its alias and evidence, the hashes of
/// the single generation it was made on, the discards and the authorisations.
#[derive(Debug, Clone, PartialEq, Eq)]
pub struct DecisionRecord {
    /// Version of the request.
    pub schema_version: u16,
    /// Chosen route.
    pub route: RouteRef,
    /// Human alias, if any.
    pub alias: Option<String>,
    /// Hash of the evidence of the chosen route.
    pub evidence_hash: String,
    /// Hash of the policy used.
    pub policy_hash: String,
    /// Hash of the active manifest.
    pub manifest_hash: String,
    /// Hash of the active catalog.
    pub catalog_hash: String,
    /// Hash of the active health.
    pub health_hash: String,
    /// Hash of the capability index.
    pub capabilities_hash: String,
    /// Capability receipts used, in ascending order.
    pub capability_receipt_hashes: Vec<String>,
    /// Routes not chosen, with their reasons, ordered by route.
    pub discarded: Vec<Discarded>,
    /// Extraordinary authorisations.
    pub authorizations: SelectionAuthorizations,
}

/// Records a selection as a decision: the chosen candidate's route, alias and
/// evidence, every hash of the seal (its capability receipts in ascending
/// order, each once), the discards and the request's authorisations and version.
pub fn decision_record(request: &GateRequest, seal: &DecisionSealV2, candidates: &Vec<GateCandidate>, selection: Selection) -> (d: DecisionRecord)
    requires
        selection.selected < candidates@.len(),
    ensures
        ({
            let c = candidates@[selection.selected as int];
            &&& d.schema_version == request.schema_version
            &&& d.route == c.route
            &&& d.alias == c.alias
            &&& d.evidence_hash@ == c.evidence_hash@
            &&& d.policy_hash@ == seal.policy_hash@
            &&& d.manifest_hash@ == seal.manifest_hash@
            &&& d.catalog_hash@ == seal.catalog_hash@
            &&& d.health_hash@ == seal.health_hash@
            &&& d.capabilities_hash@ == seal.capabilities_hash@
            &&& strictly_sorted(d.capability_receipt_hashes@)
            &&& forall|x: Seq<char>| #![trigger has_text(d.capability_receipt_hashes@, x)]
                has_text(d.capability_receipt_hashes@, x) <==> has_text(seal.capability_receipt_hashes@, x)
            &&& d.discarded@ == selection.discarded@
            &&& d.authorizations == request.authorizations
        }),
{
    let c = &candidates[selection.selected];
    DecisionRecord {
        schema_version: request.schema_version,
        route: c.route.duplicate(),
        alias: copy_opt_string(&c.alias),
        evidence_hash: c.evidence_hash.clone(),
        policy_hash: seal.policy_hash.clone(),
        manifest_hash: seal.manifest_hash.clone(),
        catalog_hash: seal.catalog_hash.clone(),
        health_hash: seal.health_hash.clone(),
        capabilities_hash: seal.capabilities_hash.clone(),
        capability_receipt_hashes: unique_sorted(copy_strings(&seal.capability_receipt_hashes)),
        discarded: selection.discarded,
        authorizations: request.authorizations,
    }
}

/// Order of finalists: expected cost, then latency, then route.
pub open spec fn rank_lt(a: (u64, u64, Seq<char>), b: (u64, u64, Seq<char>)) -> bool {
    a.0 < b.0 || (a.0 == b.0 && (a.1 < b.1 || (a.1 == b.1 && text_lt(a.2, b.2))))
}

/// Rank of the `j`-th eligible candidate.
pub open spec fn rank(cs: Seq<GateCandidate>, el: Seq<usize>, st: Seq<Standing>, j: int) -> (u64, u64, Seq<char>) {
    (st[j].cost_key, cs[el[j] as int].latency_p95_ms, cs[el[j] as int].route@)
}

/// The `p`-th eligible candidate is the first finalist of least rank.
pub open spec fn is_choice(cs: Seq<GateCandidate>, el: Seq<usize>, st: Seq<Standing>, p: int) -> bool {
    &&& 0 <= p < el.len()
    &&& st[p].within_margin
    &&& forall|j: int| 0 <= j < el.len() && #[trigger] st[j].within_margin ==> !rank_lt(rank(cs, el, st, j), rank(cs, el, st, p))
    &&& forall|j: int| 0 <= j < p && #[trigger] st[j].within_margin ==> rank_lt(rank(cs, el, st, p), rank(cs, el, st, j))
}

/// The first finalist of least rank among the first `k` eligible, or `-1` when
/// none of them is a finalist.
pub open spec fn least_upto(cs: Seq<GateCandidate>, el: Seq<usize>, st: Seq<Standing>, k: int) -> int
    decreases k,
{
    if k <= 0 {
        -1
    } else {
        let q = least_upto(cs, el, st, k - 1);
        if st[k - 1].within_margin && (q < 0 || rank_lt(rank(cs, el, st, k - 1), rank(cs, el, st, q))) {
            k - 1
        } else {
            q
        }
    }
}

/// The eligible position that wins.
pub open spec fn chosen(cs: Seq<GateCandidate>, el: Seq<usize>, st: Seq<Standing>) -> int {
    least_upto(cs, el, st, el.len() as int)
}

/// The scan finds the first finalist of least rank, when there is a finalist.
pub proof fn lemma_least(cs: Seq<GateCandidate>, el: Seq<usize>, st: Seq<Standing>, k: int)
    requires
        0 <= k <= el.len(),
        el.len() == st.len(),
    ensures
        (exists|j: int| 0 <= j < k && #[trigger] st[j].within_margin) ==> {
            let q = least_upto(cs, el, st, k);
            &&& 0 <= q < k
            &&& st[q].within_margin
            &&& forall|j: int| 0 <= j < k && #[trigger] st[j].within_margin ==> !rank_lt(rank(cs, el, st, j), rank(cs, el, st, q))
            &&& forall|j: int| 0 <= j < q && #[trigger] st[j].within_margin ==> rank_lt(rank(cs, el, st, q), rank(cs, el, st, j))
        },
        !(exists|j: int| 0 <= j < k && #[trigger] st[j].within_margin) ==> least_upto(cs, el, st, k) == -1,
    decreases k,
{
    if k > 0 {
        lemma_least(cs, el, st, k - 1);
        let q = least_upto(cs, el, st, k - 1);
        let i = k - 1;
        if exists|j: int| 0 <= j < k - 1 && #[trigger] st[j].within_margin {
            if st[i].within_margin && rank_lt(rank(cs, el, st, i), rank(cs, el, st, q)) {
                let ri = rank(cs, el, st, i);
                let rq = rank(cs, el, st, q);
                lemma_rank_order(ri, ri, ri);
                assert forall|j: int| 0 <= j < k && #[trigger] st[j].within_margin implies !rank_lt(rank(cs, el, st, j), ri) by {
                    let rj = rank(cs, el, st, j);
                    lemma_rank_order(rj, ri, rq);
                }
                assert forall|j: int| 0 <= j < i && #[trigger] st[j].within_margin implies rank_lt(ri, rank(cs, el, st, j)) by {
                    let rj = rank(cs, el, st, j);
                    lemma_rank_order(ri, rq, rj);
                    lemma_rank_order(rq, rj, ri);
                    lemma_rank_order(rj, rq, ri);
                }
            }
        } else if st[i].within_margin {
            lemma_rank_order(rank(cs, el, st, i), rank(cs, el, st, i), rank(cs, el, st, i));
        }
    }
}

/// Discards added by the choice among the first `k` eligible candidates: those
/// outside the margin, and the finalists other than the `p`-th.
pub open spec fn choice_discards(cs: Seq<GateCandidate>, el: Seq<usize>, st: Seq<Standing>, p: int, k: int) -> Seq<(usize, Seq<char>, Seq<Reason>)>
    decreases k,
{
    if k <= 0 {
        Seq::empty()
    } else {
        let j = k - 1;
        let prev = choice_discards(cs, el, st, p, j);
        if !st[j].within_margin {
            prev.push((el[j], cs[el[j] as int].route@, seq![Reason::OutsideSelectionMargin]))
        } else if j != p {
            prev.push((el[j], cs[el[j] as int].route@, seq![Reason::HigherExpectedCost]))
        } else {
            prev
        }
    }
}

/// The finalist order is a strict total order.
pub proof fn lemma_rank_order(a: (u64, u64, Seq<char>), b: (u64, u64, Seq<char>), c: (u64, u64, Seq<char>))
    ensures
        !rank_lt(a, a),
        rank_lt(a, b) && rank_lt(b, c) ==> rank_lt(a, c),
        a != b ==> rank_lt(a, b) || rank_lt(b, a),
{
    lemma_bytes_lt_irreflexive(vstd::utf8::encode_utf8(a.2));
    if text_lt(a.2, b.2) && text_lt(b.2, c.2) {
        lemma_bytes_lt_transitive(
            vstd::utf8::encode_utf8(a.2),
            vstd::utf8::encode_utf8(b.2),
            vstd::utf8::encode_utf8(c.2),
        );
    }
    if a.2 != b.2 {
        lemma_text_lt_total(a.2, b.2);
    }
}

/// At most one eligible position is the choice.
pub proof fn lemma_choice_unique(cs: Seq<GateCandidate>, el: Seq<usize>, st: Seq<Standing>, p: int, q: int)
    requires
        is_choice(cs, el, st, p),
        is_choice(cs, el, st, q),
    ensures
        p == q,
{
    if p < q {
        assert(st[p].within_margin);
        assert(rank_lt(rank(cs, el, st, q), rank(cs, el, st, p)));
    } else if q < p {
        assert(st[q].within_margin);
        assert(rank_lt(rank(cs, el, st, p), rank(cs, el, st, q)));
    }
}

impl Ordered for Discarded {
    open spec fn precedes(&self, other: &Self) -> bool {
        text_lt(self.route@, other.route@)
    }

    proof fn precedes_irreflexive(a: &Self) {
        lemma_bytes_lt_irreflexive(vstd::utf8::encode_utf8(a.route@));
    }

    proof fn precedes_transitive(a: &Self, b: &Self, c: &Self) {
        lemma_bytes_lt_transitive(
            vstd::utf8::encode_utf8(a.route@),
            vstd::utf8::encode_utf8(b.route@),
            vstd::utf8::encode_utf8(c.route@),
        );
    }

    fn less(&self, other: &Self) -> (r: bool) {
        text_less(self.route.as_str(), other.route.as_str())
    }
}

/// Whether the `a`-th eligible candidate ranks strictly before the `b`-th.
fn rank_less(cs: &Vec<GateCandidate>, el: &Vec<usize>, st: &Vec<Standing>, a: usize, b: usize) -> (r: bool)
    requires
        a < el@.len(),
        b < el@.len(),
        el@.len() == st@.len(),
        el@[a as int] < cs@.len(),
        el@[b as int] < cs@.len(),
    ensures
        r == rank_lt(rank(cs@, el@, st@, a as int), rank(cs@, el@, st@, b as int)),
{
    let x = &cs[el[a]];
    let y = &cs[el[b]];
    if st[a].cost_key != st[b].cost_key {
        return st[a].cost_key < st[b].cost_key;
    }
    if x.latency_p95_ms != y.latency_p95_ms {
        return x.latency_p95_ms < y.latency_p95_ms;
    }
    text_less(x.route.as_str(), y.route.as_str())
}

/// Picks the first finalist of least expected cost, latency and route.
fn find_choice(cs: &Vec<GateCandidate>, el: &Vec<usize>, st: &Vec<Standing>) -> (p: usize)
    requires
        el@.len() == st@.len(),
        forall|j: int| 0 <= j < el@.len() ==> #[trigger] el@[j] < cs@.len(),
        exists|j: int| 0 <= j < st@.len() && #[trigger] st@[j].within_margin,
    ensures
        is_choice(cs@, el@, st@, p as int),
{
    let mut k: usize = 0;
    while k < st.len()
        invariant
            k <= st@.len(),
            el@.len() == st@.len(),
            forall|j: int| 0 <= j < k ==> !(#[trigger] st@[j]).within_margin,
        ensures
            k <= st@.len(),
            forall|j: int| 0 <= j < k ==> !(#[trigger] st@[j]).within_margin,
            k < st@.len() ==> st@[k as int].within_margin,
        decreases st@.len() - k,
    {
        if st[k].within_margin {
            break;
        }
        k = k + 1;
    }
    if k == st.len() {
        assert(false) by {
            let w = choose|j: int| 0 <= j < st@.len() && #[trigger] st@[j].within_margin;
        }
    }
    proof {
        lemma_rank_order(rank(cs@, el@, st@, k as int), rank(cs@, el@, st@, k as int), rank(cs@, el@, st@, k as int));
    }
    let mut p: usize = k;
    let mut i: usize = k + 1;
    while i < el.len()
        invariant
            el@.len() == st@.len(),
            forall|j: int| 0 <= j < el@.len() ==> #[trigger] el@[j] < cs@.len(),
            p < i <= el@.len(),
            st@[p as int].within_margin,
            forall|j: int| 0 <= j < i && #[trigger] st@[j].within_margin ==> !rank_lt(rank(cs@, el@, st@, j), rank(cs@, el@, st@, p as int)),
            forall|j: int| 0 <= j < p && #[trigger] st@[j].within_margin ==> rank_lt(rank(cs@, el@, st@, p as int), rank(cs@, el@, st@, j)),
        decreases el@.len() - i,
    {
        if st[i].within_margin && rank_less(cs, el, st, i, p) {
            proof {
                let ri = rank(cs@, el@, st@, i as int);
                let rp = rank(cs@, el@, st@, p as int);
                assert forall|j: int| 0 <= j <= i && #[trigger] st@[j].within_margin implies !rank_lt(rank(cs@, el@, st@, j), ri) by {
                    let rj = rank(cs@, el@, st@, j);
                    lemma_rank_order(rj, ri, rp);
                    lemma_rank_order(ri, rj, rp);
                    lemma_rank_order(ri, rp, rj);
                    lemma_rank_order(rp, rj, ri);
                }
                assert forall|j: int| 0 <= j < i && #[trigger] st@[j].within_margin implies rank_lt(ri, rank(cs@, el@, st@, j)) by {
                    let rj = rank(cs@, el@, st@, j);
                    lemma_rank_order(ri, rp, rj);
                    lemma_rank_order(rp, rj, ri);
                    lemma_rank_order(rj, rp, ri);
                }
            }
            p = i;
        }
        i = i + 1;
    }
    p
}

/// Chooses among the eligible candidates: those outside the margin and the
/// finalists that lose on expected cost, latency and route join the discards,
/// and every discard is ordered by route.
pub fn choose_finalist(candidates: &Vec<GateCandidate>, sifted: Sifted, standings: &Vec<Standing>) -> (out: Selection)
    requires
        sifted.eligible@.len() == standings@.len(),
        forall|j: int| 0 <= j < sifted.eligible@.len() ==> #[trigger] sifted.eligible@[j] < candidates@.len(),
        exists|j: int| 0 <= j < standings@.len() && #[trigger] standings@[j].within_margin,
    ensures
        is_choice(candidates@, sifted.eligible@, standings@, chosen(candidates@, sifted.eligible@, standings@)),
        out.selected == sifted.eligible@[chosen(candidates@, sifted.eligible@, standings@)],
        sorted_by(out.discarded@),
        discard_views(out.discarded@).to_multiset() == (discard_views(sifted.discarded@) + choice_discards(
            candidates@,
            sifted.eligible@,
            standings@,
            chosen(candidates@, sifted.eligible@, standings@),
            sifted.eligible@.len() as int,
        )).to_multiset(),
{
    let el = &sifted.eligible;
    let p = find_choice(candidates, el, standings);
    proof {
        lemma_least(candidates@, el@, standings@, el@.len() as int);
        lemma_choice_unique(candidates@, el@, standings@, p as int, chosen(candidates@, el@, standings@));
    }
    let mut all: Vec<Discarded> = sifted.discarded;
    let ghost base = discard_views(all@);
    let mut j: usize = 0;
    assert(base + choice_discards(candidates@, el@, standings@, p as int, 0) =~= base);
    while j < el.len()
        invariant
            el == &sifted.eligible,
            el@.len() == standings@.len(),
            forall|q: int| 0 <= q < el@.len() ==> #[trigger] el@[q] < candidates@.len(),
            j <= el@.len(),
            discard_views(all@) == base + choice_discards(candidates@, el@, standings@, p as int, j as int),
        decreases el@.len() - j,
    {
        let ghost before = all@;
        let c = &candidates[el[j]];
        if !standings[j].within_margin {
            all.push(Discarded { index: el[j], route: c.route.duplicate(), reasons: vec![Reason::OutsideSelectionMargin] });
        } else if j != p {
            all.push(Discarded { index: el[j], route: c.route.duplicate(), reasons: vec![Reason::HigherExpectedCost] });
        }
        proof {
            let prev = choice_discards(candidates@, el@, standings@, p as int, j as int);
            if !standings@[j as int].within_margin || j != p {
                assert(discard_views(all@) =~= discard_views(before).push(all@.last()@));
                assert(all@.last()@.2 =~= choice_discards(candidates@, el@, standings@, p as int, j + 1).last().2);
            } else {
                assert(all@ == before);
            }
            assert(discard_views(all@) =~= base + choice_discards(candidates@, el@, standings@, p as int, j + 1));
        }
        j = j + 1;
    }
    let ghost unsorted = all@;
    let discarded = sort(all);
    proof {
        crate::catalog::lemma_map_multiset(discarded@, unsorted, |d: Discarded| d@);
    }
    Selection { selected: el[p], discarded }
}

/// Why a request cannot be resolved or selected on.
#[derive(Debug, Clone, Copy, PartialEq, Eq, Structural)]
pub enum RequestProblem {
    /// The request names another action than the profile.
    ActionMismatch,
    /// Only versions 1 and 2 exist.
    UnsupportedVersion,
    /// The action is blank.
    EmptyAction,
    /// Predicted tokens must fit `u32` for deterministic costing.
    TooManyTokens,
    /// The minimum quality is not finite within `0..=100`.
    MinimumQualityOutOfRange,
    /// The selection margin is not finite within `0..=100`.
    MarginOutOfRange,
}

/// The first problem of a resolved request, if any.
pub open spec fn request_problem(
    schema_version: u16,
    action: Seq<char>,
    predicted_tokens: u64,
    minimum_quality_valid: bool,
    margin_valid: bool,
) -> Option<RequestProblem> {
    if schema_version != 1 && schema_version != 2 {
        Some(RequestProblem::UnsupportedVersion)
    } else if is_blank(action) {
        Some(RequestProblem::EmptyAction)
    } else if predicted_tokens > u32::MAX {
        Some(RequestProblem::TooManyTokens)
    } else if !minimum_quality_valid {
        Some(RequestProblem::MinimumQualityOutOfRange)
    } else if !margin_valid {
        Some(RequestProblem::MarginOutOfRange)
    } else {
        None
    }
}

/// Checks a resolved request; the error is its first problem.
pub fn check_request(
    schema_version: u16,
    action: &str,
    predicted_tokens: u64,
    minimum_quality_valid: bool,
    margin_valid: bool,
) -> (r: Result<(), RequestProblem>)
    ensures
        r is Ok <==> request_problem(schema_version, action@, predicted_tokens, minimum_quality_valid, margin_valid) is None,
        r matches Err(p) ==> request_problem(schema_version, action@, predicted_tokens, minimum_quality_valid, margin_valid) == Some(p),
{
    if schema_version != 1 && schema_version != 2 {
        return Err(RequestProblem::UnsupportedVersion);
    }
    if is_blank_text(action) {
        return Err(RequestProblem::EmptyAction);
    }
    if predicted_tokens > 0xffff_ffffu64 {
        return Err(RequestProblem::TooManyTokens);
    }
    if !minimum_quality_valid {
        return Err(RequestProblem::MinimumQualityOutOfRange);
    }
    if !margin_valid {
        return Err(RequestProblem::MarginOutOfRange);
    }
    Ok(())
}

/// What resolution reads of an external request.
#[derive(Debug, Clone, PartialEq, Eq)]
pub struct RequestDraftFacts {
    /// Version of the document.
    pub schema_version: u16,
    /// Requested action.
    pub action: String,
    /// Predicted tokens.
    pub predicted_tokens: u64,
    /// Per-request ask for any eligible fallback.
    pub allow_any_eligible: Option<bool>,
    /// Per-request ask for unverified quality.
    pub allow_unverified_quality: Option<bool>,
}

/// What resolution reads of the action's profile.
#[derive(Debug, Clone, PartialEq, Eq)]
pub struct ProfileFacts {
    /// The action the profile applies to.
    pub action: String,
    /// Standing permission for unlisted fallbacks.
    pub allow_any_eligible: bool,
    /// Standing permission for unverified quality.
    pub allow_unverified_quality: bool,
}

/// An ask and its decision: asked when the request says so, permitted when
/// asked and the profile allows it.
pub open spec fn decide(ask: Option<bool>, allowed: bool) -> AuthorizationDecision {
    let requested = match ask {
        Some(b) => b,
        None => false,
    };
    AuthorizationDecision { requested, permitted: requested && allowed }
}

/// Authorizations of a request under its profile.
pub open spec fn authorizations_of(d: RequestDraftFacts, p: ProfileFacts) -> SelectionAuthorizations {
    SelectionAuthorizations {
        allow_any_eligible: decide(d.allow_any_eligible, p.allow_any_eligible),
        allow_unverified_quality: decide(d.allow_unverified_quality, p.allow_unverified_quality),
    }
}

/// The first problem of resolving a request against a profile, if any.
pub open spec fn resolve_problem(d: RequestDraftFacts, p: ProfileFacts, minimum_quality_valid: bool, margin_valid: bool) -> Option<RequestProblem> {
    if d.action@ != p.action@ {
        Some(RequestProblem::ActionMismatch)
    } else {
        request_problem(d.schema_version, d.action@, d.predicted_tokens, minimum_quality_valid, margin_valid)
    }
}

/// Resolves the request's authorizations against the profile of the same
/// action; the quality flags say whether the thresholds, after falling back to
/// the profile's, are finite within `0..=100`.
pub fn resolve(draft: &RequestDraftFacts, profile: &ProfileFacts, minimum_quality_valid: bool, margin_valid: bool) -> (r: Result<SelectionAuthorizations, RequestProblem>)
    ensures
        r is Ok <==> resolve_problem(*draft, *profile, minimum_quality_valid, margin_valid) is None,
        r matches Ok(a) ==> a == authorizations_of(*draft, *profile),
        r matches Err(e) ==> resolve_problem(*draft, *profile, minimum_quality_valid, margin_valid) == Some(e),
{
    if draft.action != profile.action {
        return Err(RequestProblem::ActionMismatch);
    }
    check_request(draft.schema_version, draft.action.as_str(), draft.predicted_tokens, minimum_quality_valid, margin_valid)?;
    Ok(SelectionAuthorizations {
        allow_any_eligible: AuthorizationDecision::resolve(draft.allow_any_eligible, profile.allow_any_eligible),
        allow_unverified_quality: AuthorizationDecision::resolve(draft.allow_unverified_quality, profile.allow_unverified_quality),
    })
}

/// Why a selection stopped before choosing.
#[derive(Debug, Clone, PartialEq, Eq)]
pub enum SelectionStop {
    /// The request is invalid.
    Request(RequestProblem),
    /// The seal is invalid; the message names the field.
    Seal(String),
    /// No route passed the gates; every candidate is discarded.
    NoEligible(Vec<Discarded>),
}

/// Checks the request and the seal, then runs the gates; fails when no
/// candidate is eligible.
pub fn open_selection(request: &GateRequest, seal: &DecisionSealV2, candidates: &Vec<GateCandidate>) -> (r: Result<Sifted, SelectionStop>)
    ensures
        r matches Err(SelectionStop::Request(p)) ==> request_problem(
            request.schema_version,
            request.action@,
            request.predicted_tokens,
            request.minimum_quality_valid,
            request.margin_valid,
        ) == Some(p),
        r matches Err(SelectionStop::Seal(_)) ==> request_problem(
            request.schema_version,
            request.action@,
            request.predicted_tokens,
            request.minimum_quality_valid,
            request.margin_valid,
        ) is None && !seal_valid(*seal),
        r matches Err(SelectionStop::NoEligible(d)) ==> request_problem(
            request.schema_version,
            request.action@,
            request.predicted_tokens,
            request.minimum_quality_valid,
            request.margin_valid,
        ) is None && seal_valid(*seal) && eligible_upto(*request, candidates@, candidates@.len() as int).len() == 0
            && discard_views(d@) == discards_upto(*request, candidates@, candidates@.len() as int),
        r is Ok <==> request_problem(
            request.schema_version,
            request.action@,
            request.predicted_tokens,
            request.minimum_quality_valid,
            request.margin_valid,
        ) is None && seal_valid(*seal) && eligible_upto(*request, candidates@, candidates@.len() as int).len() > 0,
        r matches Ok(s) ==> s.eligible@ == eligible_upto(*request, candidates@, candidates@.len() as int)
            && discard_views(s.discarded@) == discards_upto(*request, candidates@, candidates@.len() as int)
            && forall|j: int| 0 <= j < s.eligible@.len() ==> #[trigger] s.eligible@[j] < candidates@.len(),
{
    match check_request(
        request.schema_version,
        request.action.as_str(),
        request.predicted_tokens,
        request.minimum_quality_valid,
        request.margin_valid,
    ) {
        Err(p) => return Err(SelectionStop::Request(p)),
        Ok(()) => {},
    }
    match validate_seal(seal) {
        Err(m) => return Err(SelectionStop::Seal(m)),
        Ok(()) => {},
    }
    let sifted = sift(request, candidates);
    if sifted.eligible.len() == 0 {
        return Err(SelectionStop::NoEligible(sifted.discarded));
    }
    Ok(sifted)
}

/// Selection failure as the surfaces report it.
#[derive(Debug, Clone, PartialEq, Eq)]
pub struct SelectError {
    /// Stable code.
    pub code: String,
    /// Explanation.
    pub message: String,
    /// Discards, also when none remains eligible.
    pub discarded: Vec<Discarded>,
}

impl SelectError {
    /// An invalid request, with no discards.
    pub fn invalid(message: String) -> (e: SelectError)
        ensures
            e.code@ == "invalid_route_request"@,
            e.message == message,
            e.discarded@.len() == 0,
    {
        SelectError { code: String::from_str("invalid_route_request"), message, discarded: Vec::new() }
    }

    /// No route passed every gate.
    pub fn no_eligible(discarded: Vec<Discarded>) -> (e: SelectError)
        ensures
            e.code@ == "no_eligible_route"@,
            e.message@ == "no route passed capability, evidence, policy and health filters"@,
            e.discarded == discarded,
    {
        SelectError {
            code: String::from_str("no_eligible_route"),
            message: String::from_str("no route passed capability, evidence, policy and health filters"),
            discarded,
        }
    }
}

/// The position occurs in the list.
pub open spec fn listed(e: Seq<usize>, i: int) -> bool {
    exists|a: int| 0 <= a < e.len() && e[a] == i
}

/// Some discard is of the candidate at the position.
pub open spec fn discards_of(d: Seq<(usize, Seq<char>, Seq<Reason>)>, i: int) -> bool {
    exists|b: int| 0 <= b < d.len() && d[b].0 == i
}

/// Positions `e` and discards `d` split the first `k` candidates: both in
/// increasing order, each candidate in exactly one, every discard with a reason.
pub open spec fn splits(e: Seq<usize>, d: Seq<(usize, Seq<char>, Seq<Reason>)>, k: int) -> bool {
    &&& forall|a: int, b: int| 0 <= a < b < e.len() ==> e[a] < e[b]
    &&& forall|a: int| 0 <= a < e.len() ==> e[a] < k
    &&& forall|a: int, b: int| 0 <= a < b < d.len() ==> d[a].0 < d[b].0
    &&& forall|a: int| 0 <= a < d.len() ==> d[a].0 < k && d[a].2.len() > 0
    &&& forall|i: int| 0 <= i < k ==> #[trigger] listed(e, i) != discards_of(d, i)
}

/// Adding the next candidate to one side keeps the split.
#[verifier::spinoff_prover]
pub proof fn lemma_splits_step(
    e0: Seq<usize>,
    d0: Seq<(usize, Seq<char>, Seq<Reason>)>,
    e: Seq<usize>,
    d: Seq<(usize, Seq<char>, Seq<Reason>)>,
    k: int,
)
    requires
        0 < k <= usize::MAX + 1,
        splits(e0, d0, k - 1),
        (e == e0.push((k - 1) as usize) && d == d0) || (e == e0 && d.len() == d0.len() + 1
            && d.drop_last() == d0 && d.last().0 == k - 1 && d.last().2.len() > 0),
    ensures
        splits(e, d, k),
{
    assert forall|i: int| 0 <= i < k implies #[trigger] listed(e, i) != discards_of(d, i) by {
        if i < k - 1 {
            assert(listed(e0, i) != discards_of(d0, i));
            if listed(e0, i) {
                let a = choose|a: int| 0 <= a < e0.len() && e0[a] == i;
                assert(e[a] == i);
            }
            if listed(e, i) {
                let a = choose|a: int| 0 <= a < e.len() && e[a] == i;
                if a < e0.len() {
                    assert(e0[a] == i);
                }
            }
            if discards_of(d0, i) {
                let b = choose|b: int| 0 <= b < d0.len() && d0[b].0 == i;
                assert(d[b] == d0[b]);
            }
            if discards_of(d, i) {
                let b = choose|b: int| 0 <= b < d.len() && d[b].0 == i;
                if b < d0.len() {
                    assert(d0[b] == d[b]);
                }
            }
        } else {
            if listed(e0, i) {
                let a = choose|a: int| 0 <= a < e0.len() && e0[a] == i;
            }
            if discards_of(d0, i) {
                let b = choose|b: int| 0 <= b < d0.len() && d0[b].0 == i;
            }
            if e.len() > e0.len() {
                assert(e[e.len() - 1] == i);
                if discards_of(d, i) {
                    let b = choose|b: int| 0 <= b < d.len() && d[b].0 == i;
                    assert(d0[b] == d[b]);
                }
            } else {
                assert(d[d.len() - 1].0 == i);
                if listed(e, i) {
                    let a = choose|a: int| 0 <= a < e.len() && e[a] == i;
                    assert(e0[a] == e[a]);
                }
            }
        }
    }
    if d.len() > d0.len() {
        assert forall|a: int| 0 <= a < d.len() - 1 implies d[a] == d0[a] by {
            assert(d.drop_last()[a] == d[a]);
        }
    }
}

/// The gates split the first `k` candidates into eligible and discarded.
pub proof fn lemma_sift_partition(r: GateRequest, cs: Seq<GateCandidate>, k: int)
    requires
        0 <= k <= cs.len(),
        cs.len() <= usize::MAX,
    ensures
        splits(eligible_upto(r, cs, k), discards_upto(r, cs, k), k),
    decreases k,
{
    if k > 0 {
        lemma_sift_partition(r, cs, k - 1);
        let d = discards_upto(r, cs, k);
        let d0 = discards_upto(r, cs, k - 1);
        if !passes(r, cs[k - 1]) {
            assert(d.drop_last() =~= d0);
            assert(final_reasons(r, cs[k - 1]).len() > 0);
        }
        lemma_splits_step(eligible_upto(r, cs, k - 1), d0, eligible_upto(r, cs, k), d, k);
    }
}

/// Discards `c` cover the first `k` eligible positions but `p`, in increasing
/// order, each with a reason, and none later than the `k`-th eligible.
pub open spec fn covers(c: Seq<(usize, Seq<char>, Seq<Reason>)>, el: Seq<usize>, p: int, k: int) -> bool {
    &&& only_eligible(c, el, p, k)
    &&& every_eligible(c, el, p, k)
    &&& increasing(c)
    &&& forall|m: int| 0 <= m < c.len() ==> c[m].2.len() > 0 && k > 0 && c[m].0 <= el[k - 1]
}

/// The candidate is at one of the first `k` eligible positions other than `p`.
pub open spec fn eligible_except(el: Seq<usize>, p: int, k: int, i: int) -> bool {
    exists|j: int| 0 <= j < k && j != p && el[j] == i
}

/// Each discard is of one of the first `k` eligible positions other than `p`.
pub open spec fn only_eligible(c: Seq<(usize, Seq<char>, Seq<Reason>)>, el: Seq<usize>, p: int, k: int) -> bool {
    forall|m: int| 0 <= m < c.len() ==> #[trigger] eligible_except(el, p, k, c[m].0 as int)
}

/// Each of the first `k` eligible positions other than `p` is discarded.
pub open spec fn every_eligible(c: Seq<(usize, Seq<char>, Seq<Reason>)>, el: Seq<usize>, p: int, k: int) -> bool {
    forall|j: int| #![trigger el[j]] 0 <= j < k && j != p ==> discards_of(c, el[j] as int)
}

/// Discards in strictly increasing candidate order.
pub open spec fn increasing(c: Seq<(usize, Seq<char>, Seq<Reason>)>) -> bool {
    forall|a: int, b: int| 0 <= a < b < c.len() ==> c[a].0 < c[b].0
}

/// The choice discards every eligible candidate but the chosen one.
pub proof fn lemma_choice_cover(cs: Seq<GateCandidate>, el: Seq<usize>, st: Seq<Standing>, p: int, k: int)
    requires
        0 <= k <= el.len(),
        el.len() == st.len(),
        0 <= p < st.len(),
        st[p].within_margin,
        forall|a: int, b: int| 0 <= a < b < el.len() ==> el[a] < el[b],
    ensures
        covers(choice_discards(cs, el, st, p, k), el, p, k),
    decreases k,
{
    if k > 0 {
        lemma_choice_cover(cs, el, st, p, k - 1);
        let c0 = choice_discards(cs, el, st, p, k - 1);
        let c = choice_discards(cs, el, st, p, k);
        if c.len() > c0.len() {
            assert(c.drop_last() =~= c0);
        } else {
            assert(c == c0);
        }
        lemma_cover_step(c0, c, el, p, k);
    }
}

/// Adding the next eligible position keeps the cover.
#[verifier::spinoff_prover]
pub proof fn lemma_cover_step(c0: Seq<(usize, Seq<char>, Seq<Reason>)>, c: Seq<(usize, Seq<char>, Seq<Reason>)>, el: Seq<usize>, p: int, k: int)
    requires
        0 < k <= el.len(),
        forall|a: int, b: int| 0 <= a < b < el.len() ==> el[a] < el[b],
        covers(c0, el, p, k - 1),
        (k - 1 == p && c == c0) || (k - 1 != p && c.len() == c0.len() + 1 && c.drop_last() == c0
            && c.last().0 == el[k - 1] && c.last().2.len() > 0),
    ensures
        covers(c, el, p, k),
{
    if k - 1 != p {
        assert forall|m: int| 0 <= m < c0.len() implies c0[m] == c[m] by {
            assert(c.drop_last()[m] == c[m]);
        }
    }
    assert forall|m: int| 0 <= m < c.len() implies #[trigger] eligible_except(el, p, k, c[m].0 as int) by {
        if m < c0.len() {
            assert(c0[m] == c[m]);
            assert(eligible_except(el, p, k - 1, c0[m].0 as int));
            let j = choose|j: int| 0 <= j < k - 1 && j != p && el[j] == c0[m].0 as int;
            assert(el[j] == c[m].0);
        } else {
            assert(el[k - 1] == c[m].0);
        }
    }
    assert forall|j: int| #![trigger el[j]] 0 <= j < k && j != p implies discards_of(c, el[j] as int) by {
        if j < k - 1 {
            assert(discards_of(c0, el[j] as int));
            let m = choose|m: int| 0 <= m < c0.len() && c0[m].0 == el[j] as int;
            assert(c[m] == c0[m]);
        } else {
            assert(c[c.len() - 1].0 == el[j]);
        }
    }
    assert forall|a: int, b: int| 0 <= a < b < c.len() implies c[a].0 < c[b].0 by {
        if b < c0.len() {
            assert(c[a] == c0[a] && c[b] == c0[b]);
        } else {
            assert(c[a] == c0[a]);
            if k >= 2 {
                assert(el[k - 2] < el[k - 1]);
            }
        }
    }
    assert forall|m: int| 0 <= m < c.len() implies c[m].2.len() > 0 && k > 0 && c[m].0 <= el[k - 1] by {
        if m < c0.len() {
            assert(c0[m] == c[m]);
            assert(el[k - 2] < el[k - 1]);
        }
    }
    assert(only_eligible(c, el, p, k));
    assert(every_eligible(c, el, p, k));
    assert(increasing(c));
}

/// Every candidate is either the chosen one or discarded, never both; no
/// candidate is discarded twice; and every discard carries at least one reason.
#[verifier::spinoff_prover]
pub proof fn law_every_candidate_once(r: GateRequest, cs: Seq<GateCandidate>, st: Seq<Standing>)
    requires
        cs.len() <= usize::MAX,
        st.len() == eligible_upto(r, cs, cs.len() as int).len(),
        exists|j: int| 0 <= j < st.len() && #[trigger] st[j].within_margin,
    ensures
        ({
            let el = eligible_upto(r, cs, cs.len() as int);
            let p = chosen(cs, el, st);
            let d = discards_upto(r, cs, cs.len() as int) + choice_discards(cs, el, st, p, el.len() as int);
            &&& forall|i: int| 0 <= i < cs.len() ==> (i == el[p]) != #[trigger] discards_of(d, i)
            &&& forall|a: int, b: int| 0 <= a < b < d.len() ==> d[a].0 != d[b].0
            &&& forall|b: int| 0 <= b < d.len() ==> 0 <= #[trigger] d[b].0 < cs.len() && d[b].2.len() > 0
        }),
{
    let n = cs.len() as int;
    let el = eligible_upto(r, cs, n);
    lemma_sift_partition(r, cs, n);
    lemma_least(cs, el, st, el.len() as int);
    let p = chosen(cs, el, st);
    lemma_choice_cover(cs, el, st, p, el.len() as int);
    let d0 = discards_upto(r, cs, n);
    let c = choice_discards(cs, el, st, p, el.len() as int);
    let d = d0 + c;
    assert forall|m: int| 0 <= m < c.len() implies listed(el, c[m].0 as int) && c[m].0 != el[p] && c[m].0 < n by {
        assert(eligible_except(el, p, el.len() as int, c[m].0 as int));
        let j = choose|j: int| 0 <= j < el.len() && j != p && el[j] == c[m].0 as int;
        assert(el[j] == c[m].0);
        if j < p {
            assert(el[j] < el[p]);
        } else {
            assert(el[p] < el[j]);
        }
    }
    assert forall|b: int| 0 <= b < d.len() implies 0 <= #[trigger] d[b].0 < cs.len() && d[b].2.len() > 0 by {
        if b >= d0.len() {
            assert(d[b] == c[b - d0.len()]);
        } else {
            assert(d[b] == d0[b]);
        }
    }
    assert forall|a: int, b: int| 0 <= a < b < d.len() implies d[a].0 != d[b].0 by {
        if b < d0.len() {
            assert(d[a] == d0[a] && d[b] == d0[b]);
        } else if a < d0.len() {
            assert(d[a] == d0[a] && d[b] == c[b - d0.len()]);
            let i = d0[a].0 as int;
            assert(discards_of(d0, i));
            assert(listed(el, i) != discards_of(d0, i));
            assert(listed(el, c[b - d0.len()].0 as int));
        } else {
            assert(d[a] == c[a - d0.len()] && d[b] == c[b - d0.len()]);
        }
    }
    assert forall|i: int| 0 <= i < cs.len() implies (i == el[p]) != #[trigger] discards_of(d, i) by {
        assert(listed(el, i) != discards_of(d0, i));
        if listed(el, i) {
            let a = choose|a: int| 0 <= a < el.len() && el[a] == i;
            if a == p {
                assert forall|b: int| 0 <= b < d.len() implies d[b].0 != i by {
                    if b >= d0.len() {
                        assert(d[b] == c[b - d0.len()]);
                    } else {
                        assert(d[b] == d0[b]);
                        if d0[b].0 == i {
                            assert(discards_of(d0, i));
                        }
                    }
                }
            } else {
                if a < p {
                    assert(el[a] < el[p]);
                } else {
                    assert(el[p] < el[a]);
                }
                assert(discards_of(c, el[a] as int));
                let m = choose|m: int| 0 <= m < c.len() && c[m].0 == el[a] as int;
                assert(d[d0.len() + m] == c[m]);
            }
        } else {
            let b = choose|b: int| 0 <= b < d0.len() && d0[b].0 == i;
            assert(d[b] == d0[b]);
            assert(listed(el, el[p] as int));
        }
    }
}

/// The eligible positions among the first `k` candidates are exactly those
/// of the candidates that pass.
proof fn lemma_eligible_members(r: GateRequest, cs: Seq<GateCandidate>, k: int)
    requires
        0 <= k <= cs.len(),
        cs.len() <= usize::MAX,
    ensures
        forall|a: int| 0 <= a < eligible_upto(r, cs, k).len() ==> {
            let i = #[trigger] eligible_upto(r, cs, k)[a];
            0 <= i < k && passes(r, cs[i as int])
        },
        forall|i: int| 0 <= i < k && passes(r, cs[i]) ==> #[trigger] listed(eligible_upto(r, cs, k), i),
    decreases k,
{
    if k > 0 {
        lemma_eligible_members(r, cs, k - 1);
        let e0 = eligible_upto(r, cs, k - 1);
        let e = eligible_upto(r, cs, k);
        if passes(r, cs[k - 1]) {
            assert(e == e0.push((k - 1) as usize));
        } else {
            assert(e == e0);
        }
        assert forall|a: int| 0 <= a < e.len() implies {
            let i = #[trigger] e[a];
            0 <= i < k && passes(r, cs[i as int])
        } by {
            if a < e0.len() {
                assert(e[a] == e0[a]);
            }
        }
        assert forall|i: int| 0 <= i < k && passes(r, cs[i]) implies #[trigger] listed(e, i) by {
            if i < k - 1 {
                assert(listed(e0, i));
                let a = choose|a: int| 0 <= a < e0.len() && e0[a] == i;
                assert(e[a] == e0[a]);
            } else {
                assert(e[e0.len() as int] == i);
            }
        }
    }
}

/// The standings of the eligible candidates when each is measured alone.
pub open spec fn standings_of(cs: Seq<GateCandidate>, el: Seq<usize>, standing: spec_fn(GateCandidate) -> Standing) -> Seq<Standing> {
    Seq::new(el.len(), |j: int| standing(cs[el[j] as int]))
}

/// Rank of a candidate measured alone.
pub open spec fn rank_of(c: GateCandidate, standing: spec_fn(GateCandidate) -> Standing) -> (u64, u64, Seq<char>) {
    (standing(c).cost_key, c.latency_p95_ms, c.route@)
}

/// A candidate that passes, stays within the margin, and is ranked after no
/// other such candidate of the list.
pub open spec fn is_best(r: GateRequest, cs: Seq<GateCandidate>, standing: spec_fn(GateCandidate) -> Standing, c: GateCandidate) -> bool {
    &&& cs.contains(c)
    &&& passes(r, c)
    &&& standing(c).within_margin
    &&& forall|d: GateCandidate| #[trigger] cs.contains(d) && passes(r, d) && standing(d).within_margin
        ==> !rank_lt(rank_of(d, standing), rank_of(c, standing))
}

/// No two candidates of the list share a route.
pub open spec fn routes_distinct(cs: Seq<GateCandidate>) -> bool {
    forall|i: int, j: int| 0 <= i < j < cs.len() ==> (#[trigger] cs[i]).route@ != (#[trigger] cs[j]).route@
}

/// The choice is the best candidate of the list.
proof fn lemma_choice_is_best(r: GateRequest, cs: Seq<GateCandidate>, standing: spec_fn(GateCandidate) -> Standing, p: int)
    requires
        cs.len() <= usize::MAX,
        is_choice(cs, eligible_upto(r, cs, cs.len() as int), standings_of(cs, eligible_upto(r, cs, cs.len() as int), standing), p),
    ensures
        is_best(r, cs, standing, cs[eligible_upto(r, cs, cs.len() as int)[p] as int]),
{
    let el = eligible_upto(r, cs, cs.len() as int);
    let st = standings_of(cs, el, standing);
    lemma_eligible_members(r, cs, cs.len() as int);
    let c = cs[el[p] as int];
    assert(el[p] == el[p]);
    assert(cs.contains(c));
    assert forall|d: GateCandidate| #[trigger] cs.contains(d) && passes(r, d) && standing(d).within_margin
        implies !rank_lt(rank_of(d, standing), rank_of(c, standing)) by {
        let i = choose|i: int| 0 <= i < cs.len() && cs[i] == d;
        assert(listed(el, i));
        let a = choose|a: int| 0 <= a < el.len() && el[a] == i;
        assert(st[a] == standing(d));
        assert(st[a].within_margin);
        assert(rank(cs, el, st, a) == rank_of(d, standing));
        assert(rank(cs, el, st, p) == rank_of(c, standing));
    }
}

/// With distinct routes, at most one candidate is the best.
proof fn lemma_best_unique(r: GateRequest, cs: Seq<GateCandidate>, standing: spec_fn(GateCandidate) -> Standing, c: GateCandidate, d: GateCandidate)
    requires
        routes_distinct(cs),
        is_best(r, cs, standing, c),
        is_best(r, cs, standing, d),
    ensures
        c == d,
{
    if c != d {
        let i = choose|i: int| 0 <= i < cs.len() && cs[i] == c;
        let j = choose|j: int| 0 <= j < cs.len() && cs[j] == d;
        assert(i != j);
        if i < j {
            assert(cs[i].route@ != cs[j].route@);
        } else {
            assert(cs[j].route@ != cs[i].route@);
        }
        lemma_rank_order(rank_of(c, standing), rank_of(d, standing), rank_of(d, standing));
        assert(cs.contains(d));
        assert(cs.contains(c));
    }
}

/// A list has a choice exactly when one of its candidates passes within the margin.
proof fn lemma_choice_exists(r: GateRequest, cs: Seq<GateCandidate>, standing: spec_fn(GateCandidate) -> Standing)
    requires
        cs.len() <= usize::MAX,
    ensures
        ({
            let el = eligible_upto(r, cs, cs.len() as int);
            let st = standings_of(cs, el, standing);
            (exists|p: int| is_choice(cs, el, st, p))
                <==> (exists|d: GateCandidate| #[trigger] cs.contains(d) && passes(r, d) && standing(d).within_margin)
        }),
{
    let el = eligible_upto(r, cs, cs.len() as int);
    let st = standings_of(cs, el, standing);
    lemma_eligible_members(r, cs, cs.len() as int);
    lemma_least(cs, el, st, el.len() as int);
    if exists|p: int| is_choice(cs, el, st, p) {
        let p = choose|p: int| is_choice(cs, el, st, p);
        let d = cs[el[p] as int];
        assert(el[p] == el[p]);
        assert(cs.contains(d));
        assert(st[p] == standing(d));
    }
    if exists|d: GateCandidate| #[trigger] cs.contains(d) && passes(r, d) && standing(d).within_margin {
        let d = choose|d: GateCandidate| #[trigger] cs.contains(d) && passes(r, d) && standing(d).within_margin;
        let i = choose|i: int| 0 <= i < cs.len() && cs[i] == d;
        assert(listed(el, i));
        let a = choose|a: int| 0 <= a < el.len() && el[a] == i;
        assert(st[a].within_margin);
        let q = least_upto(cs, el, st, el.len() as int);
        assert(is_choice(cs, el, st, q));
    }
}

/// Each sift discard is a failing candidate with its reasons, and every
/// failing candidate among the first `k` is discarded.
proof fn lemma_sift_discards(r: GateRequest, cs: Seq<GateCandidate>, k: int)
    requires
        0 <= k <= cs.len(),
        cs.len() <= usize::MAX,
    ensures
        forall|a: int| 0 <= a < discards_upto(r, cs, k).len() ==> {
            let d = #[trigger] discards_upto(r, cs, k)[a];
            &&& 0 <= d.0 < k
            &&& !passes(r, cs[d.0 as int])
            &&& d.1 == cs[d.0 as int].route@
            &&& d.2 == final_reasons(r, cs[d.0 as int])
        },
        forall|i: int| 0 <= i < k && !passes(r, cs[i]) ==> #[trigger] discards_upto(r, cs, k).contains(
            (i as usize, cs[i].route@, final_reasons(r, cs[i]))),
    decreases k,
{
    if k > 0 {
        lemma_sift_discards(r, cs, k - 1);
        let d0 = discards_upto(r, cs, k - 1);
        let d = discards_upto(r, cs, k);
        let item = ((k - 1) as usize, cs[k - 1].route@, final_reasons(r, cs[k - 1]));
        if passes(r, cs[k - 1]) {
            assert(d == d0);
        } else {
            assert(d == d0.push(item));
            assert(d[d0.len() as int] == item);
        }
        assert forall|a: int| 0 <= a < d.len() implies {
            let x = #[trigger] d[a];
            &&& 0 <= x.0 < k
            &&& !passes(r, cs[x.0 as int])
            &&& x.1 == cs[x.0 as int].route@
            &&& x.2 == final_reasons(r, cs[x.0 as int])
        } by {
            if a < d0.len() {
                assert(d[a] == d0[a]);
            }
        }
        assert forall|i: int| 0 <= i < k && !passes(r, cs[i]) implies #[trigger] d.contains(
            (i as usize, cs[i].route@, final_reasons(r, cs[i]))) by {
            if i < k - 1 {
                let x = (i as usize, cs[i].route@, final_reasons(r, cs[i]));
                assert(d0.contains(x));
                let a = choose|a: int| 0 <= a < d0.len() && d0[a] == x;
                assert(d[a] == x);
            }
        }
    }
}

/// Each choice discard is an eligible candidate outside the margin, or a
/// finalist other than the choice, and every such candidate is discarded.
proof fn lemma_choice_discards(cs: Seq<GateCandidate>, el: Seq<usize>, st: Seq<Standing>, p: int, k: int)
    requires
        0 <= k <= el.len(),
    ensures
        forall|a: int| #![trigger choice_discards(cs, el, st, p, k)[a]] 0 <= a < choice_discards(cs, el, st, p, k).len() ==> exists|j: int| #![trigger el[j]] {
            let d = choice_discards(cs, el, st, p, k)[a];
            &&& 0 <= j < k
            &&& d.0 == el[j]
            &&& d.1 == cs[el[j] as int].route@
            &&& ((!st[j].within_margin && d.2 == seq![Reason::OutsideSelectionMargin])
                || (st[j].within_margin && j != p && d.2 == seq![Reason::HigherExpectedCost]))
        },
        forall|j: int| 0 <= j < k && !(#[trigger] st[j]).within_margin ==> choice_discards(cs, el, st, p, k).contains(
            (el[j], cs[el[j] as int].route@, seq![Reason::OutsideSelectionMargin])),
        forall|j: int| 0 <= j < k && (#[trigger] st[j]).within_margin && j != p ==> choice_discards(cs, el, st, p, k).contains(
            (el[j], cs[el[j] as int].route@, seq![Reason::HigherExpectedCost])),
    decreases k,
{
    if k > 0 {
        lemma_choice_discards(cs, el, st, p, k - 1);
        let c0 = choice_discards(cs, el, st, p, k - 1);
        let c = choice_discards(cs, el, st, p, k);
        let j = k - 1;
        if !st[j].within_margin {
            assert(c == c0.push((el[j], cs[el[j] as int].route@, seq![Reason::OutsideSelectionMargin])));
            assert(c[c0.len() as int] == (el[j], cs[el[j] as int].route@, seq![Reason::OutsideSelectionMargin]));
        } else if j != p {
            assert(c == c0.push((el[j], cs[el[j] as int].route@, seq![Reason::HigherExpectedCost])));
            assert(c[c0.len() as int] == (el[j], cs[el[j] as int].route@, seq![Reason::HigherExpectedCost]));
        } else {
            assert(c == c0);
        }
        assert forall|a: int| #![trigger c[a]] 0 <= a < c.len() implies exists|m: int| #![trigger el[m]] {
            let d = c[a];
            &&& 0 <= m < k
            &&& d.0 == el[m]
            &&& d.1 == cs[el[m] as int].route@
            &&& ((!st[m].within_margin && d.2 == seq![Reason::OutsideSelectionMargin])
                || (st[m].within_margin && m != p && d.2 == seq![Reason::HigherExpectedCost]))
        } by {
            if a < c0.len() {
                assert(c[a] == c0[a]);
                assert(exists|m: int| #![trigger el[m]] {
                    let d = c0[a];
                    &&& 0 <= m < k - 1
                    &&& d.0 == el[m]
                    &&& d.1 == cs[el[m] as int].route@
                    &&& ((!st[m].within_margin && d.2 == seq![Reason::OutsideSelectionMargin])
                        || (st[m].within_margin && m != p && d.2 == seq![Reason::HigherExpectedCost]))
                });
            } else {
                assert(c[a].0 == el[j]);
            }
        }
        assert forall|m: int| 0 <= m < k && !(#[trigger] st[m]).within_margin implies c.contains(
            (el[m], cs[el[m] as int].route@, seq![Reason::OutsideSelectionMargin])) by {
            if m < k - 1 {
                let x = (el[m], cs[el[m] as int].route@, seq![Reason::OutsideSelectionMargin]);
                assert(c0.contains(x));
                let a = choose|a: int| 0 <= a < c0.len() && c0[a] == x;
                assert(c[a] == x);
            }
        }
        assert forall|m: int| 0 <= m < k && (#[trigger] st[m]).within_margin && m != p implies c.contains(
            (el[m], cs[el[m] as int].route@, seq![Reason::HigherExpectedCost])) by {
            if m < k - 1 {
                let x = (el[m], cs[el[m] as int].route@, seq![Reason::HigherExpectedCost]);
                assert(c0.contains(x));
                let a = choose|a: int| 0 <= a < c0.len() && c0[a] == x;
                assert(c[a] == x);
            }
        }
    }
}

/// What a decision discards, by route and reasons: the failing candidates,
/// then those outside the margin and the finalists not chosen.
pub open spec fn decision_discards(r: GateRequest, cs: Seq<GateCandidate>, standing: spec_fn(GateCandidate) -> Standing) -> Seq<(Seq<char>, Seq<Reason>)> {
    let el = eligible_upto(r, cs, cs.len() as int);
    let st = standings_of(cs, el, standing);
    (discards_upto(r, cs, cs.len() as int) + choice_discards(cs, el, st, chosen(cs, el, st), el.len() as int))
        .map_values(|d: (usize, Seq<char>, Seq<Reason>)| (d.1, d.2))
}

/// Why a candidate is discarded when `best` is chosen: it fails a gate,
/// stays outside the margin, or is a finalist other than `best`.
pub open spec fn discarded_as(r: GateRequest, standing: spec_fn(GateCandidate) -> Standing, c: GateCandidate, reasons: Seq<Reason>, best: GateCandidate) -> bool {
    ||| !passes(r, c) && reasons == final_reasons(r, c)
    ||| passes(r, c) && !standing(c).within_margin && reasons == seq![Reason::OutsideSelectionMargin]
    ||| passes(r, c) && standing(c).within_margin && c != best && reasons == seq![Reason::HigherExpectedCost]
}

/// The discards of a decision are exactly the candidates discarded as the
/// choice dictates.
proof fn lemma_discards_characterized(r: GateRequest, cs: Seq<GateCandidate>, standing: spec_fn(GateCandidate) -> Standing, best: GateCandidate)
    requires
        cs.len() <= usize::MAX,
        cs.no_duplicates(),
        ({
            let el = eligible_upto(r, cs, cs.len() as int);
            let st = standings_of(cs, el, standing);
            (exists|p: int| is_choice(cs, el, st, p)) ==> best == cs[el[chosen(cs, el, st)] as int]
        }),
    ensures
        forall|x: (Seq<char>, Seq<Reason>)| decision_discards(r, cs, standing).contains(x) <==> exists|c: GateCandidate|
            #[trigger] cs.contains(c) && x.0 == c.route@ && discarded_as(r, standing, c, x.1, best),
{
    let n = cs.len() as int;
    let el = eligible_upto(r, cs, n);
    let st = standings_of(cs, el, standing);
    let p = chosen(cs, el, st);
    let d0 = discards_upto(r, cs, n);
    let c0 = choice_discards(cs, el, st, p, el.len() as int);
    let all = d0 + c0;
    let f = |d: (usize, Seq<char>, Seq<Reason>)| (d.1, d.2);
    lemma_sift_discards(r, cs, n);
    lemma_choice_discards(cs, el, st, p, el.len() as int);
    lemma_eligible_members(r, cs, n);
    lemma_sift_partition(r, cs, n);
    lemma_least(cs, el, st, el.len() as int);
    let some_margin = exists|j: int| 0 <= j < el.len() && #[trigger] st[j].within_margin;
    if some_margin {
        assert(is_choice(cs, el, st, p));
    }
    assert forall|x: (Seq<char>, Seq<Reason>)| decision_discards(r, cs, standing).contains(x) implies exists|c: GateCandidate|
        #[trigger] cs.contains(c) && x.0 == c.route@ && discarded_as(r, standing, c, x.1, best) by {
        let v = all.map_values(f);
        let a = choose|a: int| 0 <= a < v.len() && v[a] == x;
        if a < d0.len() {
            assert(all[a] == d0[a]);
            let i = d0[a].0 as int;
            assert(cs.contains(cs[i]));
        } else {
            assert(all[a] == c0[a - d0.len()]);
            let d = c0[a - d0.len()];
            let j = choose|j: int| #![trigger el[j]] {
                &&& 0 <= j < el.len()
                &&& d.0 == el[j]
                &&& d.1 == cs[el[j] as int].route@
                &&& ((!st[j].within_margin && d.2 == seq![Reason::OutsideSelectionMargin])
                    || (st[j].within_margin && j != p && d.2 == seq![Reason::HigherExpectedCost]))
            };
            let c = cs[el[j] as int];
            assert(el[j] == el[j]);
            assert(cs.contains(c));
            assert(st[j] == standing(c));
            if st[j].within_margin {
                assert(some_margin);
                if c == best {
                    if j < p {
                        assert(el[j] < el[p]);
                    } else {
                        assert(el[p] < el[j]);
                    }
                    assert(cs[el[j] as int] != cs[el[p] as int]);
                }
            }
        }
    }
    assert forall|x: (Seq<char>, Seq<Reason>)| (exists|c: GateCandidate|
        #[trigger] cs.contains(c) && x.0 == c.route@ && discarded_as(r, standing, c, x.1, best))
        implies decision_discards(r, cs, standing).contains(x) by {
        let c = choose|c: GateCandidate| #[trigger] cs.contains(c) && x.0 == c.route@ && discarded_as(r, standing, c, x.1, best);
        let i = choose|i: int| 0 <= i < cs.len() && cs[i] == c;
        let v = all.map_values(f);
        if !passes(r, c) {
            let y = (i as usize, cs[i].route@, final_reasons(r, cs[i]));
            assert(d0.contains(y));
            let a = choose|a: int| 0 <= a < d0.len() && d0[a] == y;
            assert(all[a] == y);
            assert(v[a] == x);
        } else {
            assert(listed(el, i));
            let j = choose|j: int| 0 <= j < el.len() && el[j] == i;
            assert(st[j] == standing(c));
            let y = if !st[j].within_margin {
                (el[j], cs[el[j] as int].route@, seq![Reason::OutsideSelectionMargin])
            } else {
                (el[j], cs[el[j] as int].route@, seq![Reason::HigherExpectedCost])
            };
            if st[j].within_margin {
                assert(some_margin);
                assert(j != p);
            }
            assert(c0.contains(y));
            let a = choose|a: int| 0 <= a < c0.len() && c0[a] == y;
            assert(all[d0.len() + a] == y);
            assert(v[d0.len() + a] == x);
        }
    }
}

/// Reordering the candidates does not change the decision: when each
/// candidate's standing depends on the candidate alone and no two candidates
/// share a route, a reordered list has a choice exactly when the original
/// has one, it chooses the same candidate, and it discards the same routes
/// for the same reasons.
pub proof fn law_selection_ignores_order(
    r: GateRequest,
    cs: Seq<GateCandidate>,
    reordered: Seq<GateCandidate>,
    standing: spec_fn(GateCandidate) -> Standing,
)
    requires
        cs.len() <= usize::MAX,
        reordered.to_multiset() == cs.to_multiset(),
        routes_distinct(cs),
    ensures
        ({
            let el = eligible_upto(r, cs, cs.len() as int);
            let st = standings_of(cs, el, standing);
            let el2 = eligible_upto(r, reordered, reordered.len() as int);
            let st2 = standings_of(reordered, el2, standing);
            &&& (exists|p: int| is_choice(cs, el, st, p)) <==> (exists|q: int| is_choice(reordered, el2, st2, q))
            &&& forall|p: int, q: int| is_choice(cs, el, st, p) && is_choice(reordered, el2, st2, q)
                ==> cs[el[p] as int] == reordered[el2[q] as int]
            &&& forall|x: (Seq<char>, Seq<Reason>)| #[trigger] decision_discards(r, cs, standing).contains(x)
                <==> decision_discards(r, reordered, standing).contains(x)
        }),
{
    broadcast use vstd::seq_lib::group_to_multiset_ensures;
    assert(reordered.len() == cs.len()) by {
        assert(reordered.to_multiset().len() == reordered.len());
        assert(cs.to_multiset().len() == cs.len());
    }
    assert forall|d: GateCandidate| #[trigger] cs.contains(d) <==> reordered.contains(d) by {
        vstd::seq_lib::to_multiset_contains(cs, d);
        vstd::seq_lib::to_multiset_contains(reordered, d);
    }
    let el = eligible_upto(r, cs, cs.len() as int);
    let st = standings_of(cs, el, standing);
    let el2 = eligible_upto(r, reordered, reordered.len() as int);
    let st2 = standings_of(reordered, el2, standing);
    lemma_choice_exists(r, cs, standing);
    lemma_choice_exists(r, reordered, standing);
    if exists|d: GateCandidate| #[trigger] cs.contains(d) && passes(r, d) && standing(d).within_margin {
        let d = choose|d: GateCandidate| #[trigger] cs.contains(d) && passes(r, d) && standing(d).within_margin;
        assert(reordered.contains(d));
    }
    if exists|d: GateCandidate| #[trigger] reordered.contains(d) && passes(r, d) && standing(d).within_margin {
        let d = choose|d: GateCandidate| #[trigger] reordered.contains(d) && passes(r, d) && standing(d).within_margin;
        assert(cs.contains(d));
    }
    assert forall|p: int, q: int| is_choice(cs, el, st, p) && is_choice(reordered, el2, st2, q)
        implies cs[el[p] as int] == reordered[el2[q] as int] by {
        lemma_choice_is_best(r, cs, standing, p);
        lemma_choice_is_best(r, reordered, standing, q);
        let c = cs[el[p] as int];
        let d = reordered[el2[q] as int];
        assert(reordered.contains(d));
        assert(cs.contains(d));
        assert forall|x: GateCandidate| #[trigger] cs.contains(x) && passes(r, x) && standing(x).within_margin
            implies !rank_lt(rank_of(x, standing), rank_of(d, standing)) by {
            assert(reordered.contains(x));
        }
        assert(is_best(r, cs, standing, d));
        lemma_best_unique(r, cs, standing, c, d);
    }
    assert(cs.no_duplicates()) by {
        assert forall|i: int, j: int| 0 <= i < cs.len() && 0 <= j < cs.len() && i != j implies cs[i] != cs[j] by {
            if i < j {
                assert(cs[i].route@ != cs[j].route@);
            } else {
                assert(cs[j].route@ != cs[i].route@);
            }
        }
    }
    cs.lemma_multiset_has_no_duplicates();
    assert forall|x: GateCandidate| reordered.to_multiset().contains(x) implies reordered.to_multiset().count(x) == 1 by {
        assert(cs.to_multiset().contains(x));
    }
    reordered.lemma_multiset_has_no_duplicates_conv();
    let best = cs[el[chosen(cs, el, st)] as int];
    lemma_least(cs, el, st, el.len() as int);
    lemma_discards_characterized(r, cs, standing, best);
    if exists|q: int| is_choice(reordered, el2, st2, q) {
        let q = choose|q: int| is_choice(reordered, el2, st2, q);
        let p = choose|p: int| is_choice(cs, el, st, p);
        assert(st[p].within_margin);
        lemma_choice_unique(cs, el, st, p, chosen(cs, el, st));
        lemma_least(reordered, el2, st2, el2.len() as int);
        assert(st2[q].within_margin);
        lemma_choice_unique(reordered, el2, st2, q, chosen(reordered, el2, st2));
        assert(cs[el[p] as int] == reordered[el2[q] as int]);
    }
    lemma_discards_characterized(r, reordered, standing, best);
    assert forall|x: (Seq<char>, Seq<Reason>)| #[trigger] decision_discards(r, cs, standing).contains(x)
        <==> decision_discards(r, reordered, standing).contains(x) by {
        if exists|c: GateCandidate| #[trigger] cs.contains(c) && x.0 == c.route@ && discarded_as(r, standing, c, x.1, best) {
            let c = choose|c: GateCandidate| #[trigger] cs.contains(c) && x.0 == c.route@ && discarded_as(r, standing, c, x.1, best);
            assert(reordered.contains(c));
        }
        if exists|c: GateCandidate| #[trigger] reordered.contains(c) && x.0 == c.route@ && discarded_as(r, standing, c, x.1, best) {
            let c = choose|c: GateCandidate| #[trigger] reordered.contains(c) && x.0 == c.route@ && discarded_as(r, standing, c, x.1, best);
            assert(cs.contains(c));
        }
    }
}

/// Law: the choice is a finalist (within the margin) with the lowest expected
/// cost of all finalists; among finalists of equal cost it has the lowest
/// latency, and among those the first route in byte order.
pub proof fn law_cheapest_finalist_wins(cs: Seq<GateCandidate>, el: Seq<usize>, st: Seq<Standing>, p: int, j: int)
    requires
        is_choice(cs, el, st, p),
        0 <= j < el.len(),
        st[j].within_margin,
    ensures
        st[p].within_margin,
        st[p].cost_key <= st[j].cost_key,
        st[p].cost_key == st[j].cost_key ==> cs[el[p] as int].latency_p95_ms <= cs[el[j] as int].latency_p95_ms,
        st[p].cost_key == st[j].cost_key && cs[el[p] as int].latency_p95_ms == cs[el[j] as int].latency_p95_ms
            && cs[el[p] as int].route@ != cs[el[j] as int].route@ ==> text_lt(cs[el[p] as int].route@, cs[el[j] as int].route@),
{
    let a = rank(cs, el, st, p);
    let b = rank(cs, el, st, j);
    assert(!rank_lt(b, a));
    if a.2 != b.2 {
        lemma_text_lt_total(a.2, b.2);
    }
}

} // verus!
