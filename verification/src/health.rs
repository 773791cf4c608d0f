//! Route health: the observation window, failure classification and recovery.

use vstd::prelude::*;
use vstd::relations::{sorted_by, total_ordering};
use vstd::string::*;

use crate::route::{split_on_slash, RouteRef};
use crate::util::copy_vec;

verus! {

/// Observed result of a single invocation.
#[derive(Debug, Clone, Copy, PartialEq, Eq, Structural)]
pub enum HealthOutcomeV2 {
    /// Known success.
    KnownSuccess,
    /// Known failure.
    KnownFailure,
    /// The call may have had effects but left no durable result.
    Ambiguous,
}

/// One sample kept in the health window.
#[derive(Debug, Clone, Copy, PartialEq, Eq, Structural)]
pub struct HealthObservationV2 {
    /// Unix UTC instant.
    pub at: u64,
    /// Conservative outcome.
    pub outcome: HealthOutcomeV2,
    /// Observed latency, or the time reserved for an ambiguous call.
    pub latency_ms: u64,
}

/// Category inferred from the harness answer, never from balances or keys.
#[derive(Debug, Clone, Copy, PartialEq, Eq, Structural)]
pub enum FailureCategory {
    /// Rate limit with an explicit delay.
    RateLimited {
        /// Seconds asked for by the harness.
        retry_after_seconds: u64,
    },
    /// Rate limit without a delay.
    RateLimitedUnknown,
    /// Quota exhausted.
    QuotaExhausted,
    /// Invalid or expired authentication.
    Authentication,
    /// The harness reported no balance.
    Balance,
    /// Unclassified transient failure.
    Transient,
    /// The single attempt ran out of wall time.
    Timeout,
    /// Observed failure that admits no implicit retry.
    Permanent,
}

/// Next step after a failure.
#[derive(Debug, Clone, Copy, PartialEq, Eq, Structural)]
pub enum RecoveryAction {
    /// Resume the same route at the given instant.
    RetrySameRoute {
        /// Unix UTC instant.
        at: u64,
    },
    /// Probe the same route without real work.
    ProbeSameRoute {
        /// Unix UTC instant.
        at: u64,
    },
    /// Checkpoint and choose a fallback now.
    FallbackImmediately,
}

/// Durable health of a route.
///
/// The success rate is carried as the count of known successes in the window;
/// the rate is that count over the window length, or one for an empty window.
#[derive(Debug, Clone, PartialEq, Eq)]
pub struct RouteHealth {
    /// The last twenty observations, in arrival order.
    pub observations: Vec<HealthObservationV2>,
    /// Known successes among the observations.
    pub recent_successes: u32,
    /// Observed p95 latency.
    pub latency_p95_ms: u64,
    /// Consecutive failures.
    pub consecutive_failures: u32,
    /// End of the cooldown.
    pub cooldown_until: Option<u64>,
    /// Consecutive probes scheduled.
    pub probe_attempts: u32,
    /// Needs intervention inside the harness.
    pub blocked_by_harness: bool,
    /// Last category.
    pub last_failure: Option<FailureCategory>,
}

/// Health transition: new durable health and the recovery action.
#[derive(Debug, Clone, PartialEq, Eq)]
pub struct HealthTransition {
    /// New durable health.
    pub health: RouteHealth,
    /// Recovery action.
    pub action: RecoveryAction,
}

/// Maximum number of observations kept.
pub const HEALTH_WINDOW: usize = 20;

/// Known successes in a window.
pub open spec fn count_successes(obs: Seq<HealthObservationV2>) -> nat
    decreases obs.len(),
{
    if obs.len() == 0 {
        0
    } else {
        count_successes(obs.drop_last()) + if obs.last().outcome == HealthOutcomeV2::KnownSuccess {
            1nat
        } else {
            0nat
        }
    }
}

/// The latencies of a window, in arrival order.
pub open spec fn latencies(obs: Seq<HealthObservationV2>) -> Seq<u64> {
    obs.map_values(|o: HealthObservationV2| o.latency_ms)
}

/// Numeric order on latencies.
pub open spec fn latency_le() -> spec_fn(u64, u64) -> bool {
    |a: u64, b: u64| a <= b
}

/// Nearest-rank position of the 95th percentile in a window of `n` samples, from one.
pub open spec fn p95_rank(n: int) -> int {
    (95 * n + 99) / 100
}

/// The nearest-rank 95th percentile of the latencies of a non-empty window.
pub open spec fn p95_of(obs: Seq<HealthObservationV2>) -> u64 {
    latencies(obs).sort_by(latency_le())[p95_rank(obs.len() as int) - 1]
}

/// The window after adding one observation: the last twenty of all of them.
pub open spec fn window_after(obs: Seq<HealthObservationV2>, o: HealthObservationV2) -> Seq<HealthObservationV2> {
    let all = obs.push(o);
    if all.len() > 20 {
        all.subrange(all.len() - 20, all.len() as int)
    } else {
        all
    }
}

impl RouteHealth {
    /// Initial health that invents no failure.
    pub fn healthy() -> (h: RouteHealth)
        ensures
            h.observations@.len() == 0,
            h.recent_successes == 0,
            h.latency_p95_ms == 0,
            h.consecutive_failures == 0,
            h.cooldown_until is None,
            h.probe_attempts == 0,
            !h.blocked_by_harness,
            h.last_failure is None,
    {
        RouteHealth {
            observations: Vec::new(),
            recent_successes: 0,
            latency_p95_ms: 0,
            consecutive_failures: 0,
            cooldown_until: None,
            probe_attempts: 0,
            blocked_by_harness: false,
            last_failure: None,
        }
    }
}

proof fn lemma_latency_order_total()
    ensures
        total_ordering(latency_le()),
{
}

proof fn lemma_count_successes_bound(obs: Seq<HealthObservationV2>)
    ensures
        count_successes(obs) <= obs.len(),
    decreases obs.len(),
{
    if obs.len() > 0 {
        lemma_count_successes_bound(obs.drop_last());
    }
}

/// Inserts a latency into a sorted vector, keeping it sorted.
fn insert_sorted(v: &mut Vec<u64>, x: u64)
    requires
        sorted_by(old(v)@, latency_le()),
    ensures
        sorted_by(final(v)@, latency_le()),
        final(v)@.to_multiset() == old(v)@.to_multiset().insert(x),
{
    broadcast use vstd::seq_lib::group_to_multiset_ensures;
    let mut p: usize = 0;
    while p < v.len() && v[p] <= x
        invariant
            p <= v@.len(),
            v@ == old(v)@,
            forall|j: int| 0 <= j < p ==> #[trigger] v@[j] <= x,
        decreases v@.len() - p,
    {
        p = p + 1;
    }
    let ghost before = v@;
    v.insert(p, x);
    proof {
        assert(v@ =~= before.insert(p as int, x));
        assert forall|i: int, j: int| 0 <= i < j < v@.len() implies #[trigger] latency_le()(v@[i], v@[j]) by {
            if j < p {
                assert(latency_le()(before[i], before[j]));
            } else if j == p {
                assert(v@[i] == before[i]);
            } else if i < p {
                assert(v@[j] == before[j - 1]);
                assert(v@[i] == before[i]);
                assert(latency_le()(before[i], before[j - 1]));
            } else if i == p {
                assert(v@[j] == before[j - 1]);
                assert(p < before.len());
                assert(!(before[p as int] <= x) || p == before.len());
                assert(latency_le()(before[p as int], before[j - 1]) || p as int == j - 1);
            } else {
                assert(latency_le()(before[i - 1], before[j - 1]));
            }
        }
    }
}

/// Sorts latencies in ascending order.
fn sort_latencies(xs: &Vec<u64>) -> (out: Vec<u64>)
    ensures
        out@ == xs@.sort_by(latency_le()),
{
    broadcast use vstd::seq_lib::group_to_multiset_ensures;
    let mut out: Vec<u64> = Vec::new();
    let mut i: usize = 0;
    while i < xs.len()
        invariant
            i <= xs@.len(),
            sorted_by(out@, latency_le()),
            out@.to_multiset() == xs@.subrange(0, i as int).to_multiset(),
        decreases xs@.len() - i,
    {
        insert_sorted(&mut out, xs[i]);
        proof {
            assert(xs@.subrange(0, i + 1) =~= xs@.subrange(0, i as int).push(xs@[i as int]));
            vstd::seq_lib::to_multiset_build(xs@.subrange(0, i as int), xs@[i as int]);
        }
        i = i + 1;
    }
    proof {
        assert(xs@.subrange(0, xs@.len() as int) =~= xs@);
        lemma_latency_order_total();
        xs@.lemma_sort_by_ensures(latency_le());
        vstd::seq_lib::lemma_sorted_unique(out@, xs@.sort_by(latency_le()), latency_le());
    }
    out
}


/// The health after recording one observation.
pub open spec fn recorded(old: RouteHealth, o: HealthObservationV2, new: RouteHealth) -> bool {
    let w = window_after(old.observations@, o);
    &&& new.observations@ == w
    &&& new.recent_successes == count_successes(w)
    &&& new.latency_p95_ms == p95_of(w)
    &&& new.consecutive_failures == (if o.outcome == HealthOutcomeV2::KnownSuccess {
        0
    } else {
        old.consecutive_failures.saturating_add(1)
    })
    &&& new.cooldown_until == old.cooldown_until
    &&& new.probe_attempts == old.probe_attempts
    &&& new.blocked_by_harness == old.blocked_by_harness
    &&& new.last_failure == old.last_failure
}

/// Counts the known successes of a window.
fn successes_in(obs: &Vec<HealthObservationV2>) -> (n: u64)
    ensures
        n == count_successes(obs@),
{
    let mut n: u64 = 0;
    let mut i: usize = 0;
    while i < obs.len()
        invariant
            i <= obs@.len(),
            n == count_successes(obs@.subrange(0, i as int)),
            n <= i,
        decreases obs@.len() - i,
    {
        assert(obs@.subrange(0, i + 1).drop_last() =~= obs@.subrange(0, i as int));
        if obs[i].outcome == HealthOutcomeV2::KnownSuccess {
            n = n + 1;
        }
        i = i + 1;
    }
    assert(obs@.subrange(0, obs@.len() as int) =~= obs@);
    n
}

impl RouteHealth {
    /// Adds a sample, keeps the last twenty and recomputes successes and p95.
    pub fn record(&mut self, observation: HealthObservationV2)
        ensures
            recorded(*old(self), observation, *final(self)),
            final(self).observations@.len() <= 20,
            final(self).recent_successes <= final(self).observations@.len(),
    {
        let ghost w = window_after(old(self).observations@, observation);
        let mut all = copy_vec(&self.observations);
        all.push(observation);
        let window = if all.len() > HEALTH_WINDOW {
            let start = all.len() - HEALTH_WINDOW;
            let mut kept: Vec<HealthObservationV2> = Vec::new();
            let mut i: usize = start;
            while i < all.len()
                invariant
                    start <= i <= all@.len(),
                    kept@ == all@.subrange(start as int, i as int),
                decreases all@.len() - i,
            {
                kept.push(all[i]);
                assert(kept@ =~= all@.subrange(start as int, i + 1));
                i = i + 1;
            }
            kept
        } else {
            all
        };
        assert(window@ =~= w);
        let successes = successes_in(&window);
        proof {
            lemma_count_successes_bound(window@);
        }
        let mut lat: Vec<u64> = Vec::new();
        let mut k: usize = 0;
        while k < window.len()
            invariant
                k <= window@.len(),
                lat@ == latencies(window@).subrange(0, k as int),
            decreases window@.len() - k,
        {
            lat.push(window[k].latency_ms);
            assert(lat@ =~= latencies(window@).subrange(0, k + 1));
            k = k + 1;
        }
        assert(lat@ =~= latencies(window@));
        let sorted = sort_latencies(&lat);
        let n = window.len();
        let rank = (95 * n + 99) / 100;
        proof {
            lemma_latency_order_total();
            lat@.lemma_sort_by_ensures(latency_le());
            vstd::seq_lib::to_multiset_len(lat@);
            vstd::seq_lib::to_multiset_len(sorted@);
            assert(1 <= rank <= n) by (nonlinear_arith)
                requires n >= 1, n <= 20, rank == (95 * n + 99) / 100;
        }
        let p95 = sorted[rank - 1];
        self.observations = window;
        self.recent_successes = successes as u32;
        self.latency_p95_ms = p95;
        match observation.outcome {
            HealthOutcomeV2::KnownSuccess => {
                self.consecutive_failures = 0;
            },
            _ => {
                self.consecutive_failures = self.consecutive_failures.saturating_add(1);
            },
        }
    }
}


/// The provider segment `minimax`, whose unexplained rate limits are probed with backoff.
pub open spec fn is_minimax(route: Seq<char>) -> bool {
    split_on_slash(route)[1] == seq!['m', 'i', 'n', 'i', 'm', 'a', 'x']
}

/// Probe delay in seconds after `attempts` earlier probes: 15, 30, then 60 minutes.
pub open spec fn probe_wait(attempts: u32) -> u64 {
    if attempts == 0 {
        900
    } else if attempts == 1 {
        1800
    } else {
        3600
    }
}

/// The recovery action a failure category leads to.
pub open spec fn recovery_for(h: RouteHealth, route: Seq<char>, c: FailureCategory, now: u64) -> RecoveryAction {
    match c {
        FailureCategory::RateLimited { retry_after_seconds } => if retry_after_seconds <= 300 {
            RecoveryAction::RetrySameRoute { at: now.saturating_add(retry_after_seconds) }
        } else {
            RecoveryAction::FallbackImmediately
        },
        FailureCategory::RateLimitedUnknown => if is_minimax(route) {
            RecoveryAction::ProbeSameRoute { at: now.saturating_add(probe_wait(h.probe_attempts)) }
        } else {
            RecoveryAction::FallbackImmediately
        },
        _ => RecoveryAction::FallbackImmediately,
    }
}

/// The health after classifying a failure.
pub open spec fn failure_recorded(h: RouteHealth, route: Seq<char>, c: FailureCategory, now: u64, new: RouteHealth) -> bool {
    let a = recovery_for(h, route, c, now);
    &&& new.observations@ == h.observations@
    &&& new.recent_successes == h.recent_successes
    &&& new.latency_p95_ms == h.latency_p95_ms
    &&& new.consecutive_failures == h.consecutive_failures.saturating_add(1)
    &&& new.last_failure == Some(c)
    &&& new.cooldown_until == match a {
        RecoveryAction::RetrySameRoute { at } => Some(at),
        RecoveryAction::ProbeSameRoute { at } => Some(at),
        RecoveryAction::FallbackImmediately => if c == FailureCategory::Authentication || c
            == FailureCategory::Balance {
            None
        } else {
            h.cooldown_until
        },
    }
    &&& new.probe_attempts == if a is ProbeSameRoute {
        h.probe_attempts.saturating_add(1)
    } else {
        h.probe_attempts
    }
    &&& new.blocked_by_harness == (h.blocked_by_harness || c == FailureCategory::Authentication || c
        == FailureCategory::Balance)
}

fn is_minimax_route(route: &RouteRef) -> (b: bool)
    ensures
        b == is_minimax(route@),
{
    let p = route.provider();
    let m = String::from_str("minimax");
    proof {
        reveal_strlit("minimax");
        assert("minimax"@ =~= seq!['m', 'i', 'n', 'i', 'm', 'a', 'x']);
    }
    p == m
}

/// Classifies the next step after a failure without any call or secret lookup.
pub fn record_failure(current: &RouteHealth, route: &RouteRef, category: FailureCategory, now: u64) -> (t: HealthTransition)
    ensures
        t.action == recovery_for(*current, route@, category, now),
        failure_recorded(*current, route@, category, now, t.health),
        category matches FailureCategory::RateLimited { retry_after_seconds: s } ==> (s <= 300 <==> t.action is RetrySameRoute),
        t.action matches RecoveryAction::RetrySameRoute { at } ==> category matches FailureCategory::RateLimited { retry_after_seconds: s }
            && now <= at && (now + s <= u64::MAX ==> at == now + s) && (now + s > u64::MAX ==> at == u64::MAX)
            && t.health.cooldown_until == Some(at),
{
    proof {
        law_rate_limit_waits_the_asked_delay(*current, route@, category, now, recovery_for(*current, route@, category, now));
    }
    let mut health = RouteHealth {
        observations: copy_vec(&current.observations),
        recent_successes: current.recent_successes,
        latency_p95_ms: current.latency_p95_ms,
        consecutive_failures: current.consecutive_failures.saturating_add(1),
        cooldown_until: current.cooldown_until,
        probe_attempts: current.probe_attempts,
        blocked_by_harness: current.blocked_by_harness,
        last_failure: Some(category),
    };
    let action = match category {
        FailureCategory::RateLimited { retry_after_seconds } if retry_after_seconds <= 300 => {
            let at = now.saturating_add(retry_after_seconds);
            health.cooldown_until = Some(at);
            RecoveryAction::RetrySameRoute { at }
        },
        FailureCategory::RateLimitedUnknown if is_minimax_route(route) => {
            let wait: u64 = if health.probe_attempts == 0 {
                900
            } else if health.probe_attempts == 1 {
                1800
            } else {
                3600
            };
            health.probe_attempts = health.probe_attempts.saturating_add(1);
            let at = now.saturating_add(wait);
            health.cooldown_until = Some(at);
            RecoveryAction::ProbeSameRoute { at }
        },
        FailureCategory::Authentication | FailureCategory::Balance => {
            health.blocked_by_harness = true;
            health.cooldown_until = None;
            RecoveryAction::FallbackImmediately
        },
        _ => RecoveryAction::FallbackImmediately,
    };
    HealthTransition { health, action }
}

/// A rate limit with a delay of at most five minutes is retried on the same
/// route exactly that many seconds later (the last representable instant if
/// that overflows), and the route cools down until then; a longer delay, or
/// any other failure, never schedules a same-route retry.
pub proof fn law_rate_limit_waits_the_asked_delay(h: RouteHealth, route: Seq<char>, c: FailureCategory, now: u64, a: RecoveryAction)
    requires
        a == recovery_for(h, route, c, now),
    ensures
        c matches FailureCategory::RateLimited { retry_after_seconds: s } ==> (s <= 300 <==> a is RetrySameRoute),
        a matches RecoveryAction::RetrySameRoute { at } ==> ({
            &&& c matches FailureCategory::RateLimited { retry_after_seconds: s }
                && now <= at
                && (now + s <= u64::MAX ==> at == now + s)
                && (now + s > u64::MAX ==> at == u64::MAX)
            &&& forall|new: RouteHealth| #[trigger] failure_recorded(h, route, c, now, new) ==> new.cooldown_until == Some(at)
        }),
        a matches RecoveryAction::ProbeSameRoute { at } ==> now <= at,
{
}

/// Law: a route is probed only after a rate limit without a delay on a
/// MiniMax route, at least fifteen minutes and at most an hour later, never
/// sooner after more probes; failures of authentication or balance block the
/// route at once and fall back; every failure counts once more and keeps the
/// observed history.
pub proof fn law_failure_classification(h: RouteHealth, route: Seq<char>, c: FailureCategory, now: u64, new: RouteHealth)
    requires
        failure_recorded(h, route, c, now, new),
    ensures
        recovery_for(h, route, c, now) matches RecoveryAction::ProbeSameRoute { at } ==> ({
            &&& c is RateLimitedUnknown && is_minimax(route)
            &&& now + 900 <= u64::MAX ==> at >= now + 900
            &&& at <= now + 3600
            &&& new.cooldown_until == Some(at)
            &&& new.probe_attempts == h.probe_attempts.saturating_add(1)
        }),
        (c is Authentication || c is Balance) ==> recovery_for(h, route, c, now) is FallbackImmediately
            && new.blocked_by_harness && new.cooldown_until is None,
        !(c is RateLimited || c is RateLimitedUnknown) ==> recovery_for(h, route, c, now) is FallbackImmediately,
        new.consecutive_failures == h.consecutive_failures.saturating_add(1),
        new.observations@ == h.observations@,
        new.recent_successes == h.recent_successes,
        new.last_failure == Some(c),
{
}

/// Law: later probes of the same route never wait less than earlier ones.
pub proof fn law_probe_waits_grow(a: u32, b: u32)
    requires
        a <= b,
    ensures
        probe_wait(a) <= probe_wait(b),
        900 <= probe_wait(a) <= 3600,
{
}

/// Law: recording an observation keeps the newest twenty, the new one last
/// and the others in arrival order; its successes are the known successes
/// among them, a known success clears the failure streak and anything else
/// extends it; the p95 latency is one of the kept latencies; and the cooldown, probes and harness block are untouched.
pub proof fn law_record_keeps_the_newest_twenty(old: RouteHealth, o: HealthObservationV2, new: RouteHealth)
    requires
        recorded(old, o, new),
    ensures
        new.observations@.len() == if old.observations@.len() + 1 > 20 { 20 } else { old.observations@.len() + 1 },
        new.observations@.last() == o,
        new.observations@ == old.observations@.push(o).subrange(
            old.observations@.len() + 1 - new.observations@.len(), old.observations@.len() + 1 as int),
        new.recent_successes <= new.observations@.len(),
        o.outcome == HealthOutcomeV2::KnownSuccess ==> new.consecutive_failures == 0 && new.recent_successes >= 1,
        o.outcome != HealthOutcomeV2::KnownSuccess ==> new.consecutive_failures == old.consecutive_failures.saturating_add(1),
        latencies(new.observations@).contains(new.latency_p95_ms),
        new.cooldown_until == old.cooldown_until,
        new.probe_attempts == old.probe_attempts,
        new.blocked_by_harness == old.blocked_by_harness,
{
    let w = new.observations@;
    let all = old.observations@.push(o);
    if all.len() > 20 {
        assert(w =~= all.subrange(all.len() - 20, all.len() as int));
    } else {
        assert(w =~= all.subrange(0, all.len() as int));
    }
    lemma_count_successes_bound(w);
    if o.outcome == HealthOutcomeV2::KnownSuccess {
        assert(w.drop_last().len() + 1 == w.len());
    }
    let n = w.len() as int;
    let ls = latencies(w);
    lemma_latency_order_total();
    ls.lemma_sort_by_ensures(latency_le());
    let sorted = ls.sort_by(latency_le());
    assert(1 <= n <= 20);
    assert(1 <= p95_rank(n) <= n) by (nonlinear_arith)
        requires
            1 <= n <= 20;
    assert(sorted.len() == n) by {
        broadcast use vstd::seq_lib::group_to_multiset_ensures;
        assert(sorted.to_multiset().len() == sorted.len());
        assert(ls.to_multiset().len() == ls.len());
    }
    let v = sorted[p95_rank(n) - 1];
    assert(sorted.contains(v));
    vstd::seq_lib::to_multiset_contains(sorted, v);
    vstd::seq_lib::to_multiset_contains(ls, v);
    let k = choose|k: int| 0 <= k < ls.len() && ls[k] == v;
    assert(w[k].latency_ms == v);
}

} // verus!
