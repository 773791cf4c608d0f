//! Phases and journal of a durable run.

use vstd::prelude::*;

use crate::route::RouteRef;
use crate::util::Duplicate;

verus! {

/// Observable durable phase.
#[derive(Debug, Clone, Copy, PartialEq, Eq, Structural)]
pub enum RunPhaseV2 {
    /// Durable selection, no reservation yet.
    Planned,
    /// Durable budget confirmed.
    Reserved,
    /// The call may have produced an effect.
    InvocationStarted,
    /// An attempt ended with a known failure and may still recover.
    AttemptFailed,
    /// Durable wait for an explicit retry.
    WaitingRetry,
    /// Durable checkpoint ready to select a fallback.
    HandoffReady,
    /// Known successful result.
    Completed,
    /// Known final failure.
    Failed,
    /// Unknown whether the provider produced an effect.
    OutcomeUnknown,
}

/// Closed kind of a journal event.
#[derive(Debug, Clone, Copy, PartialEq, Eq, Structural)]
pub enum RunJournalKindV2 {
    /// Validated selection.
    Planned,
    /// Reservation confirmed.
    Reserved,
    /// Mark synced right before calling.
    InvocationStarted,
    /// Known success.
    InvocationSucceeded,
    /// Known failure.
    InvocationFailed,
    /// Wait and next attempt reserved.
    RetryScheduled,
    /// The durable wait elapsed.
    RetryElapsed,
    /// Compact checkpoint created.
    HandoffCreated,
    /// Ambiguous result recovered.
    OutcomeUnknown,
}

/// Monotonic journal event.
#[derive(Debug, Clone, PartialEq, Eq)]
pub struct RunJournalEventV2 {
    /// Sequence from zero.
    pub sequence: u64,
    /// Unix UTC instant in seconds.
    pub at: u64,
    /// Transition kind.
    pub kind: RunJournalKindV2,
    /// Route involved.
    pub route: Option<RouteRef>,
}

/// Terminal phases: a receipt can only be sealed in one of them.
pub open spec fn is_terminal(p: RunPhaseV2) -> bool {
    p == RunPhaseV2::Completed || p == RunPhaseV2::Failed || p == RunPhaseV2::OutcomeUnknown
}

/// The journal kind that must close a run ending in a terminal phase.
pub open spec fn closing_kind(p: RunPhaseV2) -> RunJournalKindV2 {
    if p == RunPhaseV2::Completed {
        RunJournalKindV2::InvocationSucceeded
    } else if p == RunPhaseV2::Failed {
        RunJournalKindV2::InvocationFailed
    } else {
        RunJournalKindV2::OutcomeUnknown
    }
}

/// The journal counts from zero without gaps and its instants never go back
/// before the creation instant or the previous event.
pub open spec fn journal_monotonic(journal: Seq<RunJournalEventV2>, created_at: u64) -> bool {
    &&& forall|i: int| 0 <= i < journal.len() ==> #[trigger] journal[i].sequence == i
    &&& forall|i: int| 0 <= i < journal.len() ==> created_at <= #[trigger] journal[i].at
    &&& forall|i: int, j: int| 0 <= i < j < journal.len() ==> #[trigger] journal[i].at <= #[trigger] journal[j].at
}

/// Checks that the journal is contiguous and monotonic.
pub fn check_journal(journal: &Vec<RunJournalEventV2>, created_at: u64) -> (b: bool)
    ensures
        b == journal_monotonic(journal@, created_at),
{
    let mut previous = created_at;
    let mut i: usize = 0;
    while i < journal.len()
        invariant
            i <= journal@.len(),
            forall|k: int| 0 <= k < i ==> #[trigger] journal@[k].sequence == k,
            forall|k: int| 0 <= k < i ==> created_at <= #[trigger] journal@[k].at,
            forall|k: int, l: int| 0 <= k < l < i ==> #[trigger] journal@[k].at <= #[trigger] journal@[l].at,
            i == 0 ==> previous == created_at,
            i > 0 ==> previous == journal@[i - 1].at,
            forall|k: int| 0 <= k < i ==> #[trigger] journal@[k].at <= previous,
            created_at <= previous,
        decreases journal@.len() - i,
    {
        let e = &journal[i];
        if e.sequence != i as u64 || e.at < previous {
            proof {
                if e.sequence != i as u64 {
                    assert(journal@[i as int].sequence != i);
                } else if i > 0 {
                    assert(journal@[i - 1].at > journal@[i as int].at);
                } else {
                    assert(journal@[0].at < created_at);
                }
            }
            return false;
        }
        previous = e.at;
        i = i + 1;
    }
    true
}

/// The event appended to a journal of `len` events at `now_ms`.
pub open spec fn next_event(len: nat, now_ms: u64, kind: RunJournalKindV2, route: Option<RouteRef>) -> RunJournalEventV2 {
    RunJournalEventV2 {
        sequence: if len <= u64::MAX { len as u64 } else { u64::MAX },
        at: now_ms / 1000,
        kind,
        route,
    }
}

/// Appends an event with the next sequence number at `now_ms` rounded down to seconds.
pub fn push_event(journal: &mut Vec<RunJournalEventV2>, now_ms: u64, kind: RunJournalKindV2, route: Option<RouteRef>)
    ensures
        final(journal)@.len() == old(journal)@.len() + 1,
        final(journal)@.subrange(0, old(journal)@.len() as int) == old(journal)@,
        final(journal)@.last() == (RunJournalEventV2 {
            sequence: if old(journal)@.len() <= u64::MAX { old(journal)@.len() as u64 } else { u64::MAX },
            at: now_ms / 1000,
            kind,
            route,
        }),
{
    let n = journal.len();
    let sequence = n as u64;
    journal.push(RunJournalEventV2 { sequence, at: now_ms / 1000, kind, route });
    assert(journal@.subrange(0, n as int) =~= old(journal)@);
}

impl Duplicate for RunJournalEventV2 {
    fn duplicate(&self) -> (r: Self) {
        let route = match &self.route {
            Some(route) => Some(route.clone()),
            None => None,
        };
        RunJournalEventV2 { sequence: self.sequence, at: self.at, kind: self.kind, route }
    }
}

} // verus!
