//! Durable run machine with at most one active route.

use vstd::prelude::*;

use crate::handoff::{same_draft, HandoffCheckpoint};
use crate::health::RecoveryAction;
use crate::route::RouteRef;

verus! {

/// Durable state of a run with at most one active route.
#[derive(Debug, Clone, PartialEq, Eq)]
pub enum RunState {
    /// No route chosen or started yet.
    Planned,
    /// The single active route.
    Running {
        /// Active route.
        route: RouteRef,
        /// Checkpoint received from the previous route, if there was a handoff.
        handoff: Option<HandoffCheckpoint>,
    },
    /// Retry or probe scheduled on the same route.
    WaitingRetry {
        /// Route kept.
        route: RouteRef,
        /// Earliest resume instant.
        at: u64,
        /// Compact work state.
        checkpoint: HandoffCheckpoint,
    },
    /// Work stopped and ready to choose a fallback.
    Checkpointed {
        /// Compact work state.
        checkpoint: HandoffCheckpoint,
    },
    /// Fallback chosen but not started.
    FallbackSelected {
        /// Next route.
        route: RouteRef,
        /// State it will receive.
        checkpoint: HandoffCheckpoint,
    },
    /// Run finished.
    Completed {
        /// Route that produced the result.
        route: RouteRef,
    },
}

/// Explicit event that can move the machine.
#[derive(Debug, Clone, PartialEq, Eq)]
pub enum RunEvent {
    /// Start the first route.
    Start {
        /// Chosen route.
        route: RouteRef,
    },
    /// The active route finished well.
    Success,
    /// The active route failed and left a checkpoint.
    Failure {
        /// Compact handoff.
        checkpoint: HandoffCheckpoint,
        /// Recovery policy already classified.
        recovery: RecoveryAction,
    },
    /// A fallback was chosen after the checkpoint.
    SelectFallback {
        /// Chosen route.
        route: RouteRef,
    },
    /// Resume a selected route, or one whose delay has elapsed.
    Resume {
        /// Unix UTC instant used to check waits.
        now: u64,
    },
}

/// An event that does not belong to the current state.
#[derive(Debug, Clone, PartialEq, Eq)]
pub struct RunTransitionError {
    /// Name of the current state.
    pub state: &'static str,
    /// Name of the rejected event.
    pub event: &'static str,
}

/// Stable name of a state.
pub open spec fn state_name_spec(s: RunState) -> &'static str {
    match s {
        RunState::Planned => "planned",
        RunState::Running { .. } => "running",
        RunState::WaitingRetry { .. } => "waiting_retry",
        RunState::Checkpointed { .. } => "checkpointed",
        RunState::FallbackSelected { .. } => "fallback_selected",
        RunState::Completed { .. } => "completed",
    }
}

/// Stable name of an event.
pub open spec fn event_name_spec(e: RunEvent) -> &'static str {
    match e {
        RunEvent::Start { .. } => "start",
        RunEvent::Success => "success",
        RunEvent::Failure { .. } => "failure",
        RunEvent::SelectFallback { .. } => "select_fallback",
        RunEvent::Resume { .. } => "resume",
    }
}

/// Two checkpoints with the same contents.
pub open spec fn same_checkpoint(a: HandoffCheckpoint, b: HandoffCheckpoint) -> bool {
    same_draft(a@, b@)
}

/// Two states that are equal up to copies of their checkpoints.
pub open spec fn same_state(a: RunState, b: RunState) -> bool {
    match (a, b) {
        (RunState::Planned, RunState::Planned) => true,
        (RunState::Running { route: r1, handoff: h1 }, RunState::Running { route: r2, handoff: h2 }) => {
            r1 == r2 && match (h1, h2) {
                (None, None) => true,
                (Some(c1), Some(c2)) => same_checkpoint(c1, c2),
                _ => false,
            }
        },
        (RunState::WaitingRetry { route: r1, at: a1, checkpoint: c1 }, RunState::WaitingRetry { route: r2, at: a2, checkpoint: c2 }) => r1 == r2 && a1 == a2 && same_checkpoint(c1, c2),
        (RunState::Checkpointed { checkpoint: c1 }, RunState::Checkpointed { checkpoint: c2 }) => same_checkpoint(c1, c2),
        (RunState::FallbackSelected { route: r1, checkpoint: c1 }, RunState::FallbackSelected { route: r2, checkpoint: c2 }) => r1 == r2 && same_checkpoint(c1, c2),
        (RunState::Completed { route: r1 }, RunState::Completed { route: r2 }) => r1 == r2,
        _ => false,
    }
}

/// The transition table of the run machine; `None` when the event does not apply.
pub open spec fn advance_spec(s: RunState, e: RunEvent) -> Option<RunState> {
    match (s, e) {
        (RunState::Planned, RunEvent::Start { route }) => Some(RunState::Running { route, handoff: None }),
        (RunState::Running { route, .. }, RunEvent::Success) => Some(RunState::Completed { route }),
        (RunState::Running { route, .. }, RunEvent::Failure { checkpoint, recovery }) => match recovery {
            RecoveryAction::RetrySameRoute { at } => Some(RunState::WaitingRetry { route, at, checkpoint }),
            RecoveryAction::ProbeSameRoute { at } => Some(RunState::WaitingRetry { route, at, checkpoint }),
            RecoveryAction::FallbackImmediately => Some(RunState::Checkpointed { checkpoint }),
        },
        (RunState::Checkpointed { checkpoint }, RunEvent::SelectFallback { route }) => Some(RunState::FallbackSelected { route, checkpoint }),
        (RunState::FallbackSelected { route, checkpoint }, RunEvent::Resume { .. }) => Some(RunState::Running { route, handoff: Some(checkpoint) }),
        (RunState::WaitingRetry { route, at, checkpoint }, RunEvent::Resume { now }) => if now >= at {
            Some(RunState::Running { route, handoff: Some(checkpoint) })
        } else {
            None
        },
        _ => None,
    }
}

/// The route a state holds as active or next, if any.
pub open spec fn route_of(s: RunState) -> Option<RouteRef> {
    match s {
        RunState::Planned => None,
        RunState::Running { route, .. } => Some(route),
        RunState::WaitingRetry { route, .. } => Some(route),
        RunState::Checkpointed { .. } => None,
        RunState::FallbackSelected { route, .. } => Some(route),
        RunState::Completed { route } => Some(route),
    }
}

fn state_name(s: &RunState) -> (n: &'static str)
    ensures
        n == state_name_spec(*s),
{
    match s {
        RunState::Planned => "planned",
        RunState::Running { .. } => "running",
        RunState::WaitingRetry { .. } => "waiting_retry",
        RunState::Checkpointed { .. } => "checkpointed",
        RunState::FallbackSelected { .. } => "fallback_selected",
        RunState::Completed { .. } => "completed",
    }
}

fn event_name(e: &RunEvent) -> (n: &'static str)
    ensures
        n == event_name_spec(*e),
{
    match e {
        RunEvent::Start { .. } => "start",
        RunEvent::Success => "success",
        RunEvent::Failure { .. } => "failure",
        RunEvent::SelectFallback { .. } => "select_fallback",
        RunEvent::Resume { .. } => "resume",
    }
}

/// Applies a pure transition; never executes, never starts a second route.
pub fn advance_run(state: &RunState, event: RunEvent) -> (r: Result<RunState, RunTransitionError>)
    ensures
        r is Ok <==> advance_spec(*state, event) is Some,
        r matches Ok(next) ==> same_state(next, advance_spec(*state, event)->Some_0),
        r matches Err(err) ==> err.state == state_name_spec(*state) && err.event == event_name_spec(event),
        state is Running && event is Failure ==> (r is Ok && (r->Ok_0 is Checkpointed
            <==> event->Failure_recovery is FallbackImmediately)),
        state is Running && event is Failure && event->Failure_recovery is RetrySameRoute ==> (r is Ok
            && r->Ok_0 is WaitingRetry && r->Ok_0->WaitingRetry_route == state->Running_route
            && r->Ok_0->WaitingRetry_at == event->Failure_recovery->RetrySameRoute_at),
        state is Running && event is Failure && event->Failure_recovery is ProbeSameRoute ==> (r is Ok
            && r->Ok_0 is WaitingRetry && r->Ok_0->WaitingRetry_route == state->Running_route
            && r->Ok_0->WaitingRetry_at == event->Failure_recovery->ProbeSameRoute_at),
{
    proof {
        if state is Running && event is Failure {
            law_failure_keeps_the_route_until_fallback(*state, event);
        }
    }
    let ename = event_name(&event);
    match (state, event) {
        (RunState::Planned, RunEvent::Start { route }) => Ok(RunState::Running { route, handoff: None }),
        (RunState::Running { route, .. }, RunEvent::Success) => Ok(RunState::Completed { route: route.clone() }),
        (RunState::Running { route, .. }, RunEvent::Failure { checkpoint, recovery }) => match recovery {
            RecoveryAction::RetrySameRoute { at } => Ok(RunState::WaitingRetry { route: route.clone(), at, checkpoint }),
            RecoveryAction::ProbeSameRoute { at } => Ok(RunState::WaitingRetry { route: route.clone(), at, checkpoint }),
            RecoveryAction::FallbackImmediately => Ok(RunState::Checkpointed { checkpoint }),
        },
        (RunState::Checkpointed { checkpoint }, RunEvent::SelectFallback { route }) => Ok(RunState::FallbackSelected { route, checkpoint: checkpoint.clone() }),
        (RunState::FallbackSelected { route, checkpoint }, RunEvent::Resume { .. }) => Ok(RunState::Running { route: route.clone(), handoff: Some(checkpoint.clone()) }),
        (RunState::WaitingRetry { route, at, checkpoint }, RunEvent::Resume { now }) if now >= *at => Ok(RunState::Running { route: route.clone(), handoff: Some(checkpoint.clone()) }),
        (current, _) => Err(RunTransitionError { state: state_name(current), event: ename }),
    }
}


/// Law: a completed run is terminal; no event moves it.
pub proof fn law_completed_is_terminal(s: RunState, e: RunEvent)
    requires
        s is Completed,
    ensures
        advance_spec(s, e) is None,
{
}

/// Law: only a planned run can start; a second start is always refused, so no
/// second route ever runs beside the first.
pub proof fn law_single_start(s: RunState, route: RouteRef)
    requires
        !(s is Planned),
    ensures
        advance_spec(s, RunEvent::Start { route }) is None,
{
}

/// Law: a route becomes active only by starting a planned run, resuming a chosen
/// fallback, or resuming a retry whose instant has come.
pub proof fn law_running_entry(s: RunState, e: RunEvent)
    requires
        advance_spec(s, e) matches Some(RunState::Running { .. }),
    ensures
        (s is Planned && e is Start) || (s is FallbackSelected && e is Resume) || (s is WaitingRetry
            && e is Resume && e->Resume_now >= s->WaitingRetry_at),
{
}

/// Law: a wait is never cut short; resuming before its instant is refused.
pub proof fn law_no_early_resume(route: RouteRef, at: u64, checkpoint: HandoffCheckpoint, now: u64)
    requires
        now < at,
    ensures
        advance_spec(RunState::WaitingRetry { route, at, checkpoint }, RunEvent::Resume { now }) is None,
{
}

/// Law: success and retry keep the route that was running; a fallback route
/// only comes from an explicit selection after a checkpoint.
pub proof fn law_route_continuity(s: RunState, e: RunEvent)
    requires
        s is Running,
        advance_spec(s, e) is Some,
        !(advance_spec(s, e)->Some_0 is Checkpointed),
    ensures
        route_of(advance_spec(s, e)->Some_0) == route_of(s),
{
}

/// Law: a failure of the running route waits for that same route when its
/// recovery is a retry or a probe, at the recovery's instant and with the
/// checkpoint it left; only an immediate fallback leaves the route and
/// checkpoints the run for a fallback selection.
pub proof fn law_failure_keeps_the_route_until_fallback(s: RunState, e: RunEvent)
    requires
        s is Running,
        e is Failure,
    ensures
        advance_spec(s, e) is Some,
        advance_spec(s, e)->Some_0 is Checkpointed <==> e->Failure_recovery is FallbackImmediately,
        advance_spec(s, e)->Some_0 is Checkpointed ==> advance_spec(s, e)->Some_0->Checkpointed_checkpoint == e->Failure_checkpoint,
        !(e->Failure_recovery is FallbackImmediately) ==> ({
            let next = advance_spec(s, e)->Some_0;
            &&& next is WaitingRetry
            &&& next->WaitingRetry_route == s->Running_route
            &&& next->WaitingRetry_checkpoint == e->Failure_checkpoint
            &&& e->Failure_recovery is RetrySameRoute ==> next->WaitingRetry_at == e->Failure_recovery->RetrySameRoute_at
            &&& e->Failure_recovery is ProbeSameRoute ==> next->WaitingRetry_at == e->Failure_recovery->ProbeSameRoute_at
        }),
{
}

/// Law: every other transition carries the route and the checkpoint it is
/// given: a success completes the running route, a chosen fallback keeps the
/// checkpoint, and resuming runs the chosen or waiting route with that
/// checkpoint as its handoff, a waiting route only once its instant has come.
pub proof fn law_transitions_carry_route_and_checkpoint(s: RunState, e: RunEvent)
    ensures
        s is Running && e is Success ==> advance_spec(s, e) == Some(RunState::Completed { route: s->Running_route }),
        s is Checkpointed && e is SelectFallback ==> advance_spec(s, e) == Some(RunState::FallbackSelected {
            route: e->SelectFallback_route,
            checkpoint: s->Checkpointed_checkpoint,
        }),
        s is FallbackSelected && e is Resume ==> advance_spec(s, e) == Some(RunState::Running {
            route: s->FallbackSelected_route,
            handoff: Some(s->FallbackSelected_checkpoint),
        }),
        s is WaitingRetry && e is Resume ==> (advance_spec(s, e) is Some <==> e->Resume_now >= s->WaitingRetry_at),
        s is WaitingRetry && e is Resume && e->Resume_now >= s->WaitingRetry_at ==> advance_spec(s, e) == Some(RunState::Running {
            route: s->WaitingRetry_route,
            handoff: Some(s->WaitingRetry_checkpoint),
        }),
        s is Planned && e is Start ==> advance_spec(s, e) == Some(RunState::Running { route: e->Start_route, handoff: None }),
{
}

} // verus!
