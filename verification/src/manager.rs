//! The connection manager: a state machine that owns the lifecycle of
//! the single streaming connection. The surrounding runtime performs each
//! action it asks for (connect, subscribe, run the processor, wait) and
//! reports the outcome back; the machine decides what happens next. It
//! has no terminal state: every failure or termination leads through one
//! fixed backoff to exactly one fresh connection attempt.

use vstd::prelude::*;

verus! {

/// The fixed backoff, in seconds, between a failure and the retry.
pub const BACKOFF_SECS: u64 = 5;

/// Where the manager stands in the connection lifecycle.
#[derive(Clone, Copy, Debug, PartialEq, Eq, Structural)]
pub enum ManagerState {
    /// A connection attempt is in flight.
    Connecting,
    /// The connection is up; a subscription attempt is in flight.
    Subscribing,
    /// A live subscription is in the event processor's hands.
    Streaming,
    /// A failure or termination was seen; the backoff wait is running.
    BackingOff,
}

/// What the runtime reports back after performing the requested action.
#[derive(Clone, Copy, Debug, PartialEq, Eq, Structural)]
pub enum ManagerEvent {
    ConnectSucceeded,
    ConnectFailed,
    SubscribeSucceeded,
    SubscribeFailed,
    /// The subscription's feed ended, cleanly or not.
    FeedEnded,
    BackoffElapsed,
}

/// What the manager asks the runtime to do next.
#[derive(Clone, Copy, Debug, PartialEq, Eq, Structural)]
pub enum ManagerAction {
    /// Open a fresh streaming connection.
    OpenConnection,
    /// Open a subscription on the connection just established.
    OpenSubscription,
    /// Hand the live subscription to the event processor.
    RunProcessor,
    /// Report the failure and wait `BACKOFF_SECS` seconds.
    Wait,
}

/// The events that can arrive in a given state: exactly the outcomes of
/// the action that state asked for.
pub open spec fn event_fits(state: ManagerState, event: ManagerEvent) -> bool {
    match state {
        ManagerState::Connecting => event == ManagerEvent::ConnectSucceeded || event
            == ManagerEvent::ConnectFailed,
        ManagerState::Subscribing => event == ManagerEvent::SubscribeSucceeded || event
            == ManagerEvent::SubscribeFailed,
        ManagerState::Streaming => event == ManagerEvent::FeedEnded,
        ManagerState::BackingOff => event == ManagerEvent::BackoffElapsed,
    }
}

/// The transition function, as a spec: next state and action for each
/// state/event pair.
pub open spec fn step_spec(state: ManagerState, event: ManagerEvent) -> (ManagerState, ManagerAction) {
    match event {
        ManagerEvent::ConnectSucceeded => (ManagerState::Subscribing, ManagerAction::OpenSubscription),
        ManagerEvent::ConnectFailed => (ManagerState::BackingOff, ManagerAction::Wait),
        ManagerEvent::SubscribeSucceeded => (ManagerState::Streaming, ManagerAction::RunProcessor),
        ManagerEvent::SubscribeFailed => (ManagerState::BackingOff, ManagerAction::Wait),
        ManagerEvent::FeedEnded => (ManagerState::BackingOff, ManagerAction::Wait),
        ManagerEvent::BackoffElapsed => (ManagerState::Connecting, ManagerAction::OpenConnection),
    }
}

/// The state the manager starts in, asking for the first connection.
pub fn initial() -> (r: (ManagerState, ManagerAction))
    ensures
        r.0 == ManagerState::Connecting,
        r.1 == ManagerAction::OpenConnection,
{
    (ManagerState::Connecting, ManagerAction::OpenConnection)
}

/// One step of the lifecycle: takes the outcome of the last action and
/// decides the next state and action. Total over fitting events, so the
/// loop can never stop: every failure path leads to `Wait` and every
/// elapsed backoff to a fresh `OpenConnection`.
pub fn step(state: ManagerState, event: ManagerEvent) -> (r: (ManagerState, ManagerAction))
    requires
        event_fits(state, event),
    ensures
        r == step_spec(state, event),
{
    match event {
        ManagerEvent::ConnectSucceeded => (ManagerState::Subscribing, ManagerAction::OpenSubscription),
        ManagerEvent::ConnectFailed => (ManagerState::BackingOff, ManagerAction::Wait),
        ManagerEvent::SubscribeSucceeded => (ManagerState::Streaming, ManagerAction::RunProcessor),
        ManagerEvent::SubscribeFailed => (ManagerState::BackingOff, ManagerAction::Wait),
        ManagerEvent::FeedEnded => (ManagerState::BackingOff, ManagerAction::Wait),
        ManagerEvent::BackoffElapsed => (ManagerState::Connecting, ManagerAction::OpenConnection),
    }
}

/// The state after running a whole event trace from `state`.
pub open spec fn run_trace(state: ManagerState, events: Seq<ManagerEvent>) -> ManagerState
    decreases events.len(),
{
    if events.len() == 0 {
        state
    } else {
        step_spec(run_trace(state, events.drop_last()), events.last()).0
    }
}

/// A trace is valid when each event fits the state the machine is in
/// when the event arrives.
pub open spec fn valid_trace(state: ManagerState, events: Seq<ManagerEvent>) -> bool
    decreases events.len(),
{
    if events.len() == 0 {
        true
    } else {
        valid_trace(state, events.drop_last()) && event_fits(
            run_trace(state, events.drop_last()),
            events.last(),
        )
    }
}

/// The actions a whole event trace asks for, in order.
pub open spec fn trace_actions(state: ManagerState, events: Seq<ManagerEvent>) -> Seq<ManagerAction>
    decreases events.len(),
{
    if events.len() == 0 {
        Seq::empty()
    } else {
        trace_actions(state, events.drop_last()).push(
            step_spec(run_trace(state, events.drop_last()), events.last()).1,
        )
    }
}

/// How many times a sequence holds a given action.
pub open spec fn count_actions(actions: Seq<ManagerAction>, which: ManagerAction) -> nat
    decreases actions.len(),
{
    if actions.len() == 0 {
        0
    } else {
        count_actions(actions.drop_last(), which) + if actions.last() == which {
            1nat
        } else {
            0nat
        }
    }
}

/// How many times a trace holds a given event.
pub open spec fn count_events(events: Seq<ManagerEvent>, which: ManagerEvent) -> nat
    decreases events.len(),
{
    if events.len() == 0 {
        0
    } else {
        count_events(events.drop_last(), which) + if events.last() == which {
            1nat
        } else {
            0nat
        }
    }
}

/// Reconnection happens exactly once per termination: over any event
/// trace, the manager asks for exactly one backoff wait per failure or
/// feed termination, and exactly one fresh connection attempt per
/// elapsed backoff — never more, never fewer, with no way to stop.
pub proof fn lemma_reconnect_once_per_termination(state: ManagerState, events: Seq<ManagerEvent>)
    ensures
        count_actions(trace_actions(state, events), ManagerAction::Wait) == count_events(
            events,
            ManagerEvent::ConnectFailed,
        ) + count_events(events, ManagerEvent::SubscribeFailed) + count_events(
            events,
            ManagerEvent::FeedEnded,
        ),
        count_actions(trace_actions(state, events), ManagerAction::OpenConnection) == count_events(
            events,
            ManagerEvent::BackoffElapsed,
        ),
    decreases events.len(),
{
    if events.len() > 0 {
        lemma_reconnect_once_per_termination(state, events.drop_last());
        assert(trace_actions(state, events).drop_last() =~= trace_actions(state, events.drop_last()));
    }
}

} // verus!
