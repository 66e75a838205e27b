//! The per-connection lifecycle: `Connecting → Active → Closing → Closed`.
//!
//! The supervisor's loop (spawning the pipelines, awaiting whichever ends
//! first) runs with the task runtime; the decisions it follows — which phase
//! comes next and what must be done on each transition — are fixed here.

use vstd::prelude::*;

verus! {

/// The phase of one connection. `Closed` is terminal.
#[derive(Clone, Copy, PartialEq, Eq, Structural, Debug)]
pub enum ConnectionPhase {
    Connecting,
    Active,
    Closing,
    Closed,
}

/// What the supervisor observes about one connection.
#[derive(Clone, Copy, PartialEq, Eq, Structural, Debug)]
pub enum ConnectionEvent {
    /// The transport upgrade succeeded and the session was registered.
    UpgradeSucceeded,
    /// Either pipeline terminated (error, close frame, or stream end).
    PipelineEnded,
    /// The outbound queue is closed and the session was removed.
    TeardownComplete,
}

/// What the supervisor must do on a transition.
#[derive(Clone, Copy, PartialEq, Eq, Structural, Debug)]
pub enum SupervisorAction {
    /// Start the inbound and outbound pipelines concurrently.
    StartPipelines,
    /// Cancel the sibling pipeline of the one that ended — this connection's
    /// only; other connections are unaffected.
    CancelSibling,
    /// Close the outbound queue and remove the session from the registry.
    RemoveSession,
    /// Nothing: the event does not apply to the phase.
    Stay,
}

/// The transition table. Any event that does not apply to the current phase
/// leaves it unchanged; in particular no event leaves `Closed`.
pub open spec fn spec_next_phase(
    phase: ConnectionPhase,
    event: ConnectionEvent,
) -> ConnectionPhase {
    match (phase, event) {
        (ConnectionPhase::Connecting, ConnectionEvent::UpgradeSucceeded) => ConnectionPhase::Active,
        (ConnectionPhase::Active, ConnectionEvent::PipelineEnded) => ConnectionPhase::Closing,
        (ConnectionPhase::Closing, ConnectionEvent::TeardownComplete) => ConnectionPhase::Closed,
        (p, _) => p,
    }
}

/// The action owed on the transition the event causes.
pub open spec fn spec_action_for(
    phase: ConnectionPhase,
    event: ConnectionEvent,
) -> SupervisorAction {
    match (phase, event) {
        (ConnectionPhase::Connecting, ConnectionEvent::UpgradeSucceeded)
            => SupervisorAction::StartPipelines,
        (ConnectionPhase::Active, ConnectionEvent::PipelineEnded)
            => SupervisorAction::CancelSibling,
        (ConnectionPhase::Closing, ConnectionEvent::TeardownComplete)
            => SupervisorAction::RemoveSession,
        (_, _) => SupervisorAction::Stay,
    }
}

/// One supervisor step: the next phase and the action owed.
pub fn supervise(phase: ConnectionPhase, event: ConnectionEvent) -> (r: (
    ConnectionPhase,
    SupervisorAction,
))
    ensures
        r.0 == spec_next_phase(phase, event),
        r.1 == spec_action_for(phase, event),
{
    match (phase, event) {
        (ConnectionPhase::Connecting, ConnectionEvent::UpgradeSucceeded) => (
            ConnectionPhase::Active,
            SupervisorAction::StartPipelines,
        ),
        (ConnectionPhase::Active, ConnectionEvent::PipelineEnded) => (
            ConnectionPhase::Closing,
            SupervisorAction::CancelSibling,
        ),
        (ConnectionPhase::Closing, ConnectionEvent::TeardownComplete) => (
            ConnectionPhase::Closed,
            SupervisorAction::RemoveSession,
        ),
        (p, _) => (p, SupervisorAction::Stay),
    }
}

/// `Closed` is final: no event resurrects a closed connection.
pub proof fn lemma_closed_is_final(event: ConnectionEvent)
    ensures
        spec_next_phase(ConnectionPhase::Closed, event) == ConnectionPhase::Closed,
        spec_action_for(ConnectionPhase::Closed, event) == SupervisorAction::Stay,
{
}

/// Phases only move forward: a connection never returns to an earlier phase.
pub open spec fn spec_phase_rank(phase: ConnectionPhase) -> int {
    match phase {
        ConnectionPhase::Connecting => 0,
        ConnectionPhase::Active => 1,
        ConnectionPhase::Closing => 2,
        ConnectionPhase::Closed => 3,
    }
}

pub proof fn lemma_phases_move_forward(phase: ConnectionPhase, event: ConnectionEvent)
    ensures
        spec_phase_rank(spec_next_phase(phase, event)) >= spec_phase_rank(phase),
{
}

} // verus!
