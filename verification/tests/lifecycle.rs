//! The per-connection lifecycle table.

use ws_gateway::supervisor::{supervise, ConnectionEvent, ConnectionPhase, SupervisorAction};

#[test]
fn lifecycle_follows_the_transition_table() {
    let (p, a) = supervise(ConnectionPhase::Connecting, ConnectionEvent::UpgradeSucceeded);
    assert_eq!(p, ConnectionPhase::Active);
    assert_eq!(a, SupervisorAction::StartPipelines);
    let (p, a) = supervise(p, ConnectionEvent::PipelineEnded);
    assert_eq!(p, ConnectionPhase::Closing);
    assert_eq!(a, SupervisorAction::CancelSibling);
    let (p, a) = supervise(p, ConnectionEvent::TeardownComplete);
    assert_eq!(p, ConnectionPhase::Closed);
    assert_eq!(a, SupervisorAction::RemoveSession);
}

#[test]
fn closed_is_terminal() {
    let events = [
        ConnectionEvent::UpgradeSucceeded,
        ConnectionEvent::PipelineEnded,
        ConnectionEvent::TeardownComplete,
    ];
    for e in events {
        let (p, a) = supervise(ConnectionPhase::Closed, e);
        assert_eq!(p, ConnectionPhase::Closed);
        assert_eq!(a, SupervisorAction::Stay);
    }
}

#[test]
fn inapplicable_events_leave_the_phase_alone() {
    let (p, a) = supervise(ConnectionPhase::Active, ConnectionEvent::UpgradeSucceeded);
    assert_eq!(p, ConnectionPhase::Active);
    assert_eq!(a, SupervisorAction::Stay);
    let (p, a) = supervise(ConnectionPhase::Connecting, ConnectionEvent::PipelineEnded);
    assert_eq!(p, ConnectionPhase::Connecting);
    assert_eq!(a, SupervisorAction::Stay);
}
