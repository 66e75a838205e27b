//! Session, registry and backend behaviour, exercised end to end through the
//! public interface with real bounded queues.

use ws_gateway::backend::WebSocketBackend;
use ws_gateway::session::{Frame, Session, SessionError};
use ws_gateway::times::{current_timestamp, safely_current_timestamp};

fn fresh_session(capacity: usize) -> (Session, flume::Receiver<Frame>) {
    let (tx, rx) = flume::bounded::<Frame>(capacity);
    (Session::new(tx, current_timestamp()), rx)
}

#[test]
fn expiry_boundary_is_exactly_the_threshold() {
    let (mut session, _rx) = fresh_session(4);
    let base = current_timestamp() + 1_000_000;
    session.refresh_active_status(base);
    assert!(!session.is_expired(base + 119_999));
    assert!(session.is_expired(base + 120_000));
    assert!(session.is_expired(base + 240_000));
}

#[test]
fn clock_behind_last_activity_is_not_expired() {
    let (mut session, _rx) = fresh_session(4);
    let base = current_timestamp() + 1_000_000;
    session.refresh_active_status(base);
    assert!(!session.is_expired(0));
    assert!(!session.is_expired(base));
}

#[test]
fn refresh_then_check_with_same_now_is_not_expired() {
    let (mut session, _rx) = fresh_session(4);
    let now = current_timestamp() + 5_000_000;
    session.refresh_active_status(now);
    assert!(!session.is_expired(now));
}

#[test]
fn refresh_never_moves_activity_backwards() {
    let (mut session, _rx) = fresh_session(4);
    let base = current_timestamp() + 1_000_000;
    session.refresh_active_status(base);
    session.refresh_active_status(base - 500_000);
    assert!(!session.is_expired(base + 119_999));
    assert!(session.is_expired(base + 120_000));
}

#[test]
fn overflowing_the_queue_drops_newest_and_never_fails() {
    let (mut session, rx) = fresh_session(2);
    for i in 0..5 {
        let r = session.send_message(Frame::Text(format!("m{}", i)));
        assert!(r.is_ok());
    }
    // the first two frames were kept, the excess was dropped
    match rx.try_recv().unwrap() {
        Frame::Text(t) => assert_eq!(t, "m0"),
        _ => panic!("expected a text frame"),
    }
    match rx.try_recv().unwrap() {
        Frame::Text(t) => assert_eq!(t, "m1"),
        _ => panic!("expected a text frame"),
    }
    assert!(rx.try_recv().is_err());
}

#[test]
fn send_on_disconnected_queue_reports_the_session_unusable() {
    let (mut session, rx) = fresh_session(2);
    drop(rx);
    let r = session.send_message(Frame::Text(String::from("late")));
    assert_eq!(r, Err(SessionError::Disconnected));
}

#[test]
fn session_ids_are_generated_and_distinct() {
    let (a, _rxa) = fresh_session(1);
    let (b, _rxb) = fresh_session(1);
    assert_eq!(a.get_session_id().len(), 36);
    assert_ne!(a.get_session_id(), b.get_session_id());
    assert!(a.id_matches(&a.get_session_id()));
    assert!(!a.id_matches(&b.get_session_id()));
}

#[test]
fn text_ping_yields_exactly_one_pong_and_no_dispatch() {
    let mut backend = WebSocketBackend::new();
    let (session, rx) = fresh_session(8);
    let id = session.get_session_id();
    backend.add_session(session);
    let (stop, _) = backend.receive_event_step(&id, Frame::Text(String::from("  PiNg \n")), 1);
    assert!(!stop);
    match rx.try_recv().unwrap() {
        Frame::Text(t) => assert_eq!(t, "pong"),
        _ => panic!("expected a text frame"),
    }
    assert!(rx.try_recv().is_err());
}

#[test]
fn control_ping_is_answered_with_matching_pong() {
    let mut backend = WebSocketBackend::new();
    let (session, rx) = fresh_session(8);
    let id = session.get_session_id();
    backend.add_session(session);
    let (stop, _) = backend.receive_event_step(&id, Frame::Ping(vec![1, 2, 3]), 1);
    assert!(!stop);
    match rx.try_recv().unwrap() {
        Frame::Pong(p) => assert_eq!(p, vec![1, 2, 3]),
        _ => panic!("expected a pong frame"),
    }
}

#[test]
fn control_pong_is_answered_with_probe_back_ping() {
    let mut backend = WebSocketBackend::new();
    let (session, rx) = fresh_session(8);
    let id = session.get_session_id();
    backend.add_session(session);
    let (stop, _) = backend.receive_event_step(&id, Frame::Pong(vec![9]), 1);
    assert!(!stop);
    match rx.try_recv().unwrap() {
        Frame::Ping(p) => assert_eq!(p, vec![9]),
        _ => panic!("expected a ping frame"),
    }
}

#[test]
fn binary_frames_get_an_unsupported_notice_and_keep_the_connection() {
    let mut backend = WebSocketBackend::new();
    let (session, rx) = fresh_session(8);
    let id = session.get_session_id();
    backend.add_session(session);
    let (stop, _) = backend.receive_event_step(&id, Frame::Binary(vec![0xde, 0xad]), 1);
    assert!(!stop);
    match rx.try_recv().unwrap() {
        Frame::Text(t) => assert_eq!(t, "Binary data type is not supported"),
        _ => panic!("expected a text frame"),
    }
    assert!(backend.contains_session(&id));
}

#[test]
fn close_echoes_removes_the_session_and_stops_the_pipeline() {
    let mut backend = WebSocketBackend::new();
    let (session, rx) = fresh_session(8);
    let id = session.get_session_id();
    backend.add_session(session);
    assert!(backend.contains_session(&id));
    let (stop, _) = backend.receive_event_step(&id, Frame::Close(None), 1);
    assert!(stop);
    assert!(matches!(rx.try_recv().unwrap(), Frame::Close(None)));
    assert!(!backend.contains_session(&id));
}

#[test]
fn removal_is_idempotent() {
    let mut backend = WebSocketBackend::new();
    let (session, _rx) = fresh_session(2);
    let id = session.get_session_id();
    backend.add_session(session);
    backend.remove_session(&id);
    assert!(!backend.contains_session(&id));
    backend.remove_session(&id);
    assert!(!backend.contains_session(&id));
}

#[test]
fn sweep_nudges_expired_sessions_but_does_not_remove_them() {
    let mut backend = WebSocketBackend::new();
    let (mut stale, stale_rx) = fresh_session(4);
    let (mut live, live_rx) = fresh_session(4);
    let base = current_timestamp() + 10_000_000;
    stale.refresh_active_status(base);
    live.refresh_active_status(base + 300_000);
    let stale_id = stale.get_session_id();
    let live_id = live.get_session_id();
    backend.add_session(stale);
    backend.add_session(live);
    let nudged = backend.check_session_status(base + 120_000);
    assert_eq!(nudged, vec![stale_id.clone()]);
    match stale_rx.try_recv().unwrap() {
        Frame::Close(Some(info)) => {
            assert_eq!(info.code, 1000);
            assert_eq!(info.reason, "expired");
        },
        _ => panic!("expected a close frame"),
    }
    assert!(live_rx.try_recv().is_err());
    // the sweep is a nudge, not the remover
    assert!(backend.contains_session(&stale_id));
    assert!(backend.contains_session(&live_id));
}

#[test]
fn sessions_do_not_observe_each_other() {
    let mut backend = WebSocketBackend::new();
    let (mut a, rx_a) = fresh_session(8);
    let (mut b, rx_b) = fresh_session(8);
    let base = current_timestamp() + 10_000_000;
    a.refresh_active_status(base);
    b.refresh_active_status(base);
    let id_a = a.get_session_id();
    let id_b = b.get_session_id();
    backend.add_session(a);
    backend.add_session(b);
    // activity and replies on a's pipeline leave b's queue and liveness alone
    let (stop, _) =
        backend.receive_event_step(&id_a, Frame::Text(String::from("ping")), base + 150_000);
    assert!(!stop);
    assert!(rx_a.try_recv().is_ok());
    assert!(rx_b.try_recv().is_err());
    let nudged = backend.check_session_status(base + 150_000);
    assert_eq!(nudged, vec![id_b.clone()]);
    assert!(rx_a.try_recv().is_err());
    assert!(matches!(rx_b.try_recv().unwrap(), Frame::Close(Some(_))));
}

#[test]
fn adding_under_the_same_identity_overwrites() {
    let mut backend = WebSocketBackend::new();
    let (mut session, _rx) = fresh_session(4);
    let base = current_timestamp() + 10_000_000;
    session.refresh_active_status(base);
    let id = session.get_session_id();
    backend.add_session(session);
    // a later registration under another identity leaves this one alone
    let (other, _rx2) = fresh_session(4);
    let other_id = other.get_session_id();
    backend.add_session(other);
    assert!(backend.contains_session(&id));
    assert!(backend.contains_session(&other_id));
}

#[test]
fn sessions_are_equal_iff_their_identities_are() {
    let (a, _rxa) = fresh_session(1);
    let (b, _rxb) = fresh_session(1);
    assert!(a == a);
    assert!(a != b);
}

#[test]
fn clock_helpers_agree() {
    let a = current_timestamp();
    let b = safely_current_timestamp().unwrap();
    assert!(b >= a);
    assert!(a > 0);
}
