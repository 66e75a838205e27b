//! Per-connection sessions: identity, the bounded outbound queue handle, and
//! liveness state.

use vstd::prelude::*;

use crate::ids::fresh_uuid;
use crate::response::SocketResponse;
use crate::text::str_eq;
use crate::wire::{response_to_json, spec_ser_response};

verus! {

/// Information carried by a close frame.
pub struct CloseInfo {
    pub code: u16,
    pub reason: String,
}

/// The transport frame kinds the gateway handles.
pub enum Frame {
    Text(String),
    Binary(Vec<u8>),
    Ping(Vec<u8>),
    Pong(Vec<u8>),
    Close(Option<CloseInfo>),
}

/// What a frame says, with its payload as a mathematical value: the shape in
/// which a session's ghost emission log records every frame offered to its
/// outbound queue.
pub enum EmittedFrame {
    Text(Seq<char>),
    Binary(Seq<u8>),
    Ping(Seq<u8>),
    Pong(Seq<u8>),
    Close(Option<(u16, Seq<char>)>),
}

/// The mathematical value of a close frame's information.
pub open spec fn close_model(info: Option<CloseInfo>) -> Option<(u16, Seq<char>)> {
    match info {
        Some(ci) => Some((ci.code, ci.reason@)),
        None => None,
    }
}

/// The record an offered frame leaves in the emission log.
pub open spec fn frame_model(f: Frame) -> EmittedFrame {
    match f {
        Frame::Text(t) => EmittedFrame::Text(t@),
        Frame::Binary(b) => EmittedFrame::Binary(b@),
        Frame::Ping(p) => EmittedFrame::Ping(p@),
        Frame::Pong(p) => EmittedFrame::Pong(p@),
        Frame::Close(info) => EmittedFrame::Close(close_model(info)),
    }
}

/// The outbound queue handle is flume's bounded sender.
#[verifier::external_type_specification]
#[verifier::external_body]
#[verifier::reject_recursive_types(T)]
pub struct ExSender<T>(flume::Sender<T>);

/// What one non-blocking enqueue attempt reported.
#[derive(Clone, Copy, PartialEq, Eq, Structural, Debug)]
pub enum EnqueueStatus {
    /// The frame was queued.
    Accepted,
    /// The queue was at capacity; the frame was dropped, the caller was not
    /// blocked.
    DroppedFull,
    /// The consumer is gone; the session is no longer usable.
    Disconnected,
}

/// The errors a session reports to its callers.
#[derive(Clone, Copy, PartialEq, Eq, Structural, Debug)]
pub enum SessionError {
    /// The outbound queue is closed: the connection is being torn down.
    Disconnected,
}

/// Relies on `flume::Sender::try_send`: a non-blocking enqueue that never
/// suspends the caller. It reports `Full` when the bounded queue is at
/// capacity (the frame is dropped) and `Disconnected` when the receiver is
/// gone. The outcome depends on the queue's concurrent state, so only the
/// three possible outcomes are distinguished.
#[verifier::external_body]
fn sink_try_send(sink: &flume::Sender<Frame>, frame: Frame) -> (r: EnqueueStatus) {
    match sink.try_send(frame) {
        Ok(()) => EnqueueStatus::Accepted,
        Err(flume::TrySendError::Full(_)) => EnqueueStatus::DroppedFull,
        Err(flume::TrySendError::Disconnected(_)) => EnqueueStatus::Disconnected,
    }
}

/// How an enqueue outcome is reported to the caller: backpressure drops the
/// frame and is not an error; only a closed queue makes the session unusable.
pub open spec fn spec_send_disposition(status: EnqueueStatus) -> Result<(), SessionError> {
    match status {
        EnqueueStatus::Accepted => Ok(()),
        EnqueueStatus::DroppedFull => Ok(()),
        EnqueueStatus::Disconnected => Err(SessionError::Disconnected),
    }
}

/// The backpressure rule, one outcome at a time: a full queue never blocks
/// and never fails the caller; a disconnected queue is the only error.
pub fn send_disposition(status: EnqueueStatus) -> (r: Result<(), SessionError>)
    ensures
        r == spec_send_disposition(status),
{
    match status {
        EnqueueStatus::Accepted => Ok(()),
        EnqueueStatus::DroppedFull => Ok(()),
        EnqueueStatus::Disconnected => Err(SessionError::Disconnected),
    }
}

/// Backpressure is never an error and never blocks: a frame dropped by a
/// full queue still reports success; only a disconnected queue fails.
pub proof fn lemma_backpressure_never_fails()
    ensures
        spec_send_disposition(EnqueueStatus::DroppedFull) is Ok,
        spec_send_disposition(EnqueueStatus::Accepted) is Ok,
        spec_send_disposition(EnqueueStatus::Disconnected) is Err,
{
}

/// Sessions idle for at least this many milliseconds are expired.
pub const EXPIRY_THRESHOLD_MS: u128 = 120000;

/// A session is expired at `now` iff at least `EXPIRY_THRESHOLD_MS` have
/// passed since its last activity (in unbounded integers: a clock reading
/// behind the last activity is never expired).
pub open spec fn spec_expired(s: Session, now: u128) -> bool {
    now as int - s.spec_last_active() as int >= EXPIRY_THRESHOLD_MS as int
}

/// Refreshing activity and then checking expiry with the same clock reading
/// always yields not-expired: a just-refreshed session has been idle for no
/// time at all, and expiry demands at least the threshold of idle time.
pub proof fn lemma_refresh_then_not_expired(before: Session, after: Session, now: u128)
    requires
        after.spec_last_active() == (if now > before.spec_last_active() {
            now
        } else {
            before.spec_last_active()
        }),
    ensures
        !spec_expired(after, now),
{
}

/// Server-side state of one live connection: an immutable identity, the
/// handle of the bounded outbound queue, and the last-activity timestamp.
pub struct Session {
    id: String,
    sink: flume::Sender<Frame>,
    last_active_timestamp: u128,
    emitted: Ghost<Seq<EmittedFrame>>,
}

impl Session {
    /// The session's identity.
    pub closed spec fn spec_id(&self) -> Seq<char> {
        self.id@
    }

    /// The session's last-activity timestamp, in milliseconds since the
    /// epoch.
    pub closed spec fn spec_last_active(&self) -> u128 {
        self.last_active_timestamp
    }

    /// The session's outbound queue handle.
    pub closed spec fn spec_sink(&self) -> flume::Sender<Frame> {
        self.sink
    }

    /// Every frame this session has offered to its outbound queue, in order,
    /// whether the queue accepted or dropped it.
    pub closed spec fn spec_emitted(&self) -> Seq<EmittedFrame> {
        self.emitted@
    }

    /// Creates a session over the given outbound queue handle, with a fresh
    /// identity, the given clock reading as its last activity, and nothing
    /// offered to its queue yet.
    pub fn new(sink: flume::Sender<Frame>, now: u128) -> (r: Session)
        ensures
            r.spec_id().len() == 36,
            r.spec_sink() == sink,
            r.spec_last_active() == now,
            r.spec_emitted() == Seq::<EmittedFrame>::empty(),
    {
        Session { id: fresh_uuid(), sink, last_active_timestamp: now, emitted: Ghost(Seq::empty()) }
    }

    pub fn get_session_id(&self) -> (r: String)
        ensures
            r@ == self.spec_id(),
    {
        self.id.clone()
    }

    /// Whether this session carries the given identity.
    pub fn id_matches(&self, id: &str) -> (r: bool)
        ensures
            r == (self.spec_id() == id@),
    {
        str_eq(self.id.as_str(), id)
    }

    /// Moves the last activity forward to `now`; the timestamp never moves
    /// backwards, and everything else is untouched.
    pub fn refresh_active_status(&mut self, now: u128)
        ensures
            final(self).spec_id() == old(self).spec_id(),
            final(self).spec_sink() == old(self).spec_sink(),
            final(self).spec_emitted() == old(self).spec_emitted(),
            final(self).spec_last_active() == if now > old(self).spec_last_active() {
                now
            } else {
                old(self).spec_last_active()
            },
    {
        if now > self.last_active_timestamp {
            self.last_active_timestamp = now;
        }
    }

    /// True iff `now - lastActivity >= 120000`.
    pub fn is_expired(&self, now: u128) -> (r: bool)
        ensures
            r == spec_expired(*self, now),
    {
        now >= EXPIRY_THRESHOLD_MS && now - EXPIRY_THRESHOLD_MS >= self.last_active_timestamp
    }

    /// Offers the frame to the bounded outbound queue, without blocking, and
    /// reports what the queue did with it: accepted, dropped on
    /// backpressure, or refused because the consumer is gone. The offer is
    /// recorded in the emission log whatever the outcome; nothing else of
    /// the session changes.
    pub fn send_message_status(&mut self, frame: Frame) -> (status: EnqueueStatus)
        ensures
            final(self).spec_id() == old(self).spec_id(),
            final(self).spec_sink() == old(self).spec_sink(),
            final(self).spec_last_active() == old(self).spec_last_active(),
            final(self).spec_emitted() == old(self).spec_emitted().push(frame_model(frame)),
    {
        let ghost record = frame_model(frame);
        let status = sink_try_send(&self.sink, frame);
        proof {
            self.emitted@ = self.emitted@.push(record);
        }
        status
    }

    /// Attempts a non-blocking enqueue of the frame onto the bounded
    /// outbound queue. A full queue drops the frame and still reports
    /// success (see `send_disposition`, which fixes the rule for every
    /// outcome; `send_message_status` exposes the drop to callers that
    /// report backpressure); only a closed queue is an error. The offered
    /// frame is recorded in the emission log whatever the outcome.
    pub fn send_message(&mut self, frame: Frame) -> (r: Result<(), SessionError>)
        ensures
            final(self).spec_id() == old(self).spec_id(),
            final(self).spec_sink() == old(self).spec_sink(),
            final(self).spec_last_active() == old(self).spec_last_active(),
            final(self).spec_emitted() == old(self).spec_emitted().push(frame_model(frame)),
            r is Err ==> r == Err::<(), SessionError>(SessionError::Disconnected),
    {
        let status = self.send_message_status(frame);
        send_disposition(status)
    }

    /// Serializes the envelope — exactly as `spec_ser_response` states — and
    /// forwards the text through `send_message`.
    pub fn send_response(&mut self, response: SocketResponse) -> (r: Result<(), SessionError>)
        ensures
            final(self).spec_id() == old(self).spec_id(),
            final(self).spec_sink() == old(self).spec_sink(),
            final(self).spec_last_active() == old(self).spec_last_active(),
            final(self).spec_emitted() == old(self).spec_emitted().push(
                EmittedFrame::Text(spec_ser_response(response)),
            ),
            r is Err ==> r == Err::<(), SessionError>(SessionError::Disconnected),
    {
        let text = response_to_json(&response);
        self.send_message(Frame::Text(text))
    }
}


impl PartialEq for Session {
    /// Two sessions are equal iff their identities are equal.
    fn eq(&self, other: &Session) -> (r: bool) {
        str_eq(self.id.as_str(), other.id.as_str())
    }
}

impl vstd::std_specs::cmp::PartialEqSpecImpl for Session {
    open spec fn obeys_eq_spec() -> bool {
        true
    }

    open spec fn eq_spec(&self, other: &Session) -> bool {
        self.spec_id() == other.spec_id()
    }
}

impl Eq for Session {

}

} // verus!
