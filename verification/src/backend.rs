//! The process-wide backend: the session registry and the command
//! dispatcher, and the per-frame step of each connection's inbound pipeline.

use vstd::prelude::*;

use crate::command::Command;
use crate::dispatch::{CommandDispatcher, CommandProcessor, EchoCommandProcessor};
use crate::inbound::{classify_text, dispatched_command_ok, TextAction};
use crate::registry::{spec_expired_ids, SessionRegistry};
use crate::response::{ResponseKind, SocketResponse};
use crate::session::{close_model, spec_expired, EmittedFrame, Frame, Session};
use crate::text::is_ping_text;
use crate::wire::{spec_parse_command, spec_ser_response_model};

verus! {

/// State shared by every connection: the registry of live sessions and the
/// dispatcher, fixed at startup.
pub struct WebSocketBackend<H: CommandProcessor> {
    session_map: SessionRegistry,
    command_dispatcher: CommandDispatcher<H>,
}

impl WebSocketBackend<EchoCommandProcessor> {
    /// A backend with the default dispatcher.
    pub fn new() -> (r: Self)
        ensures
            r.spec_registry().wf(),
            r.spec_registry().spec_sessions().len() == 0,
            r.spec_dispatcher().spec_processors() == seq![EchoCommandProcessor {  }],
    {
        WebSocketBackend {
            session_map: SessionRegistry::new(),
            command_dispatcher: CommandDispatcher::new(),
        }
    }
}

impl<H: CommandProcessor> WebSocketBackend<H> {
    pub closed spec fn spec_registry(&self) -> SessionRegistry {
        self.session_map
    }

    pub closed spec fn spec_dispatcher(&self) -> CommandDispatcher<H> {
        self.command_dispatcher
    }

    /// A backend around the given dispatcher, with no sessions yet.
    pub fn with_dispatcher(dispatcher: CommandDispatcher<H>) -> (r: Self)
        ensures
            r.spec_registry().wf(),
            r.spec_registry().spec_sessions().len() == 0,
            r.spec_dispatcher() == dispatcher,
    {
        WebSocketBackend { session_map: SessionRegistry::new(), command_dispatcher: dispatcher }
    }

    /// Registers the session under its identity (see
    /// `SessionRegistry::add_session`).
    pub fn add_session(&mut self, session: Session)
        requires
            old(self).spec_registry().wf(),
        ensures
            final(self).spec_registry().wf(),
            final(self).spec_dispatcher() == old(self).spec_dispatcher(),
            final(self).spec_registry().spec_contains(session.spec_id()),
            final(self).spec_registry().spec_get(session.spec_id()) == session,
            forall|other: Seq<char>|
                other != session.spec_id() ==> final(self).spec_registry().spec_contains(other)
                    == old(self).spec_registry().spec_contains(other),
            forall|other: Seq<char>|
                other != session.spec_id() && old(self).spec_registry().spec_contains(other)
                    ==> final(self).spec_registry().spec_get(other) == old(self).spec_registry().spec_get(other),
    {
        self.session_map.add_session(session);
    }

    /// Removes the session registered under `session_id`, if any (see
    /// `SessionRegistry::remove_session`).
    pub fn remove_session(&mut self, session_id: &str)
        requires
            old(self).spec_registry().wf(),
        ensures
            final(self).spec_registry().wf(),
            final(self).spec_dispatcher() == old(self).spec_dispatcher(),
            !final(self).spec_registry().spec_contains(session_id@),
            forall|other: Seq<char>|
                other != session_id@ ==> final(self).spec_registry().spec_contains(other) == old(self).spec_registry().spec_contains(other),
            forall|other: Seq<char>|
                other != session_id@ && old(self).spec_registry().spec_contains(other) ==> final(self).spec_registry().spec_get(other) == old(self).spec_registry().spec_get(other),
    {
        self.session_map.remove_session(session_id);
    }

    /// Whether a session is registered under `session_id`.
    pub fn contains_session(&self, session_id: &str) -> (r: bool)
        ensures
            r == self.spec_registry().spec_contains(session_id@),
    {
        self.session_map.contains_session(session_id)
    }

    /// One pass of the expiry scan: offers every expired session one close
    /// frame (normal code 1000, reason "expired") and reports their
    /// identities; removes nothing and changes nothing else (see
    /// `SessionRegistry::sweep`). The background loop around it lives with
    /// the task runtime, not here.
    pub fn check_session_status(&mut self, now: u128) -> (nudged: Vec<String>)
        requires
            old(self).spec_registry().wf(),
        ensures
            final(self).spec_registry().wf(),
            final(self).spec_dispatcher() == old(self).spec_dispatcher(),
            final(self).spec_registry().spec_sessions().len() == old(self).spec_registry().spec_sessions().len(),
            forall|k: int|
                #![trigger final(self).spec_registry().spec_sessions()[k]]
                0 <= k < old(self).spec_registry().spec_sessions().len() ==> {
                    let s_old = old(self).spec_registry().spec_sessions()[k];
                    let s_new = final(self).spec_registry().spec_sessions()[k];
                    if spec_expired(s_old, now) {
                        &&& s_new.spec_id() == s_old.spec_id()
                        &&& s_new.spec_sink() == s_old.spec_sink()
                        &&& s_new.spec_last_active() == s_old.spec_last_active()
                        &&& s_new.spec_emitted() == s_old.spec_emitted().push(
                            EmittedFrame::Close(Some((1000u16, "expired"@))),
                        )
                    } else {
                        s_new == s_old
                    }
                },
            nudged@.map_values(|s: String| s@) == spec_expired_ids(
                old(self).spec_registry().spec_sessions(),
                now,
            ),
    {
        self.session_map.sweep(now)
    }

    pub fn get_command_dispatcher(&self) -> (r: &CommandDispatcher<H>)
        ensures
            *r == self.spec_dispatcher(),
    {
        &self.command_dispatcher
    }

    /// One step of a connection's inbound pipeline, for one arrived frame.
    /// Returns whether the pipeline must terminate, and (as a ghost value)
    /// the exact frames this step offered to the session's outbound queue:
    ///
    /// - text "ping" (trimmed, case-insensitive): refresh liveness, offer one
    ///   "pong" text, parse and dispatch nothing;
    /// - other text parsing as a command: refresh, make the command
    ///   traceable, dispatch it to the first matching processor — exactly
    ///   that processor's emission is offered;
    /// - unparseable text: refresh, offer one bad-command envelope naming no
    ///   request;
    /// - control ping (resp. pong): refresh, offer the matching pong (resp. a
    ///   probe-back ping) with the identical payload;
    /// - close: offer an echo of the same close frame, remove the session,
    ///   stop the pipeline;
    /// - binary: offer one unsupported-data notice, without refreshing.
    ///
    /// Sessions other than `session_id` are never touched; an unknown
    /// identity makes the step a no-op.
    pub fn receive_event_step(&mut self, session_id: &str, frame: Frame, now: u128) -> (r: (
        bool,
        Ghost<Seq<EmittedFrame>>,
    ))
        requires
            old(self).spec_registry().wf(),
        ensures
            final(self).spec_registry().wf(),
            final(self).spec_dispatcher() == old(self).spec_dispatcher(),
            r.0 == (frame is Close),
            frame is Close ==> !final(self).spec_registry().spec_contains(session_id@),
            forall|other: Seq<char>|
                other != session_id@ ==> final(self).spec_registry().spec_contains(other) == old(self).spec_registry().spec_contains(other),
            forall|other: Seq<char>|
                other != session_id@ && old(self).spec_registry().spec_contains(other) ==> final(self).spec_registry().spec_get(other) == old(self).spec_registry().spec_get(other),
            !old(self).spec_registry().spec_contains(session_id@) ==> *final(self) == *old(self)
                && r.1@ == Seq::<EmittedFrame>::empty(),
            old(self).spec_registry().spec_contains(session_id@) && !(frame is Close) ==> {
                let s_old = old(self).spec_registry().spec_get(session_id@);
                let s_new = final(self).spec_registry().spec_get(session_id@);
                &&& final(self).spec_registry().spec_contains(session_id@)
                &&& s_new.spec_id() == s_old.spec_id()
                &&& s_new.spec_sink() == s_old.spec_sink()
                &&& s_new.spec_emitted() == s_old.spec_emitted() + r.1@
                &&& s_new.spec_last_active() == (if frame is Binary {
                    s_old.spec_last_active()
                } else if now > s_old.spec_last_active() {
                    now
                } else {
                    s_old.spec_last_active()
                })
            },
            old(self).spec_registry().spec_contains(session_id@) ==> match frame {
                Frame::Text(text) => if is_ping_text(text@) {
                    r.1@ == seq![EmittedFrame::Text("pong"@)]
                } else if spec_parse_command(text@) is Some {
                    exists|c: Command|
                        #[trigger] dispatched_command_ok(text@, c) && r.1@ == (match old(self).spec_dispatcher().spec_first_match(c) {
                            Some(k) => old(self).spec_dispatcher().spec_processors()[
                                k
                            ].spec_emission(c),
                            None => Seq::<EmittedFrame>::empty(),
                        })
                } else {
                    r.1@ == seq![
                        EmittedFrame::Text(
                            spec_ser_response_model(None, ResponseKind::BadCommand, None),
                        ),
                    ]
                },
                Frame::Ping(payload) => r.1@ == seq![EmittedFrame::Pong(payload@)],
                Frame::Pong(payload) => r.1@ == seq![EmittedFrame::Ping(payload@)],
                Frame::Close(info) => r.1@ == seq![EmittedFrame::Close(close_model(info))],
                Frame::Binary(_) => r.1@ == seq![
                    EmittedFrame::Text("Binary data type is not supported"@),
                ],
            },
    {
        match frame {
            Frame::Text(text) => {
                match self.session_map.take_session(session_id) {
                    None => (false, Ghost(Seq::empty())),
                    Some(session) => {
                        let mut session = session;
                        session.refresh_active_status(now);
                        let ghost base = session.spec_emitted();
                        let ghost mut trace = Seq::<EmittedFrame>::empty();
                        match classify_text(text.as_str()) {
                            TextAction::ReplyPong => {
                                let _ = session.send_message(
                                    Frame::Text(String::from_str("pong")),
                                );
                                proof {
                                    trace = seq![EmittedFrame::Text("pong"@)];
                                    assert(session.spec_emitted() =~= base + trace);
                                }
                            },
                            TextAction::Dispatch(command) => {
                                let _ = self.command_dispatcher.dispatch(&mut session, &command);
                                proof {
                                    trace = session.spec_emitted().skip(base.len() as int);
                                    assert(dispatched_command_ok(text@, command));
                                    match self.command_dispatcher.spec_first_match(command) {
                                        Some(k) => {
                                            let e = self.command_dispatcher.spec_processors()[
                                                k
                                            ].spec_emission(command);
                                            assert((base + e).skip(base.len() as int) =~= e);
                                            assert(session.spec_emitted() =~= base + trace);
                                        },
                                        None => {
                                            assert(base.skip(base.len() as int)
                                                =~= Seq::<EmittedFrame>::empty());
                                            assert(session.spec_emitted() =~= base + trace);
                                        },
                                    }
                                }
                            },
                            TextAction::Reject => {
                                let response = SocketResponse::default().with_bad_command();
                                let _ = session.send_response(response);
                                proof {
                                    trace = seq![
                                        EmittedFrame::Text(
                                            spec_ser_response_model(
                                                None,
                                                ResponseKind::BadCommand,
                                                None,
                                            ),
                                        ),
                                    ];
                                    assert(session.spec_emitted() =~= base + trace);
                                }
                            },
                        }
                        self.session_map.add_session(session);
                        (false, Ghost(trace))
                    },
                }
            },
            Frame::Ping(payload) => {
                match self.session_map.take_session(session_id) {
                    None => (false, Ghost(Seq::empty())),
                    Some(session) => {
                        let mut session = session;
                        session.refresh_active_status(now);
                        let ghost base = session.spec_emitted();
                        let ghost trace = seq![EmittedFrame::Pong(payload@)];
                        let _ = session.send_message(Frame::Pong(payload));
                        proof {
                            assert(session.spec_emitted() =~= base + trace);
                        }
                        self.session_map.add_session(session);
                        (false, Ghost(trace))
                    },
                }
            },
            Frame::Pong(payload) => {
                match self.session_map.take_session(session_id) {
                    None => (false, Ghost(Seq::empty())),
                    Some(session) => {
                        let mut session = session;
                        session.refresh_active_status(now);
                        let ghost base = session.spec_emitted();
                        let ghost trace = seq![EmittedFrame::Ping(payload@)];
                        let _ = session.send_message(Frame::Ping(payload));
                        proof {
                            assert(session.spec_emitted() =~= base + trace);
                        }
                        self.session_map.add_session(session);
                        (false, Ghost(trace))
                    },
                }
            },
            Frame::Close(info) => {
                match self.session_map.take_session(session_id) {
                    None => (true, Ghost(Seq::empty())),
                    Some(session) => {
                        let mut session = session;
                        let ghost trace = seq![EmittedFrame::Close(close_model(info))];
                        let _ = session.send_message(Frame::Close(info));
                        // the session is dropped here, not re-registered:
                        // this is the removal
                        (true, Ghost(trace))
                    },
                }
            },
            Frame::Binary(_) => {
                match self.session_map.take_session(session_id) {
                    None => (false, Ghost(Seq::empty())),
                    Some(session) => {
                        let mut session = session;
                        let ghost base = session.spec_emitted();
                        let ghost trace = seq![
                            EmittedFrame::Text("Binary data type is not supported"@),
                        ];
                        let _ = session.send_message(
                            Frame::Text(String::from_str("Binary data type is not supported")),
                        );
                        proof {
                            assert(session.spec_emitted() =~= base + trace);
                        }
                        self.session_map.add_session(session);
                        (false, Ghost(trace))
                    },
                }
            },
        }
    }
}

} // verus!
