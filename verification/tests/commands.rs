//! The wire format and the dispatcher: parsing, serialization, round trips,
//! request-identifier assignment, and first-match-wins dispatch.

use std::cell::Cell;
use std::rc::Rc;

use ws_gateway::backend::WebSocketBackend;
use ws_gateway::command::Command;
use ws_gateway::dispatch::{CommandDispatcher, CommandProcessor, EchoCommandProcessor};
use ws_gateway::inbound::{classify_text, TextAction};
use ws_gateway::response::{ResponseKind, SocketResponse};
use ws_gateway::session::{EmittedFrame, Frame, Session};
use ws_gateway::times::current_timestamp;

use vstd::prelude::Seq;
use ws_gateway::wire::{command_to_json, parse_command, response_to_json};

fn full_command() -> Command {
    Command {
        op: String::from("echo"),
        channel: Some(String::from("general")),
        args: Some(String::from("{\"x\":[1,2,3]}")),
        request_id: Some(String::from("rid-1")),
    }
}

#[test]
fn serializing_a_full_command_gives_the_exact_wire_text() {
    let text = command_to_json(&full_command());
    assert_eq!(
        text,
        "{\"op\":\"echo\",\"channel\":\"general\",\"args\":{\"x\":[1,2,3]},\"requestId\":\"rid-1\"}"
    );
}

#[test]
fn round_trip_with_all_optional_fields_populated() {
    let c = full_command();
    let text = command_to_json(&c);
    let parsed = parse_command(&text).unwrap();
    assert_eq!(parsed.op, c.op);
    assert_eq!(parsed.channel, c.channel);
    assert_eq!(parsed.args, c.args);
    assert_eq!(parsed.request_id, c.request_id);
}

#[test]
fn round_trip_with_escaped_characters() {
    let c = Command {
        op: String::from("say \"hi\"\\now"),
        channel: Some(String::from("a\u{0008}b\u{000C}c")),
        args: None,
        request_id: Some(String::from("a\tb\nc\rd")),
    };
    let text = command_to_json(&c);
    let parsed = parse_command(&text).unwrap();
    assert_eq!(parsed.op, c.op);
    assert_eq!(parsed.channel, c.channel);
    assert_eq!(parsed.args, None);
    assert_eq!(parsed.request_id, c.request_id);
}

#[test]
fn round_trip_with_characters_beyond_ascii() {
    let c = Command {
        op: String::from("héllo→世界"),
        channel: Some(String::from("канал")),
        args: None,
        request_id: None,
    };
    let text = command_to_json(&c);
    let parsed = parse_command(&text).unwrap();
    assert_eq!(parsed.op, c.op);
    assert_eq!(parsed.channel, c.channel);
}

#[test]
fn null_args_text_reads_back_as_an_absent_payload() {
    // the one command shape the round trip does not preserve: a raw argument
    // text of exactly "null" serializes as the JSON null and parses back as
    // no payload at all
    let c = Command {
        op: String::from("echo"),
        channel: None,
        args: Some(String::from("null")),
        request_id: Some(String::from("r")),
    };
    let parsed = parse_command(&command_to_json(&c)).unwrap();
    assert_eq!(parsed.args, None);
}

#[test]
fn explicit_nulls_leave_the_optional_fields_absent() {
    let c = parse_command("{\"op\":\"x\",\"channel\":null,\"args\":null,\"requestId\":null}")
        .unwrap();
    assert_eq!(c.op, "x");
    assert_eq!(c.channel, None);
    assert_eq!(c.args, None);
    assert_eq!(c.request_id, None);
}

#[test]
fn parsing_tolerates_whitespace_unknown_fields_and_nulls() {
    let text = " { \"extra\" : [ {\"deep\": \"}]\" } , 4 ] , \"op\" : \"go\" , \"channel\" : null } ";
    let c = parse_command(text).unwrap();
    assert_eq!(c.op, "go");
    assert_eq!(c.channel, None);
    assert_eq!(c.args, None);
    assert_eq!(c.request_id, None);
}

#[test]
fn duplicate_known_keys_are_rejected() {
    assert!(parse_command("{\"op\":\"a\",\"op\":\"b\"}").is_none());
    assert!(parse_command("{\"op\":\"a\",\"channel\":\"x\",\"channel\":null}").is_none());
    assert!(parse_command("{\"op\":\"a\",\"args\":null,\"args\":1}").is_none());
    assert!(parse_command("{\"op\":\"a\",\"requestId\":null,\"requestId\":\"r\"}").is_none());
}

#[test]
fn malformed_or_incomplete_texts_are_rejected() {
    assert!(parse_command("").is_none());
    assert!(parse_command("not json").is_none());
    assert!(parse_command("{}").is_none());
    assert!(parse_command("{\"channel\":\"c\"}").is_none());
    assert!(parse_command("{\"op\":\"\"}").is_none());
    assert!(parse_command("{\"op\":42}").is_none());
    assert!(parse_command("{\"op\":\"x\"").is_none());
    assert!(parse_command("{\"op\":\"x\"} trailing").is_none());
    assert!(parse_command("{\"op\":\"x\",\"channel\":7}").is_none());
}

#[test]
fn missing_request_id_gets_a_generated_non_empty_one() {
    match classify_text("{\"op\":\"echo\"}") {
        TextAction::Dispatch(c) => {
            assert_eq!(c.op, "echo");
            let id = c.request_id.expect("an identifier must be assigned");
            assert_eq!(id.len(), 36);
        },
        _ => panic!("expected a dispatchable command"),
    }
}

#[test]
fn present_request_id_is_kept() {
    match classify_text("{\"op\":\"echo\",\"requestId\":\"keep-me\"}") {
        TextAction::Dispatch(c) => assert_eq!(c.request_id, Some(String::from("keep-me"))),
        _ => panic!("expected a dispatchable command"),
    }
}

#[test]
fn ping_text_is_classified_as_keep_alive() {
    assert!(matches!(classify_text("ping"), TextAction::ReplyPong));
    assert!(matches!(classify_text("  PING \r\n"), TextAction::ReplyPong));
    assert!(matches!(classify_text("Ping"), TextAction::ReplyPong));
    // trimming understands Unicode whitespace
    assert!(matches!(classify_text("\u{00A0}ping\u{2003}"), TextAction::ReplyPong));
    assert!(matches!(classify_text("pings"), TextAction::Reject));
    assert!(matches!(classify_text("pin"), TextAction::Reject));
}

#[test]
fn response_serialization_covers_both_kinds() {
    let ok = SocketResponse::default();
    assert_eq!(response_to_json(&ok), "{\"kind\":\"ok\"}");
    let bad = SocketResponse::default().with_bad_command();
    assert_eq!(response_to_json(&bad), "{\"kind\":\"badCommand\"}");
    let full = SocketResponse {
        request_id: Some(String::from("r-7")),
        kind: ResponseKind::Success,
        data: Some(String::from("{\"a\":1}")),
    };
    assert_eq!(response_to_json(&full), "{\"requestId\":\"r-7\",\"kind\":\"ok\",\"data\":{\"a\":1}}");
}

struct CountingProcessor {
    hits: Rc<Cell<u32>>,
}

impl CommandProcessor for CountingProcessor {
    // the ghost items below are erased and never run; the predicate agrees
    // with its executable test: every command is claimed
    fn spec_matches(&self, _command: Command) -> bool {
        true
    }

    fn spec_emission(&self, _command: Command) -> Seq<EmittedFrame> {
        unreachable!()
    }

    fn matches(&self, _command: &Command) -> bool {
        true
    }

    fn process(&self, _session: &mut Session, _command: &Command) {
        self.hits.set(self.hits.get() + 1);
    }
}

#[test]
fn first_match_wins_with_side_effect_counters() {
    let first_hits = Rc::new(Cell::new(0u32));
    let second_hits = Rc::new(Cell::new(0u32));
    let dispatcher = CommandDispatcher::from_processors(vec![
        CountingProcessor { hits: first_hits.clone() },
        CountingProcessor { hits: second_hits.clone() },
    ]);
    let (tx, _rx) = flume::bounded::<Frame>(4);
    let mut session = Session::new(tx, current_timestamp());
    let ran = dispatcher.dispatch(&mut session, &full_command());
    assert_eq!(ran, Some(0));
    assert_eq!(first_hits.get(), 1);
    assert_eq!(second_hits.get(), 0);
}

#[test]
fn first_match_wins_with_two_overlapping_handlers() {
    let dispatcher = CommandDispatcher::from_processors(vec![
        EchoCommandProcessor::static_new(),
        EchoCommandProcessor::static_new(),
    ]);
    let (tx, rx) = flume::bounded::<Frame>(8);
    let mut session = Session::new(tx, current_timestamp());
    let ran = dispatcher.dispatch(&mut session, &full_command());
    assert_eq!(ran, Some(0));
    // exactly one reply: the second matching handler never executed
    assert!(rx.try_recv().is_ok());
    assert!(rx.try_recv().is_err());
}

#[test]
fn no_matching_handler_is_a_silent_no_op() {
    let dispatcher = CommandDispatcher::new();
    let (tx, rx) = flume::bounded::<Frame>(8);
    let mut session = Session::new(tx, current_timestamp());
    let command = Command {
        op: String::from("unknown-op"),
        channel: None,
        args: None,
        request_id: Some(String::from("r")),
    };
    let ran = dispatcher.dispatch(&mut session, &command);
    assert_eq!(ran, None);
    assert!(rx.try_recv().is_err());
}

#[test]
fn echo_replies_with_the_command_arguments() {
    let mut backend = WebSocketBackend::new();
    let (tx, rx) = flume::bounded::<Frame>(8);
    let session = Session::new(tx, current_timestamp());
    let id = session.get_session_id();
    backend.add_session(session);
    let text = String::from("{\"op\":\"echo\",\"args\":{\"a\":1},\"requestId\":\"r-7\"}");
    let (stop, _) = backend.receive_event_step(&id, Frame::Text(text), 1);
    assert!(!stop);
    match rx.try_recv().unwrap() {
        Frame::Text(t) => {
            assert_eq!(t, "{\"requestId\":\"r-7\",\"kind\":\"ok\",\"data\":{\"a\":1}}")
        },
        _ => panic!("expected a text frame"),
    }
    assert!(rx.try_recv().is_err());
}

#[test]
fn echo_without_arguments_replies_without_payload() {
    let mut backend = WebSocketBackend::new();
    let (tx, rx) = flume::bounded::<Frame>(8);
    let session = Session::new(tx, current_timestamp());
    let id = session.get_session_id();
    backend.add_session(session);
    let (stop, _) = backend.receive_event_step(
        &id,
        Frame::Text(String::from("{\"op\":\"echo\",\"requestId\":\"q\"}")),
        1,
    );
    assert!(!stop);
    match rx.try_recv().unwrap() {
        Frame::Text(t) => assert_eq!(t, "{\"requestId\":\"q\",\"kind\":\"ok\"}"),
        _ => panic!("expected a text frame"),
    }
}

#[test]
fn unparseable_text_gets_a_bad_command_reply() {
    let mut backend = WebSocketBackend::new();
    let (tx, rx) = flume::bounded::<Frame>(8);
    let session = Session::new(tx, current_timestamp());
    let id = session.get_session_id();
    backend.add_session(session);
    let (stop, _) = backend.receive_event_step(&id, Frame::Text(String::from("{oops")), 1);
    assert!(!stop);
    match rx.try_recv().unwrap() {
        Frame::Text(t) => assert_eq!(t, "{\"kind\":\"badCommand\"}"),
        _ => panic!("expected a text frame"),
    }
    assert!(backend.contains_session(&id));
}

#[test]
fn unmatched_command_is_absorbed_by_the_backend() {
    let mut backend = WebSocketBackend::new();
    let (tx, rx) = flume::bounded::<Frame>(8);
    let session = Session::new(tx, current_timestamp());
    let id = session.get_session_id();
    backend.add_session(session);
    let (stop, _) = backend.receive_event_step(
        &id,
        Frame::Text(String::from("{\"op\":\"nobody-handles-this\"}")),
        1,
    );
    assert!(!stop);
    assert!(rx.try_recv().is_err());
    assert!(backend.contains_session(&id));
}
