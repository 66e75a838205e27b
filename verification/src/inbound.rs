//! Classification of inbound text frames.

use vstd::prelude::*;

use crate::command::{command_wf, ensure_request_id, Command};
use crate::text::{is_ping, is_ping_text};
use crate::wire::{opt_view, parse_command, spec_parse_command};

verus! {

/// What the inbound pipeline does with one text frame.
pub enum TextAction {
    /// The keep-alive "ping": reply "pong" directly, bypass command parsing.
    ReplyPong,
    /// A parsed command, made traceable, ready for dispatch.
    Dispatch(Command),
    /// Unparseable text: reply with a bad-command envelope.
    Reject,
}

/// What the inbound path may dispatch for a text: the command the text
/// parses to, made traceable — every field as parsed, and a request
/// identifier that is the parsed one when the text carried one, else a
/// fresh 36-character one.
pub open spec fn dispatched_command_ok(text: Seq<char>, c: Command) -> bool {
    match spec_parse_command(text) {
        Some(p) => c.op@ == p.op && opt_view(c.channel) == p.channel && opt_view(c.args) == p.args
            && match p.request_id {
            Some(rid) => opt_view(c.request_id) == Some(rid),
            None => match c.request_id {
                Some(fresh) => fresh@.len() == 36,
                None => false,
            },
        },
        None => false,
    }
}

/// Classifies a text frame. The keep-alive "ping" (trimmed, case-insensitive)
/// is answered directly and never parsed; any other text that parses as a
/// command is dispatched — given a fresh request identifier if it lacks one —
/// and any other text is rejected.
pub fn classify_text(text: &str) -> (r: TextAction)
    ensures
        is_ping_text(text@) <==> r is ReplyPong,
        !is_ping_text(text@) && spec_parse_command(text@) is Some ==> r is Dispatch,
        match r {
            TextAction::ReplyPong => true,
            TextAction::Dispatch(c) => !is_ping_text(text@) && command_wf(c)
                && dispatched_command_ok(text@, c),
            TextAction::Reject => !is_ping_text(text@) && spec_parse_command(text@) is None,
        },
{
    if is_ping(text) {
        return TextAction::ReplyPong;
    }
    match parse_command(text) {
        Some(c) => {
            let mut command = c;
            ensure_request_id(&mut command);
            TextAction::Dispatch(command)
        },
        None => TextAction::Reject,
    }
}

} // verus!
