//! The JSON wire format: serializing commands and response envelopes, and
//! parsing inbound command texts.
//!
//! A command text is an object `{"op": string, "channel": string|null,
//! "args": any|null, "requestId": string|null}`; `op` is required and
//! non-empty, a known key may appear once, unknown fields are ignored, and
//! the `args` value is kept as its raw text. A response is `{"requestId":
//! string?, "kind": string, "data": any?}`. String literals use the escapes
//! `\" \\ \/ \n \t \r \b \f`; `\uXXXX` is not understood, and raw control
//! characters inside literals are carried through as they stand.

use vstd::prelude::*;

use crate::command::{command_wf, Command};
use crate::response::{ResponseKind, SocketResponse};
use crate::text::{is_ws, is_ws_char, push_char, str_eq};

verus! {

/// How one character is written inside a JSON string literal.
pub open spec fn esc_char(c: char) -> Seq<char> {
    if c == '"' {
        seq!['\\', '"']
    } else if c == '\\' {
        seq!['\\', '\\']
    } else if c == '\n' {
        seq!['\\', 'n']
    } else if c == '\t' {
        seq!['\\', 't']
    } else if c == '\r' {
        seq!['\\', 'r']
    } else if c == '\u{0008}' {
        seq!['\\', 'b']
    } else if c == '\u{000C}' {
        seq!['\\', 'f']
    } else {
        seq![c]
    }
}

/// The body of a JSON string literal holding the given text.
pub open spec fn spec_escape(s: Seq<char>) -> Seq<char>
    decreases s.len(),
{
    if s.len() == 0 {
        Seq::empty()
    } else {
        spec_escape(s.drop_last()) + esc_char(s.last())
    }
}

/// Appends the escaped body of `s` to `out`.
fn append_escaped(out: &mut String, s: &str)
    ensures
        final(out)@ == old(out)@ + spec_escape(s@),
{
    let n = s.unicode_len();
    let mut i: usize = 0;
    proof {
        assert(old(out)@ + spec_escape(s@.take(0)) =~= old(out)@);
    }
    while i < n
        invariant
            i <= n,
            n == s@.len(),
            out@ == old(out)@ + spec_escape(s@.take(i as int)),
        decreases n - i,
    {
        let c = s.get_char(i);
        if c == '"' {
            push_char(out, '\\');
            push_char(out, '"');
        } else if c == '\\' {
            push_char(out, '\\');
            push_char(out, '\\');
        } else if c == '\n' {
            push_char(out, '\\');
            push_char(out, 'n');
        } else if c == '\t' {
            push_char(out, '\\');
            push_char(out, 't');
        } else if c == '\r' {
            push_char(out, '\\');
            push_char(out, 'r');
        } else if c == '\u{0008}' {
            push_char(out, '\\');
            push_char(out, 'b');
        } else if c == '\u{000C}' {
            push_char(out, '\\');
            push_char(out, 'f');
        } else {
            push_char(out, c);
        }
        i += 1;
        proof {
            assert(s@.take(i as int).drop_last() =~= s@.take(i as int - 1));
            assert(s@.take(i as int).last() == s@[i as int - 1]);
            assert(out@ =~= old(out)@ + spec_escape(s@.take(i as int)));
        }
    }
    proof {
        assert(s@.take(n as int) =~= s@);
    }
}

/// The serialized form of a command: every field it holds, in a fixed order,
/// with string fields escaped and the arguments written verbatim.
pub open spec fn spec_ser_command(c: Command) -> Seq<char> {
    "{\"op\":\""@ + spec_escape(c.op@) + "\""@ + (match c.channel {
        Some(ch) => ",\"channel\":\""@ + spec_escape(ch@) + "\""@,
        None => Seq::<char>::empty(),
    }) + (match c.args {
        Some(a) => ",\"args\":"@ + a@,
        None => Seq::<char>::empty(),
    }) + (match c.request_id {
        Some(r) => ",\"requestId\":\""@ + spec_escape(r@) + "\""@,
        None => Seq::<char>::empty(),
    }) + "}"@
}

/// Serializes a command to its wire text.
pub fn command_to_json(c: &Command) -> (out: String)
    ensures
        out@ == spec_ser_command(*c),
{
    let mut out = String::new();
    out.append("{\"op\":\"");
    append_escaped(&mut out, c.op.as_str());
    out.append("\"");
    match &c.channel {
        Some(ch) => {
            out.append(",\"channel\":\"");
            append_escaped(&mut out, ch.as_str());
            out.append("\"");
        },
        None => {},
    }
    match &c.args {
        Some(a) => {
            out.append(",\"args\":");
            out.append(a.as_str());
        },
        None => {},
    }
    match &c.request_id {
        Some(r) => {
            out.append(",\"requestId\":\"");
            append_escaped(&mut out, r.as_str());
            out.append("\"");
        },
        None => {},
    }
    out.append("}");
    proof {
        assert(out@ =~= spec_ser_command(*c));
    }
    out
}

/// The wire name of a response kind.
pub open spec fn spec_kind_text(k: ResponseKind) -> Seq<char> {
    match k {
        ResponseKind::Success => "ok"@,
        ResponseKind::BadCommand => "badCommand"@,
    }
}

/// The serialized form of a response envelope over its mathematical fields:
/// the request identifier iff it is known, the kind, and the payload
/// verbatim when present.
pub open spec fn spec_ser_response_model(
    request_id: Option<Seq<char>>,
    kind: ResponseKind,
    data: Option<Seq<char>>,
) -> Seq<char> {
    "{"@ + (match request_id {
        Some(id) => "\"requestId\":\""@ + spec_escape(id) + "\","@,
        None => Seq::<char>::empty(),
    }) + "\"kind\":\""@ + spec_kind_text(kind) + "\""@ + (match data {
        Some(d) => ",\"data\":"@ + d,
        None => Seq::<char>::empty(),
    }) + "}"@
}

/// The serialized form of a response envelope.
pub open spec fn spec_ser_response(r: SocketResponse) -> Seq<char> {
    spec_ser_response_model(opt_view(r.request_id), r.kind, opt_view(r.data))
}

/// Serializes a response envelope to its wire text.
pub fn response_to_json(r: &SocketResponse) -> (out: String)
    ensures
        out@ == spec_ser_response(*r),
{
    let mut out = String::new();
    out.append("{");
    match &r.request_id {
        Some(id) => {
            out.append("\"requestId\":\"");
            append_escaped(&mut out, id.as_str());
            out.append("\",");
        },
        None => {},
    }
    out.append("\"kind\":\"");
    match r.kind {
        ResponseKind::Success => out.append("ok"),
        ResponseKind::BadCommand => out.append("badCommand"),
    }
    out.append("\"");
    match &r.data {
        Some(d) => {
            out.append(",\"data\":");
            out.append(d.as_str());
        },
        None => {},
    }
    out.append("}");
    proof {
        assert(out@ =~= spec_ser_response(*r));
    }
    out
}

/// The characters of a text, for index-based parsing.
fn to_chars(text: &str) -> (cs: Vec<char>)
    ensures
        cs@ == text@,
{
    let n = text.unicode_len();
    let mut cs: Vec<char> = Vec::new();
    let mut i: usize = 0;
    while i < n
        invariant
            i <= n,
            n == text@.len(),
            cs@ == text@.take(i as int),
        decreases n - i,
    {
        cs.push(text.get_char(i));
        i += 1;
        proof {
            assert(text@.take(i as int) =~= text@.take(i as int - 1).push(text@[i as int - 1]));
        }
    }
    proof {
        assert(text@.take(n as int) =~= text@);
    }
    cs
}

/// The first position at or after `i` that holds no whitespace.
pub open spec fn spec_skip_ws(cs: Seq<char>, i: int) -> int
    decreases cs.len() - i,
{
    if i < 0 || i >= cs.len() {
        i
    } else if is_ws_char(cs[i]) {
        spec_skip_ws(cs, i + 1)
    } else {
        i
    }
}

fn skip_ws_at(cs: &Vec<char>, i: usize) -> (j: usize)
    requires
        i <= cs@.len(),
    ensures
        j == spec_skip_ws(cs@, i as int),
        i <= j <= cs@.len(),
        j < cs@.len() ==> !is_ws_char(cs@[j as int]),
        forall|k: int| i <= k < j ==> is_ws_char(cs@[k]),
{
    let n = cs.len();
    let mut j = i;
    while j < n && is_ws(cs[j])
        invariant
            i <= j <= n,
            n == cs@.len(),
            spec_skip_ws(cs@, i as int) == spec_skip_ws(cs@, j as int),
            forall|k: int| i <= k < j ==> is_ws_char(cs@[k]),
        decreases n - j,
    {
        j += 1;
    }
    j
}

/// How one escape code inside a string literal is read back.
pub open spec fn unesc_code(c: char) -> Option<char> {
    if c == '"' {
        Some('"')
    } else if c == '\\' {
        Some('\\')
    } else if c == '/' {
        Some('/')
    } else if c == 'n' {
        Some('\n')
    } else if c == 't' {
        Some('\t')
    } else if c == 'r' {
        Some('\r')
    } else if c == 'b' {
        Some('\u{0008}')
    } else if c == 'f' {
        Some('\u{000C}')
    } else {
        None
    }
}

/// The body of a string literal, read from position `j` with `acc` already
/// collected: characters up to the closing quote, escapes decoded.
pub open spec fn spec_scan_string(cs: Seq<char>, j: int, acc: Seq<char>) -> Option<(Seq<char>, int)>
    decreases cs.len() - j,
{
    if j < 0 || j >= cs.len() {
        None
    } else if cs[j] == '"' {
        Some((acc, j + 1))
    } else if cs[j] == '\\' {
        if j + 1 >= cs.len() {
            None
        } else {
            match unesc_code(cs[j + 1]) {
                Some(c) => spec_scan_string(cs, j + 2, acc.push(c)),
                None => None,
            }
        }
    } else {
        spec_scan_string(cs, j + 1, acc.push(cs[j]))
    }
}

/// A string literal at position `i`: its decoded text and the position just
/// past the closing quote.
pub open spec fn spec_parse_string(cs: Seq<char>, i: int) -> Option<(Seq<char>, int)> {
    if 0 <= i < cs.len() && cs[i] == '"' {
        spec_scan_string(cs, i + 1, Seq::empty())
    } else {
        None
    }
}

/// Parses a JSON string literal starting at `i`, unescaping its body. The
/// escapes `\" \\ \/ \n \t \r \b \f` are understood; anything else rejects
/// the text. On success the returned position is just past the closing
/// quote.
fn parse_string_at(cs: &Vec<char>, i: usize) -> (r: Option<(String, usize)>)
    requires
        i <= cs@.len(),
    ensures
        match r {
            Some(p) => i < p.1 <= cs@.len() && spec_parse_string(cs@, i as int) == Some(
                (p.0@, p.1 as int),
            ),
            None => spec_parse_string(cs@, i as int) is None,
        },
{
    let n = cs.len();
    if i >= n || cs[i] != '"' {
        return None;
    }
    let mut j = i + 1;
    let mut out = String::new();
    loop
        invariant
            i < j <= n,
            n == cs@.len(),
            cs@[i as int] == '"',
            spec_parse_string(cs@, i as int) == spec_scan_string(cs@, j as int, out@),
        decreases n - j,
    {
        if j >= n {
            return None;
        }
        let c = cs[j];
        if c == '"' {
            return Some((out, j + 1));
        }
        if c == '\\' {
            if j + 1 >= n {
                return None;
            }
            let e = cs[j + 1];
            if e == '"' {
                push_char(&mut out, '"');
            } else if e == '\\' {
                push_char(&mut out, '\\');
            } else if e == '/' {
                push_char(&mut out, '/');
            } else if e == 'n' {
                push_char(&mut out, '\n');
            } else if e == 't' {
                push_char(&mut out, '\t');
            } else if e == 'r' {
                push_char(&mut out, '\r');
            } else if e == 'b' {
                push_char(&mut out, '\u{0008}');
            } else if e == 'f' {
                push_char(&mut out, '\u{000C}');
            } else {
                return None;
            }
            j += 2;
        } else {
            push_char(&mut out, c);
            j += 1;
        }
    }
}

/// Where one raw JSON value read from position `j` ends, scanning with the
/// given nesting depth and string state; `start` is where the value began.
/// The value ends before a `,`, `}`, `]` or whitespace at depth zero; an
/// unterminated string, an open bracket at the end, or an empty extent is a
/// failure.
pub open spec fn spec_scan_value(
    cs: Seq<char>,
    j: int,
    depth: int,
    in_str: bool,
    esc: bool,
    start: int,
) -> Option<int>
    decreases cs.len() - j,
{
    if j < 0 || j >= cs.len() {
        if depth == 0 && !in_str && j > start {
            Some(j)
        } else {
            None
        }
    } else {
        let c = cs[j];
        if in_str {
            if esc {
                spec_scan_value(cs, j + 1, depth, true, false, start)
            } else if c == '\\' {
                spec_scan_value(cs, j + 1, depth, true, true, start)
            } else if c == '"' {
                spec_scan_value(cs, j + 1, depth, false, false, start)
            } else {
                spec_scan_value(cs, j + 1, depth, true, false, start)
            }
        } else if c == '"' {
            spec_scan_value(cs, j + 1, depth, true, false, start)
        } else if c == '{' || c == '[' {
            spec_scan_value(cs, j + 1, depth + 1, false, false, start)
        } else if c == '}' || c == ']' {
            if depth == 0 {
                if j > start {
                    Some(j)
                } else {
                    None
                }
            } else {
                spec_scan_value(cs, j + 1, depth - 1, false, false, start)
            }
        } else if c == ',' && depth == 0 {
            if j > start {
                Some(j)
            } else {
                None
            }
        } else if depth == 0 && is_ws_char(c) {
            if j > start {
                Some(j)
            } else {
                None
            }
        } else {
            spec_scan_value(cs, j + 1, depth, false, false, start)
        }
    }
}

/// The end of the raw JSON value starting at `i`.
pub open spec fn spec_skip_value(cs: Seq<char>, i: int) -> Option<int> {
    spec_scan_value(cs, i, 0, false, false, i)
}

/// Scans one JSON value starting at `i` and returns its raw text verbatim.
/// The scan is string-aware and bracket-aware; it stops before a `,`, `}` or
/// `]` that closes the enclosing context.
fn skip_value_at(cs: &Vec<char>, i: usize) -> (r: Option<(String, usize)>)
    requires
        i <= cs@.len(),
    ensures
        match r {
            Some(p) => i < p.1 <= cs@.len() && p.0@ == cs@.subrange(i as int, p.1 as int)
                && spec_skip_value(cs@, i as int) == Some(p.1 as int),
            None => spec_skip_value(cs@, i as int) is None,
        },
{
    let n = cs.len();
    let mut j = i;
    let mut depth: usize = 0;
    let mut in_str = false;
    let mut esc = false;
    let mut raw = String::new();
    proof {
        assert(raw@ =~= cs@.subrange(i as int, i as int));
    }
    loop
        invariant
            i <= j <= n,
            n == cs@.len(),
            depth <= j - i,
            !in_str ==> !esc,
            raw@ == cs@.subrange(i as int, j as int),
            spec_skip_value(cs@, i as int) == spec_scan_value(
                cs@,
                j as int,
                depth as int,
                in_str,
                esc,
                i as int,
            ),
        decreases n - j,
    {
        if j >= n {
            if depth == 0 && !in_str && j > i {
                return Some((raw, j));
            }
            return None;
        }
        let c = cs[j];
        if in_str {
            if esc {
                esc = false;
            } else if c == '\\' {
                esc = true;
            } else if c == '"' {
                in_str = false;
            }
        } else if c == '"' {
            in_str = true;
        } else if c == '{' || c == '[' {
            depth += 1;
        } else if c == '}' || c == ']' {
            if depth == 0 {
                if j > i {
                    return Some((raw, j));
                }
                return None;
            }
            depth -= 1;
        } else if c == ',' && depth == 0 {
            if j > i {
                return Some((raw, j));
            }
            return None;
        } else if depth == 0 && is_ws(c) {
            if j > i {
                return Some((raw, j));
            }
            return None;
        }
        push_char(&mut raw, c);
        j += 1;
        proof {
            assert(cs@.subrange(i as int, j as int) =~= cs@.subrange(i as int, j as int - 1).push(
                cs@[j as int - 1],
            ));
        }
    }
}

/// Parses the wire text of a command. Returns `None` on malformed JSON, on a
/// missing or empty `op`, on a `channel` or `requestId` that is neither a
/// string nor `null`, and on trailing text; unknown fields are skipped. A
/// returned command always carries a non-empty operation name.
/// The fields read off a command text, as mathematical values.
pub struct ParsedCommand {
    pub op: Seq<char>,
    pub channel: Option<Seq<char>>,
    pub args: Option<Seq<char>>,
    pub request_id: Option<Seq<char>>,
}

pub open spec fn opt_view(o: Option<String>) -> Option<Seq<char>> {
    match o {
        Some(s) => Some(s@),
        None => None,
    }
}

/// The mathematical view of a command.
pub open spec fn command_view(c: Command) -> ParsedCommand {
    ParsedCommand {
        op: c.op@,
        channel: opt_view(c.channel),
        args: opt_view(c.args),
        request_id: opt_view(c.request_id),
    }
}

/// Which of the known keys have already appeared: a repeated known key
/// rejects the text.
pub struct SeenKeys {
    pub op: bool,
    pub channel: bool,
    pub args: bool,
    pub request_id: bool,
}

/// One member's value, read at position `i` under the given key: how it
/// updates the fields collected so far, and where it ends. `op` must be a
/// non-empty string; `channel` and `requestId` must be strings or `null`;
/// `args` keeps its raw text unless it is `null`; a known key seen twice is
/// malformed; unknown keys are skipped.
pub open spec fn spec_member_value(
    cs: Seq<char>,
    i: int,
    key: Seq<char>,
    acc: ParsedCommand,
    seen: SeenKeys,
) -> Option<(ParsedCommand, SeenKeys, int)> {
    if key == "op"@ {
        if seen.op {
            None
        } else {
            match spec_parse_string(cs, i) {
                Some((s, j)) => if s.len() > 0 {
                    Some((ParsedCommand { op: s, ..acc }, SeenKeys { op: true, ..seen }, j))
                } else {
                    None
                },
                None => None,
            }
        }
    } else if key == "channel"@ {
        if seen.channel {
            None
        } else if 0 <= i < cs.len() && cs[i] == '"' {
            match spec_parse_string(cs, i) {
                Some((s, j)) => Some(
                    (
                        ParsedCommand { channel: Some(s), ..acc },
                        SeenKeys { channel: true, ..seen },
                        j,
                    ),
                ),
                None => None,
            }
        } else {
            match spec_skip_value(cs, i) {
                Some(j) => if cs.subrange(i, j) == "null"@ {
                    Some((acc, SeenKeys { channel: true, ..seen }, j))
                } else {
                    None
                },
                None => None,
            }
        }
    } else if key == "args"@ {
        if seen.args {
            None
        } else {
            match spec_skip_value(cs, i) {
                Some(j) => if cs.subrange(i, j) == "null"@ {
                    Some((acc, SeenKeys { args: true, ..seen }, j))
                } else {
                    Some(
                        (
                            ParsedCommand { args: Some(cs.subrange(i, j)), ..acc },
                            SeenKeys { args: true, ..seen },
                            j,
                        ),
                    )
                },
                None => None,
            }
        }
    } else if key == "requestId"@ {
        if seen.request_id {
            None
        } else if 0 <= i < cs.len() && cs[i] == '"' {
            match spec_parse_string(cs, i) {
                Some((s, j)) => Some(
                    (
                        ParsedCommand { request_id: Some(s), ..acc },
                        SeenKeys { request_id: true, ..seen },
                        j,
                    ),
                ),
                None => None,
            }
        } else {
            match spec_skip_value(cs, i) {
                Some(j) => if cs.subrange(i, j) == "null"@ {
                    Some((acc, SeenKeys { request_id: true, ..seen }, j))
                } else {
                    None
                },
                None => None,
            }
        }
    } else {
        match spec_skip_value(cs, i) {
            Some(j) => Some((acc, seen, j)),
            None => None,
        }
    }
}

/// The members of the command object from position `i` on, given the fields
/// collected so far: each is `"key" : value`, members are separated by `,`,
/// and the object ends with `}` followed by nothing but whitespace; the text
/// is a command only if an `op` member was present.
pub open spec fn spec_parse_members(
    cs: Seq<char>,
    i: int,
    acc: ParsedCommand,
    seen: SeenKeys,
) -> Option<ParsedCommand>
    decreases cs.len() - i,
{
    let i1 = spec_skip_ws(cs, i);
    match spec_parse_string(cs, i1) {
        None => None,
        Some((key, i2)) => {
            let i3 = spec_skip_ws(cs, i2);
            if i3 < 0 || i3 >= cs.len() || cs[i3] != ':' {
                None
            } else {
                let i5 = spec_skip_ws(cs, i3 + 1);
                match spec_member_value(cs, i5, key, acc, seen) {
                    None => None,
                    Some((acc2, seen2, i6)) => {
                        let i7 = spec_skip_ws(cs, i6);
                        if 0 <= i7 < cs.len() && cs[i7] == ',' {
                            if i < i7 + 1 <= cs.len() {
                                spec_parse_members(cs, i7 + 1, acc2, seen2)
                            } else {
                                None
                            }
                        } else if 0 <= i7 < cs.len() && cs[i7] == '}' {
                            let i8 = spec_skip_ws(cs, i7 + 1);
                            if i8 >= cs.len() && seen2.op {
                                Some(acc2)
                            } else {
                                None
                            }
                        } else {
                            None
                        }
                    },
                }
            }
        },
    }
}

/// What a command text means: whitespace, `{`, its members. `None` is
/// malformed.
pub open spec fn spec_parse_command(s: Seq<char>) -> Option<ParsedCommand> {
    let i0 = spec_skip_ws(s, 0);
    if 0 <= i0 < s.len() && s[i0] == '{' {
        spec_parse_members(
            s,
            i0 + 1,
            ParsedCommand { op: Seq::empty(), channel: None, args: None, request_id: None },
            SeenKeys { op: false, channel: false, args: false, request_id: false },
        )
    } else {
        None
    }
}

/// Parses the wire text of a command, exactly as `spec_parse_command` reads
/// it: `None` on malformed JSON, on a missing, empty or repeated `op`, on a
/// `channel` or `requestId` that is neither a string nor `null`, on any
/// known key appearing twice, and on trailing text; unknown fields are
/// skipped. A returned command always carries a non-empty operation name.
pub fn parse_command(text: &str) -> (r: Option<Command>)
    ensures
        match r {
            Some(c) => command_wf(c) && spec_parse_command(text@) == Some(command_view(c)),
            None => spec_parse_command(text@) is None,
        },
{
    let cs = to_chars(text);
    let n = cs.len();
    let mut i = skip_ws_at(&cs, 0);
    if i >= n || cs[i] != '{' {
        return None;
    }
    i += 1;
    let mut op: Option<String> = None;
    let mut channel: Option<String> = None;
    let mut args: Option<String> = None;
    let mut request_id: Option<String> = None;
    let mut channel_seen = false;
    let mut args_seen = false;
    let mut request_id_seen = false;
    loop
        invariant
            i <= n,
            n == cs@.len(),
            cs@ == text@,
            match op {
                Some(o) => o@.len() > 0,
                None => true,
            },
            channel is Some ==> channel_seen,
            args is Some ==> args_seen,
            request_id is Some ==> request_id_seen,
            spec_parse_command(text@) == spec_parse_members(
                cs@,
                i as int,
                (ParsedCommand {
                    op: match op {
                        Some(o) => o@,
                        None => Seq::empty(),
                    },
                    channel: opt_view(channel),
                    args: opt_view(args),
                    request_id: opt_view(request_id),
                }),
                (SeenKeys {
                    op: op is Some,
                    channel: channel_seen,
                    args: args_seen,
                    request_id: request_id_seen,
                }),
            ),
        decreases n - i,
    {
        let start = i;
        i = skip_ws_at(&cs, i);
        let (key, j) = match parse_string_at(&cs, i) {
            Some(p) => p,
            None => {
                return None;
            },
        };
        i = j;
        i = skip_ws_at(&cs, i);
        if i >= n || cs[i] != ':' {
            return None;
        }
        i += 1;
        i = skip_ws_at(&cs, i);
        if str_eq(key.as_str(), "op") {
            if op.is_some() {
                return None;
            }
            let (s, j) = match parse_string_at(&cs, i) {
                Some(p) => p,
                None => {
                    return None;
                },
            };
            if s.unicode_len() == 0 {
                return None;
            }
            op = Some(s);
            i = j;
        } else if str_eq(key.as_str(), "channel") {
            if channel_seen {
                return None;
            }
            channel_seen = true;
            if i < n && cs[i] == '"' {
                let (s, j) = match parse_string_at(&cs, i) {
                    Some(p) => p,
                    None => {
                        return None;
                    },
                };
                channel = Some(s);
                i = j;
            } else {
                let (raw, j) = match skip_value_at(&cs, i) {
                    Some(p) => p,
                    None => {
                        return None;
                    },
                };
                if !str_eq(raw.as_str(), "null") {
                    return None;
                }
                i = j;
            }
        } else if str_eq(key.as_str(), "args") {
            if args_seen {
                return None;
            }
            args_seen = true;
            let (raw, j) = match skip_value_at(&cs, i) {
                Some(p) => p,
                None => {
                    return None;
                },
            };
            if !str_eq(raw.as_str(), "null") {
                args = Some(raw);
            }
            i = j;
        } else if str_eq(key.as_str(), "requestId") {
            if request_id_seen {
                return None;
            }
            request_id_seen = true;
            if i < n && cs[i] == '"' {
                let (s, j) = match parse_string_at(&cs, i) {
                    Some(p) => p,
                    None => {
                        return None;
                    },
                };
                request_id = Some(s);
                i = j;
            } else {
                let (raw, j) = match skip_value_at(&cs, i) {
                    Some(p) => p,
                    None => {
                        return None;
                    },
                };
                if !str_eq(raw.as_str(), "null") {
                    return None;
                }
                i = j;
            }
        } else {
            let (_skipped, j) = match skip_value_at(&cs, i) {
                Some(p) => p,
                None => {
                    return None;
                },
            };
            i = j;
        }
        i = skip_ws_at(&cs, i);
        if i < n && cs[i] == ',' {
            i += 1;
            proof {
                assert(i > start);
            }
        } else if i < n && cs[i] == '}' {
            i += 1;
            let end = skip_ws_at(&cs, i);
            if end < n {
                return None;
            }
            return match op {
                Some(o) => Some(Command { op: o, channel, args, request_id }),
                None => None,
            };
        } else {
            return None;
        }
    }
}


/// `spec_escape` unfolded from the front: the escape of the first character,
/// then the escape of the rest.
pub proof fn lemma_escape_front(s: Seq<char>)
    requires
        s.len() > 0,
    ensures
        spec_escape(s) == esc_char(s[0]) + spec_escape(s.drop_first()),
    decreases s.len(),
{
    if s.len() == 1 {
        assert(s.drop_last() =~= Seq::<char>::empty());
        assert(s.drop_first() =~= Seq::<char>::empty());
        assert(spec_escape(s) =~= esc_char(s[0]) + spec_escape(s.drop_first()));
    } else {
        lemma_escape_front(s.drop_last());
        assert(s.drop_last()[0] == s[0]);
        assert(s.drop_last().drop_first() =~= s.drop_first().drop_last());
        assert(s.drop_first().last() == s.last());
        assert(spec_escape(s.drop_first()) == spec_escape(s.drop_first().drop_last()) + esc_char(
            s.drop_first().last(),
        ));
        assert(spec_escape(s) =~= esc_char(s[0]) + spec_escape(s.drop_first()));
    }
}

/// Scanning a string literal body that holds exactly the escape of `s`
/// followed by the closing quote recovers `s`.
pub proof fn lemma_scan_escaped(cs: Seq<char>, j: int, s: Seq<char>, acc: Seq<char>)
    requires
        0 <= j,
        j + spec_escape(s).len() + 1 <= cs.len(),
        cs.subrange(j, j + spec_escape(s).len()) == spec_escape(s),
        cs[j + spec_escape(s).len()] == '"',
    ensures
        spec_scan_string(cs, j, acc) == Some((acc + s, j + spec_escape(s).len() + 1)),
    decreases s.len(),
{
    if s.len() == 0 {
        assert(spec_escape(s).len() == 0);
        assert(cs[j] == '"');
        assert(acc + s =~= acc);
    } else {
        lemma_escape_front(s);
        let c = s[0];
        let e = esc_char(c);
        let rest = s.drop_first();
        let er = spec_escape(rest);
        assert(spec_escape(s) == e + er);
        assert(spec_escape(s).len() == e.len() + er.len());
        let j2 = j + e.len();
        assert(cs.subrange(j2, j2 + er.len()) =~= er) by {
            assert forall|k: int| 0 <= k < er.len() implies cs.subrange(
                j2,
                j2 + er.len(),
            )[k] == er[k] by {
                assert(cs[j2 + k] == cs.subrange(j, j + spec_escape(s).len())[e.len() + k]);
                assert((e + er)[e.len() + k] == er[k]);
            }
        }
        assert forall|k: int| 0 <= k < e.len() implies cs[j + k] == e[k] by {
            assert(cs[j + k] == cs.subrange(j, j + spec_escape(s).len())[k]);
            assert((e + er)[k] == e[k]);
        }
        if c == '"' || c == '\\' || c == '\n' || c == '\t' || c == '\r' || c == '\u{0008}'
            || c == '\u{000C}' {
            assert(e.len() == 2);
            assert(cs[j + 0] == e[0] && cs[j + 1] == e[1]);
            assert(cs[j] == '\\');
            assert(unesc_code(cs[j + 1]) == Some(c));
            lemma_scan_escaped(cs, j + 2, rest, acc.push(c));
            assert(acc.push(c) + rest =~= acc + s);
        } else {
            assert(e.len() == 1);
            assert(cs[j + 0] == e[0]);
            assert(cs[j] == c);
            lemma_scan_escaped(cs, j + 1, rest, acc.push(c));
            assert(acc.push(c) + rest =~= acc + s);
        }
    }
}


/// A raw arguments text the wire format can carry in place: the value scan,
/// run on it with one delimiter after it, ends exactly at its end.
pub open spec fn args_text_ok(a: Seq<char>) -> bool {
    spec_skip_value(a.push(','), 0) == Some(a.len() as int)
}

/// A raw value embedded in a longer text scans to the same end there: the
/// scan stops at the delimiter that follows it.
pub proof fn lemma_scan_value_embed(
    cs: Seq<char>,
    start: int,
    j: int,
    a: Seq<char>,
    depth: int,
    in_str: bool,
    esc: bool,
)
    requires
        0 <= start,
        start + a.len() < cs.len(),
        cs.subrange(start, start + a.len()) == a,
        cs[start + a.len()] == ',' || cs[start + a.len()] == '}',
        start <= j <= start + a.len(),
        spec_scan_value(a.push(','), j - start, depth, in_str, esc, 0) == Some(a.len() as int),
    ensures
        spec_scan_value(cs, j, depth, in_str, esc, start) == Some((start + a.len()) as int),
    decreases start + a.len() - j,
{
    let u = a.push(',');
    let k = j - start;
    if j == start + a.len() {
        assert(u[k] == ',');
        if in_str {
            assert(spec_scan_value(u, k + 1, depth, true, false, 0) is None);
            assert(false);
        } else if depth != 0 {
            assert(spec_scan_value(u, k + 1, depth, false, false, 0) is None);
            assert(false);
        } else {
            assert(k > 0);
        }
    } else {
        assert(cs[j] == cs.subrange(start, start + a.len())[k]);
        assert(u[k] == a[k]);
        let c = a[k];
        if in_str {
            if esc {
                lemma_scan_value_embed(cs, start, j + 1, a, depth, true, false);
            } else if c == '\\' {
                lemma_scan_value_embed(cs, start, j + 1, a, depth, true, true);
            } else if c == '"' {
                lemma_scan_value_embed(cs, start, j + 1, a, depth, false, false);
            } else {
                lemma_scan_value_embed(cs, start, j + 1, a, depth, true, false);
            }
        } else if c == '"' {
            lemma_scan_value_embed(cs, start, j + 1, a, depth, true, false);
        } else if c == '{' || c == '[' {
            lemma_scan_value_embed(cs, start, j + 1, a, depth + 1, false, false);
        } else if c == '}' || c == ']' {
            if depth == 0 {
                assert(false);
            } else {
                lemma_scan_value_embed(cs, start, j + 1, a, depth - 1, false, false);
            }
        } else if c == ',' && depth == 0 {
            assert(false);
        } else if depth == 0 && is_ws_char(c) {
            assert(false);
        } else {
            lemma_scan_value_embed(cs, start, j + 1, a, depth, false, false);
        }
    }
}


/// Text without quotes, backslashes or the escaped control characters is its
/// own escape.
pub proof fn lemma_escape_plain(s: Seq<char>)
    requires
        forall|k: int|
            0 <= k < s.len() ==> s[k] != '"' && s[k] != '\\' && s[k] != '\n' && s[k] != '\t'
                && s[k] != '\r' && s[k] != '\u{0008}' && s[k] != '\u{000C}',
    ensures
        spec_escape(s) == s,
    decreases s.len(),
{
    if s.len() == 0 {
        assert(spec_escape(s) =~= s);
    } else {
        lemma_escape_plain(s.drop_last());
        assert(esc_char(s.last()) == seq![s.last()]);
        assert(s.drop_last() + seq![s.last()] =~= s);
    }
}


/// Round trip at the text level: the serialized form of a command carrying
/// every optional field parses back to exactly its fields. The arguments must
/// be a raw value the scan ends at (`args_text_ok`) other than `null`, which
/// the wire format reads as an absent payload.
/// The tail of the serialized command: from the `args` member on.
#[verifier::rlimit(100)]
proof fn lemma_parse_ser_tail(ops: Seq<char>, ch: Seq<char>, a: Seq<char>, rid: Seq<char>)
    requires
        ops.len() > 0,
        a != "null"@,
        args_text_ok(a),
    ensures
        spec_parse_members(
            "{\"op\":\""@ + spec_escape(ops) + "\""@ + (",\"channel\":\""@ + spec_escape(ch)
                + "\""@) + (",\"args\":"@ + a) + (",\"requestId\":\""@ + spec_escape(rid) + "\""@)
                + "}"@,
            22 + spec_escape(ops).len() as int + spec_escape(ch).len() as int,
            ParsedCommand { op: ops, channel: Some(ch), args: None, request_id: None },
            SeenKeys { op: true, channel: true, args: false, request_id: false },
        ) == Some(
            ParsedCommand { op: ops, channel: Some(ch), args: Some(a), request_id: Some(rid) },
        ),
{
    reveal_strlit("{\"op\":\"");
    reveal_strlit("\"");
    reveal_strlit(",\"channel\":\"");
    reveal_strlit(",\"args\":");
    reveal_strlit(",\"requestId\":\"");
    reveal_strlit("}");
    reveal_strlit("args");
    reveal_strlit("requestId");
    reveal_strlit("op");
    reveal_strlit("channel");
    let eo = spec_escape(ops);
    let ec = spec_escape(ch);
    let er = spec_escape(rid);
    let cs = "{\"op\":\""@ + eo + "\""@ + (",\"channel\":\""@ + ec + "\""@) + (",\"args\":"@ + a)
        + (",\"requestId\":\""@ + er + "\""@) + "}"@;
    let lo = eo.len() as int;
    let lc = ec.len() as int;
    let la = a.len() as int;
    let lr = er.len() as int;
    assert(cs.len() == 45 + lo + lc + la + lr);
    lemma_escape_plain("args"@);
    lemma_escape_plain("requestId"@);

    // member: "args":<a>
    assert(cs[22 + lo + lc] == '"');
    assert(spec_skip_ws(cs, 22 + lo + lc) == 22 + lo + lc);
    assert(cs.subrange(23 + lo + lc, 27 + lo + lc) =~= "args"@);
    assert(cs[27 + lo + lc] == '"');
    lemma_scan_escaped(cs, 23 + lo + lc, "args"@, Seq::empty());
    assert(Seq::empty() + "args"@ =~= "args"@);
    assert(spec_parse_string(cs, 22 + lo + lc) == Some(("args"@, 28 + lo + lc)));
    assert(cs[28 + lo + lc] == ':');
    assert(spec_skip_ws(cs, 28 + lo + lc) == 28 + lo + lc);
    assert("args"@ != "op"@ && "args"@ != "channel"@);
    assert(cs.subrange(29 + lo + lc, 29 + lo + lc + la) =~= a);
    assert(cs[29 + lo + lc + la] == ',');
    lemma_scan_value_embed(cs, 29 + lo + lc, 29 + lo + lc, a, 0, false, false);
    assert(spec_skip_value(cs, 29 + lo + lc) == Some(29 + lo + lc + la));
    assert(cs.subrange(29 + lo + lc, 29 + lo + lc + la) != "null"@);
    assert(spec_skip_ws(cs, 29 + lo + lc + la) == 29 + lo + lc + la);

    // member: "requestId":"<esc(rid)>"
    assert(cs[30 + lo + lc + la] == '"');
    assert(spec_skip_ws(cs, 30 + lo + lc + la) == 30 + lo + lc + la);
    assert(cs.subrange(31 + lo + lc + la, 40 + lo + lc + la) =~= "requestId"@);
    assert(cs[40 + lo + lc + la] == '"');
    lemma_scan_escaped(cs, 31 + lo + lc + la, "requestId"@, Seq::empty());
    assert(Seq::empty() + "requestId"@ =~= "requestId"@);
    assert(spec_parse_string(cs, 30 + lo + lc + la) == Some(("requestId"@, 41 + lo + lc + la)));
    assert(cs[41 + lo + lc + la] == ':');
    assert(spec_skip_ws(cs, 41 + lo + lc + la) == 41 + lo + lc + la);
    assert(cs[42 + lo + lc + la] == '"');
    assert(spec_skip_ws(cs, 42 + lo + lc + la) == 42 + lo + lc + la);
    assert(cs.subrange(43 + lo + lc + la, 43 + lo + lc + la + lr) =~= er);
    assert(cs[43 + lo + lc + la + lr] == '"');
    lemma_scan_escaped(cs, 43 + lo + lc + la, rid, Seq::empty());
    assert(Seq::empty() + rid =~= rid);
    assert(spec_parse_string(cs, 42 + lo + lc + la) == Some((rid, 44 + lo + lc + la + lr)));
    assert(cs[44 + lo + lc + la + lr] == '}');
    assert(spec_skip_ws(cs, 44 + lo + lc + la + lr) == 44 + lo + lc + la + lr);
    assert(spec_skip_ws(cs, 45 + lo + lc + la + lr) == 45 + lo + lc + la + lr);
    assert("requestId"@ != "op"@ && "requestId"@ != "channel"@ && "requestId"@ != "args"@);

    let acc2 = ParsedCommand { op: ops, channel: Some(ch), args: None, request_id: None };
    let acc3 = ParsedCommand { op: ops, channel: Some(ch), args: Some(a), request_id: None };
    let acc4 = ParsedCommand { op: ops, channel: Some(ch), args: Some(a), request_id: Some(rid) };
    let seen2 = SeenKeys { op: true, channel: true, args: false, request_id: false };
    let seen3 = SeenKeys { op: true, channel: true, args: true, request_id: false };
    let seen4 = SeenKeys { op: true, channel: true, args: true, request_id: true };
    assert(spec_member_value(cs, 42 + lo + lc + la, "requestId"@, acc3, seen3) == Some(
        (acc4, seen4, 44 + lo + lc + la + lr),
    ));
    assert(spec_parse_members(cs, 30 + lo + lc + la, acc3, seen3) == Some(acc4));
    assert(spec_member_value(cs, 29 + lo + lc, "args"@, acc2, seen2) == Some(
        (acc3, seen3, 29 + lo + lc + la),
    ));
    assert(spec_parse_members(cs, 22 + lo + lc, acc2, seen2) == Some(acc4));
}

/// Round trip at the text level: the serialized form of a command carrying
/// every optional field parses back to exactly its fields. The arguments must
/// be a raw value the scan ends at (`args_text_ok`) other than `null`, which
/// the wire format reads as an absent payload.
#[verifier::rlimit(100)]
pub proof fn lemma_parse_ser_full(ops: Seq<char>, ch: Seq<char>, a: Seq<char>, rid: Seq<char>)
    requires
        ops.len() > 0,
        a != "null"@,
        args_text_ok(a),
    ensures
        spec_parse_command(
            "{\"op\":\""@ + spec_escape(ops) + "\""@ + (",\"channel\":\""@ + spec_escape(ch)
                + "\""@) + (",\"args\":"@ + a) + (",\"requestId\":\""@ + spec_escape(rid) + "\""@)
                + "}"@,
        ) == Some(
            ParsedCommand { op: ops, channel: Some(ch), args: Some(a), request_id: Some(rid) },
        ),
{
    reveal_strlit("{\"op\":\"");
    reveal_strlit("\"");
    reveal_strlit(",\"channel\":\"");
    reveal_strlit(",\"args\":");
    reveal_strlit(",\"requestId\":\"");
    reveal_strlit("}");
    reveal_strlit("op");
    reveal_strlit("channel");
    let eo = spec_escape(ops);
    let ec = spec_escape(ch);
    let er = spec_escape(rid);
    let cs = "{\"op\":\""@ + eo + "\""@ + (",\"channel\":\""@ + ec + "\""@) + (",\"args\":"@ + a)
        + (",\"requestId\":\""@ + er + "\""@) + "}"@;
    let lo = eo.len() as int;
    let lc = ec.len() as int;
    let la = a.len() as int;
    let lr = er.len() as int;
    assert(cs.len() == 45 + lo + lc + la + lr);
    lemma_escape_plain("op"@);
    lemma_escape_plain("channel"@);

    // member: "op":"<esc(ops)>"
    assert(cs[0] == '{');
    assert(spec_skip_ws(cs, 0) == 0);
    assert(cs[1] == '"');
    assert(cs.subrange(2, 4) =~= "op"@);
    assert(cs[4] == '"');
    lemma_scan_escaped(cs, 2, "op"@, Seq::empty());
    assert(Seq::empty() + "op"@ =~= "op"@);
    assert(spec_parse_string(cs, 1) == Some(("op"@, 5int)));
    assert(cs[5] == ':');
    assert(spec_skip_ws(cs, 5) == 5);
    assert(cs[6] == '"');
    assert(spec_skip_ws(cs, 6) == 6);
    assert(cs.subrange(7, 7 + lo) =~= eo);
    assert(cs[7 + lo] == '"');
    lemma_scan_escaped(cs, 7, ops, Seq::empty());
    assert(Seq::empty() + ops =~= ops);
    assert(spec_parse_string(cs, 6) == Some((ops, 8 + lo)));
    assert(cs[8 + lo] == ',');
    assert(spec_skip_ws(cs, 8 + lo) == 8 + lo);

    // member: "channel":"<esc(ch)>"
    assert(cs[9 + lo] == '"');
    assert(spec_skip_ws(cs, 9 + lo) == 9 + lo);
    assert(cs.subrange(10 + lo, 17 + lo) =~= "channel"@);
    assert(cs[17 + lo] == '"');
    lemma_scan_escaped(cs, 10 + lo, "channel"@, Seq::empty());
    assert(Seq::empty() + "channel"@ =~= "channel"@);
    assert(spec_parse_string(cs, 9 + lo) == Some(("channel"@, 18 + lo)));
    assert(cs[18 + lo] == ':');
    assert(spec_skip_ws(cs, 18 + lo) == 18 + lo);
    assert(cs[19 + lo] == '"');
    assert(spec_skip_ws(cs, 19 + lo) == 19 + lo);
    assert(cs.subrange(20 + lo, 20 + lo + lc) =~= ec);
    assert(cs[20 + lo + lc] == '"');
    lemma_scan_escaped(cs, 20 + lo, ch, Seq::empty());
    assert(Seq::empty() + ch =~= ch);
    assert(spec_parse_string(cs, 19 + lo) == Some((ch, 21 + lo + lc)));
    assert(cs[21 + lo + lc] == ',');
    assert(spec_skip_ws(cs, 21 + lo + lc) == 21 + lo + lc);
    assert("channel"@ != "op"@);

    // assemble: the tail lemma covers the last two members
    lemma_parse_ser_tail(ops, ch, a, rid);
    let acc0 = ParsedCommand { op: Seq::empty(), channel: None, args: None, request_id: None };
    let acc1 = ParsedCommand { op: ops, channel: None, args: None, request_id: None };
    let acc2 = ParsedCommand { op: ops, channel: Some(ch), args: None, request_id: None };
    let acc4 = ParsedCommand { op: ops, channel: Some(ch), args: Some(a), request_id: Some(rid) };
    let seen0 = SeenKeys { op: false, channel: false, args: false, request_id: false };
    let seen1 = SeenKeys { op: true, channel: false, args: false, request_id: false };
    let seen2 = SeenKeys { op: true, channel: true, args: false, request_id: false };
    assert(spec_member_value(cs, 19 + lo, "channel"@, acc1, seen1) == Some(
        (acc2, seen2, 21 + lo + lc),
    ));
    assert(spec_parse_members(cs, 9 + lo, acc1, seen1) == Some(acc4));
    assert(spec_member_value(cs, 6, "op"@, acc0, seen0) == Some((acc1, seen1, 8 + lo)));
    assert(spec_parse_members(cs, 1, acc0, seen0) == Some(acc4));
    assert(spec_parse_command(cs) == Some(acc4));
}

/// Round trip: serializing a command with all optional fields populated and
/// parsing the text back yields an equal command. The arguments must be a
/// raw value the scan ends at (`args_text_ok`) other than `null`, which the
/// wire format reads back as an absent payload.
pub proof fn lemma_round_trip(c: Command)
    requires
        command_wf(c),
        c.channel is Some,
        c.request_id is Some,
        match c.args {
            Some(a) => a@ != "null"@ && args_text_ok(a@),
            None => false,
        },
    ensures
        spec_parse_command(spec_ser_command(c)) == Some(command_view(c)),
{
    let ch = c.channel.unwrap();
    let a = c.args.unwrap();
    let rid = c.request_id.unwrap();
    lemma_parse_ser_full(c.op@, ch@, a@, rid@);
    assert(spec_ser_command(c) =~= "{\"op\":\""@ + spec_escape(c.op@) + "\""@ + (",\"channel\":\""@
        + spec_escape(ch@) + "\""@) + (",\"args\":"@ + a@) + (",\"requestId\":\""@ + spec_escape(
        rid@,
    ) + "\""@) + "}"@);
    assert(command_view(c) == ParsedCommand {
        op: c.op@,
        channel: Some(ch@),
        args: Some(a@),
        request_id: Some(rid@),
    });
}

} // verus!
