//! Application-level commands carried over text frames.

use vstd::prelude::*;

use crate::ids::fresh_uuid;

verus! {

/// A parsed command: a required operation name, an optional channel hint, an
/// optional arguments payload (kept as the raw JSON text of the value, since
/// it is schema-free at this layer), and an optional request identifier.
pub struct Command {
    pub op: String,
    pub channel: Option<String>,
    pub args: Option<String>,
    pub request_id: Option<String>,
}

/// A command the inbound path may dispatch: its operation name is non-empty.
pub open spec fn command_wf(c: Command) -> bool {
    c.op@.len() > 0
}

/// Makes the command traceable: a command without a request identifier gets a
/// fresh, non-empty one; a command that already carries one keeps it. All
/// other fields are untouched.
pub fn ensure_request_id(command: &mut Command)
    ensures
        final(command).op == old(command).op,
        final(command).channel == old(command).channel,
        final(command).args == old(command).args,
        match old(command).request_id {
            Some(id) => final(command).request_id == Some(id),
            None => match final(command).request_id {
                Some(id) => id@.len() == 36,
                None => false,
            },
        },
{
    if command.request_id.is_none() {
        command.request_id = Some(fresh_uuid());
    }
}

} // verus!
