//! Response envelopes handed to a session's outbound path.

use vstd::prelude::*;

use crate::command::Command;

verus! {

/// The status carried by a response envelope.
#[derive(Clone, Copy, PartialEq, Eq, Structural, Debug)]
pub enum ResponseKind {
    Success,
    BadCommand,
}

/// A response envelope: echoes the originating request identifier when it is
/// known, carries a status kind and an optional payload (raw JSON text).
/// Created per reply and discarded after send.
pub struct SocketResponse {
    pub request_id: Option<String>,
    pub kind: ResponseKind,
    pub data: Option<String>,
}

impl SocketResponse {
    /// A successful, payload-free envelope echoing the command's request
    /// identifier.
    pub fn from_command(command: &Command) -> (r: Self)
        ensures
            r.request_id == command.request_id,
            r.kind == ResponseKind::Success,
            r.data is None,
    {
        let request_id = match &command.request_id {
            Some(id) => Some(id.clone()),
            None => None,
        };
        SocketResponse { request_id, kind: ResponseKind::Success, data: None }
    }

    /// The same envelope with the payload set to the given raw JSON text.
    pub fn set_data(self, data: String) -> (r: Self)
        ensures
            r.request_id == self.request_id,
            r.kind == self.kind,
            r.data == Some(data),
    {
        SocketResponse { data: Some(data), ..self }
    }

    /// The same envelope marked as rejecting a malformed command.
    pub fn with_bad_command(self) -> (r: Self)
        ensures
            r.request_id == self.request_id,
            r.kind == ResponseKind::BadCommand,
            r.data == self.data,
    {
        SocketResponse { kind: ResponseKind::BadCommand, ..self }
    }
}

impl Default for SocketResponse {
    /// A successful envelope referencing no request and carrying no payload.
    fn default() -> (r: Self)
        ensures
            r.request_id is None,
            r.kind == ResponseKind::Success,
            r.data is None,
    {
        SocketResponse { request_id: None, kind: ResponseKind::Success, data: None }
    }
}

} // verus!
