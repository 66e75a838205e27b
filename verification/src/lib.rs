//! Core of a WebSocket connection gateway: per-connection sessions with
//! liveness tracking, a registry with expiry sweeping, inbound frame
//! classification, wire-format command parsing and serialization, and a
//! first-match-wins command dispatcher.
//!
//! Transport plumbing (the HTTP upgrade, the async pipelines) lives outside
//! this library; the library holds the decisions those pipelines make.

pub mod backend;
pub mod command;
pub mod dispatch;
mod ids;
pub mod inbound;
pub mod registry;
pub mod response;
pub mod session;
pub mod supervisor;
pub mod text;
pub mod times;
pub mod wire;
