//! The wire envelopes of the peer-to-peer request/response protocol.
//!
//! A request carries a command and the replication flag that keeps
//! replication single-hop; a response carries the rendered payload. On
//! the wire both are JSON objects with exactly these fields.

use vstd::prelude::*;

use crate::commands::Command;

verus! {

/// A request to a peer: the command to execute, a reserved payload, and
/// whether this request is itself replication traffic.
#[derive(Debug)]
pub struct SphagnumRequest {
    pub command: Command,
    pub payload: String,
    pub is_replication: bool,
}

/// A response from a peer: the rendered result, as the operator sees it.
#[derive(Debug)]
pub struct SphagnumResponse {
    pub payload: String,
}

} // verus!
