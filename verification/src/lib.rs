//! Node-side runtime for a distributed-systems test harness protocol.
//!
//! An external orchestrator drives a node process over line-delimited JSON
//! messages. This crate provides the message model and codec for the wire
//! protocol, the one-shot initialization handshake, and a bounded-queue
//! pipeline that decouples transport I/O from the application's logic.

use vstd::prelude::*;

pub mod json;
pub mod msg;
pub mod runtime;

verus! {

/// Address of a protocol participant (a node or an external client).
pub type Id = String;

/// Protocol error code; its meaning is defined by the orchestrator.
pub type ErrorCode = u64;

/// Errors the library may return to the application.
#[derive(Clone, Copy, Debug, PartialEq, Eq)]
pub enum Error {
    /// A line could not be decoded as a message.
    Deserialize,
    /// Initialization of a process failed.
    Initialization,
    /// A transport operation failed.
    IO,
    /// The expected message type does not match the decoded data.
    MessageType,
    /// A message could not be encoded.
    Serialize,
    /// The runtime has shut down before the process completed; this is the
    /// normal wind-down signal, not a fault.
    Shutdown,
    /// A test transport failed.
    TestIO,
    /// A message arrived that the current protocol state does not allow.
    UnexpectedMsg { expected: &'static str },
}

/// Result of library operations that may fail without a value.
pub type Status = core::result::Result<(), Error>;

/// Key of a key-value workload: an arbitrary JSON value.
pub type Key = json::Json;

/// Value of a key-value workload: an arbitrary JSON value.
pub type Val = json::Json;

} // verus!
