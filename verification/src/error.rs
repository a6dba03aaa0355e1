//! The ways in which a node can fail.
use vstd::prelude::*;

verus! {

/// Why a line could not be read as an envelope of the expected payload set.
#[derive(Debug, Clone, Copy, PartialEq, Eq, Structural)]
pub enum MalformedEnvelope {
    /// The line is not a JSON document.
    Syntax,
    /// A required member is absent.
    MissingField,
    /// The `type` member names no payload of the expected set.
    UnknownTag,
    /// A member, or the document itself, has the wrong JSON type.
    TypeMismatch,
}

/// Why a node could not finish processing a message.
#[derive(Debug, Clone, Copy, PartialEq, Eq, Structural)]
pub enum Fault {
    /// A reply could not be serialised.
    Write,
    /// An acknowledgement of initialization arrived where only requests are
    /// expected.
    UnexpectedInitOk,
}

/// Why the handshake did not complete.
#[derive(Debug, Clone, Copy, PartialEq, Eq, Structural)]
pub enum HandshakeError {
    /// The input ended before the first message.
    Missing,
    /// The first line is not an envelope of the initialization set.
    Malformed(MalformedEnvelope),
    /// The first message is an acknowledgement, not a request.
    UnexpectedInitOk,
    /// The acknowledgement could not be serialised.
    Write,
}

/// An error that ends the process, by the stage that met it.
#[derive(Debug, Clone, Copy, PartialEq, Eq, Structural)]
pub enum Fatal {
    /// The handshake did not complete.
    Handshake(HandshakeError),
    /// A line after the handshake is not an envelope of the node's payload
    /// set.
    Decode(MalformedEnvelope),
    /// The node failed on a message.
    Dispatch(Fault),
}

} // verus!
