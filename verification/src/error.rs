//! The ways in which a node fails. None of them is recovered from: each ends
//! the node, so that whoever supervises it can see the failure.

use vstd::prelude::*;

verus! {

/// A fatal failure of a node.
#[derive(Debug, Clone, Copy, PartialEq, Eq, Structural)]
pub enum NodeError {
    /// An input record could not be decoded into a message.
    MalformedEnvelope,
    /// The configuration handshake was broken: something else came before the
    /// configuration message, or a configuration message came twice.
    ProtocolViolation,
    /// A topology was supplied that has no entry for this node.
    MissingTopologyEntry,
    /// The output stream could not be written to.
    TransportWriteFailure,
}

} // verus!
