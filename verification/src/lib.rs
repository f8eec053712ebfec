//! A small node runtime for a distributed-systems workbench, with an
//! eventually-consistent gossip broadcast built on top of it.
//!
//! A node is a single-threaded state machine. It is configured once by a
//! handshake and then reacts to one event at a time: a message from the
//! network, an event that its own runtime raises, or the end of the input.
//! It performs no input or output: it is handed events and returns the
//! messages to send.
//!
//! - `message`: the envelope, and how a reply is tied to its request.
//! - `node`: the contract of a node, and the lifecycle that takes it through
//!   the handshake.
//! - `json` and `wire`: the JSON records that stand for messages, and the
//!   functions that read and write them.
//! - `broadcast`: the gossip broadcast node, its state machine and the laws
//!   that hold of it.
//! - `echo` and `unique_ids`: two nodes that only answer requests.
//! - `sets`: operations on sets of values.
//! - `error`: the failures that end a node.

pub mod broadcast;
pub mod echo;
pub mod error;
pub mod json;
pub mod message;
pub mod node;
pub mod sets;
pub mod unique_ids;
pub mod wire;
