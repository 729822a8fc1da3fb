//! Assembly and validation of a simulated message-passing network.
//!
//! A declared topology of relay nodes and endpoint nodes (originators and
//! responders) is first checked against the graph invariants every deployment
//! relies on: unique node ids, well-formed neighbor lists, degree bounds,
//! drop probabilities within range, and symmetric edges.  A validated
//! topology is then turned into a fully wired set of point-to-point data
//! channels plus a parallel set of supervisor control channels, and relay
//! implementations are assigned deterministically from a registry.

pub mod bootstrap;
pub mod channel;
pub mod registry;
pub mod message;
pub mod topology;
pub mod validator;
pub mod wiring;
