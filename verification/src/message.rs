//! The message vocabularies of the two channel planes.  The wiring core
//! never interprets a data message; the meaning of commands and events
//! belongs to the actor implementations and the supervisor.

use vstd::prelude::*;

use crate::channel::TxHandle;
use crate::topology::NodeId;

verus! {

/// A payload unit carried on the data plane between neighboring nodes.
#[derive(Debug, PartialEq, Eq)]
pub struct DataMessage {
    /// The exchange this unit belongs to.
    pub session: u64,
    /// The remaining route, as node ids.
    pub hops: Vec<NodeId>,
    /// Opaque payload bytes.
    pub payload: Vec<u8>,
}

/// A command the supervisor sends an actor on its control channel.
pub enum Command {
    /// Hand the actor a sending half for a new neighbor's data mailbox.
    AddNeighbor { id: NodeId, sender: TxHandle<DataMessage> },
    /// Drop the sending half for a neighbor.
    RemoveNeighbor { id: NodeId },
    /// Change a relay's drop probability, in millionths.
    SetDropProbability { drop_ppm: i64 },
    /// Stop the actor's run loop.
    Shutdown,
}

/// An event an actor reports to the supervisor on its control channel.
#[derive(Debug, PartialEq, Eq)]
pub enum Event {
    /// A data message was passed on to a neighbor.
    Forwarded { message: DataMessage },
    /// A data message was discarded.
    Dropped { message: DataMessage },
    /// The actor stopped its run loop.
    Halted { id: NodeId },
}

} // verus!
