//! Unbounded multi-producer/single-consumer queues, each half tagged with
//! the channel number the wiring assigned to its queue.  The queues
//! themselves come from the crossbeam-channel crate; everything the rest of
//! the library proves about them goes through the channel numbers, which
//! this module keeps tied to the underlying queues: both halves of one queue
//! carry one number, and duplicating a sender keeps it.

use crossbeam_channel::{Receiver, Sender};
use vstd::prelude::*;

verus! {

/// Relies on crossbeam_channel::Sender: the sending half of a queue,
/// cloneable, shareable across threads.
#[verifier::external_type_specification]
#[verifier::external_body]
#[verifier::reject_recursive_types(T)]
pub struct ExSender<T>(Sender<T>);

/// Relies on crossbeam_channel::Receiver: the receiving half of a queue.
#[verifier::external_type_specification]
#[verifier::external_body]
#[verifier::reject_recursive_types(T)]
pub struct ExReceiver<T>(Receiver<T>);

/// Relies on crossbeam_channel::unbounded: the returned sender and receiver
/// are the two halves of one newly created queue of unbounded capacity.
#[verifier::external_body]
fn unbounded_channel<T>() -> (Sender<T>, Receiver<T>) {
    crossbeam_channel::unbounded()
}

/// Relies on crossbeam_channel::Sender::clone: the clone sends into the same
/// queue as the original.
#[verifier::external_body]
fn clone_sender<T>(tx: &Sender<T>) -> Sender<T> {
    tx.clone()
}

/// Outcome of a non-blocking receive.
pub enum TryRecv<T> {
    /// A queued message was ready.
    Message(T),
    /// Nothing was queued.
    Empty,
    /// Nothing was queued and every sending half was dropped.
    Closed,
}

/// A sending half, tagged with the channel number of its queue.
#[verifier::reject_recursive_types(T)]
pub struct TxHandle<T> {
    chan: u64,
    tx: Sender<T>,
}

/// A receiving half, tagged with the channel number of its queue.
#[verifier::reject_recursive_types(T)]
pub struct RxHandle<T> {
    chan: u64,
    rx: Receiver<T>,
}

impl<T> TxHandle<T> {
    /// The number of the queue this handle sends into.
    pub closed spec fn chan_id(self) -> u64 {
        self.chan
    }

    /// Another sending half of the same queue.
    pub fn duplicate(&self) -> (r: TxHandle<T>)
        ensures
            r.chan_id() == self.chan_id(),
    {
        TxHandle { chan: self.chan, tx: clone_sender(&self.tx) }
    }

    /// Relies on crossbeam_channel::Sender::send: on a queue of unbounded
    /// capacity the call never blocks; it fails only when the receiving half
    /// was dropped, handing the unsent message back.
    #[verifier::external_body]
    pub fn send(&self, m: T) -> (r: Result<(), T>)
        ensures
            r matches Err(x) ==> x == m,
    {
        match self.tx.send(m) {
            Ok(()) => Ok(()),
            Err(crossbeam_channel::SendError(back)) => Err(back),
        }
    }
}

impl<T> RxHandle<T> {
    /// The number of the queue this handle receives from.
    pub closed spec fn chan_id(self) -> u64 {
        self.chan
    }

    /// Relies on crossbeam_channel::Receiver::try_recv: returns a queued
    /// message when one is ready, `Empty` when nothing is queued, and
    /// `Closed` when nothing is queued and every sending half was dropped.
    #[verifier::external_body]
    pub fn try_recv(&self) -> TryRecv<T> {
        match self.rx.try_recv() {
            Ok(m) => TryRecv::Message(m),
            Err(crossbeam_channel::TryRecvError::Empty) => TryRecv::Empty,
            Err(crossbeam_channel::TryRecvError::Disconnected) => TryRecv::Closed,
        }
    }
}

/// Allocates one fresh unbounded queue and tags both halves with `chan`.
pub fn make_channel<T>(chan: u64) -> (r: (TxHandle<T>, RxHandle<T>))
    ensures
        r.0.chan_id() == chan,
        r.1.chan_id() == chan,
{
    let (tx, rx) = unbounded_channel();
    (TxHandle { chan, tx }, RxHandle { chan, rx })
}

} // verus!
