//! The channel-topology builder: turns a validated topology into one data
//! mailbox per node, one outbound send map per node whose keyset equals the
//! node's declared neighbor set, and one dedicated control-channel pair per
//! actor, disjoint from the whole data plane.
//!
//! Every queue is tagged with a channel number derived from its owner's node
//! id, in three disjoint bands: data mailboxes, supervisor-to-actor command
//! queues, and actor-to-supervisor event queues.

use vstd::prelude::*;

use crate::channel::{make_channel, RxHandle, TxHandle};
use crate::message::{Command, DataMessage, Event};
use crate::topology::{EndpointSpec, NodeId, Topology};
use crate::topology::{lemma_originator_entry, lemma_relay_entry, lemma_responder_entry};

verus! {

/// First channel number of the data-mailbox band.
pub const DATA_CHAN_BASE: u64 = 0x000;

/// First channel number of the command-queue band.
pub const COMMAND_CHAN_BASE: u64 = 0x100;

/// First channel number of the event-queue band.
pub const EVENT_CHAN_BASE: u64 = 0x200;

/// Channel number of a node's data-plane mailbox.
pub open spec fn data_chan(id: NodeId) -> int {
    DATA_CHAN_BASE + id as int
}

/// Channel number of the supervisor-to-actor command queue of a node.
pub open spec fn command_chan(id: NodeId) -> int {
    COMMAND_CHAN_BASE + id as int
}

/// Channel number of the actor-to-supervisor event queue of a node.
pub open spec fn event_chan(id: NodeId) -> int {
    EVENT_CHAN_BASE + id as int
}

/// A node's outbound map: for each declared neighbor, in declaration order,
/// a sending half of that neighbor's data mailbox.
pub struct SendMap {
    entries: Vec<(NodeId, TxHandle<DataMessage>)>,
}

impl View for SendMap {
    type V = Seq<(NodeId, int)>;

    /// The key and the channel number of each entry, in insertion order.
    closed spec fn view(&self) -> Seq<(NodeId, int)> {
        self.entries@.map_values(|e: (NodeId, TxHandle<DataMessage>)| (e.0, e.1.chan_id() as int))
    }
}

impl SendMap {
    /// The keys of the map, in insertion order.
    pub open spec fn keys(self) -> Seq<NodeId> {
        self@.map_values(|e: (NodeId, int)| e.0)
    }

    pub fn empty() -> (r: SendMap)
        ensures
            r@ == Seq::<(NodeId, int)>::empty(),
    {
        let r = SendMap { entries: Vec::new() };
        proof {
            assert(r@ =~= Seq::<(NodeId, int)>::empty());
        }
        r
    }

    pub(crate) fn push_entry(&mut self, id: NodeId, tx: TxHandle<DataMessage>)
        ensures
            final(self)@ == old(self)@.push((id, tx.chan_id() as int)),
    {
        let ghost c = tx.chan_id() as int;
        self.entries.push((id, tx));
        proof {
            assert(self@ =~= old(self)@.push((id, c)));
        }
    }

    pub fn len(&self) -> (n: usize)
        ensures
            n == self@.len(),
    {
        self.entries.len()
    }

    /// The keys of the map as a vector, in insertion order.
    pub fn keys_vec(&self) -> (r: Vec<NodeId>)
        ensures
            r@ == self.keys(),
    {
        let mut r: Vec<NodeId> = Vec::new();
        let mut k: usize = 0;
        while k < self.entries.len()
            invariant
                k <= self.entries@.len(),
                r@.len() == k,
                forall|i: int| 0 <= i < k ==> r@[i] == (#[trigger] self.entries@[i]).0,
            decreases self.entries@.len() - k,
        {
            r.push(self.entries[k].0);
            k += 1;
        }
        proof {
            assert(r@ =~= self.keys());
        }
        r
    }

    /// The sending half this map holds for neighbor `id`, if any.
    pub fn sender_for(&self, id: NodeId) -> (r: Option<&TxHandle<DataMessage>>)
        ensures
            match r {
                Some(tx) => self.keys().contains(id) && exists|i: int|
                    0 <= i < self@.len() && (#[trigger] self@[i]).0 == id && self@[i].1
                        == tx.chan_id() as int,
                None => !self.keys().contains(id),
            },
    {
        let mut k: usize = 0;
        while k < self.entries.len()
            invariant
                k <= self.entries@.len(),
                forall|i: int| 0 <= i < k ==> (#[trigger] self.entries@[i]).0 != id,
            decreases self.entries@.len() - k,
        {
            if self.entries[k].0 == id {
                proof {
                    assert(self@[k as int].0 == id);
                    assert(self.keys()[k as int] == id);
                }
                return Some(&self.entries[k].1);
            }
            k += 1;
        }
        proof {
            assert forall|i: int| 0 <= i < self.keys().len() implies self.keys()[i] != id by {
                assert(self.keys()[i] == self.entries@[i].0);
            };
        }
        None
    }

    /// Sends `m` into neighbor `id`'s mailbox through this map.  The message
    /// comes back unsent when `id` is not a neighbor, or when the neighbor's
    /// mailbox is gone.
    pub fn send_to(&self, id: NodeId, m: DataMessage) -> (r: Result<(), DataMessage>)
        ensures
            r matches Err(x) ==> x == m,
            !self.keys().contains(id) ==> r is Err,
    {
        match self.sender_for(id) {
            Some(tx) => tx.send(m),
            None => Err(m),
        }
    }
}

/// The send map holds exactly the declared neighbors, in declaration order,
/// each entry a sending half of that neighbor's data mailbox.
pub open spec fn send_map_wf(sm: SendMap, ns: Seq<NodeId>) -> bool {
    sm@.len() == ns.len() && forall|k: int|
        0 <= k < ns.len() ==> #[trigger] sm@[k] == (ns[k], data_chan(ns[k]))
}

/// Everything a relay actor takes ownership of at spawn time.
pub struct RelayUnit {
    pub id: NodeId,
    pub drop_ppm: i64,
    pub data_rx: RxHandle<DataMessage>,
    pub send_map: SendMap,
    pub command_rx: RxHandle<Command>,
    pub event_tx: TxHandle<Event>,
}

/// Everything an originator or responder actor takes ownership of at spawn
/// time.
pub struct EndpointUnit {
    pub id: NodeId,
    pub data_rx: RxHandle<DataMessage>,
    pub send_map: SendMap,
    pub command_rx: RxHandle<Command>,
    pub event_tx: TxHandle<Event>,
}

/// The supervisor-side half of one actor's control-channel pair.
pub struct ControlHandle {
    pub id: NodeId,
    pub command_tx: TxHandle<Command>,
    pub event_rx: RxHandle<Event>,
}

/// The relay declared at position `i` was wired correctly into unit `u`.
pub open spec fn relay_unit_wf(t: Topology, i: int, u: RelayUnit) -> bool {
    &&& u.id == t.relays@[i].id
    &&& u.drop_ppm == t.relays@[i].drop_ppm
    &&& u.data_rx.chan_id() as int == data_chan(u.id)
    &&& u.command_rx.chan_id() as int == command_chan(u.id)
    &&& u.event_tx.chan_id() as int == event_chan(u.id)
    &&& send_map_wf(u.send_map, t.relays@[i].neighbors@)
}

/// The endpoint declared with `id` and neighbor list `ns` was wired
/// correctly into unit `u`.
pub open spec fn endpoint_unit_wf(u: EndpointUnit, id: NodeId, ns: Seq<NodeId>) -> bool {
    &&& u.id == id
    &&& u.data_rx.chan_id() as int == data_chan(id)
    &&& u.command_rx.chan_id() as int == command_chan(id)
    &&& u.event_tx.chan_id() as int == event_chan(id)
    &&& send_map_wf(u.send_map, ns)
}

/// The supervisor-side handle `c` is the counterpart of the control pair of
/// the actor with node id `id`.
pub open spec fn control_wf(c: ControlHandle, id: NodeId) -> bool {
    &&& c.id == id
    &&& c.command_tx.chan_id() as int == command_chan(id)
    &&& c.event_rx.chan_id() as int == event_chan(id)
}

/// The fully wired network: one unit per node, to be moved into its actor,
/// one control handle per actor, retained for the supervisor, and the full
/// node-sender map, retained so the supervisor can inject messages into any
/// node's mailbox.
pub struct Wiring {
    pub relays: Vec<RelayUnit>,
    pub responders: Vec<EndpointUnit>,
    pub originators: Vec<EndpointUnit>,
    pub relay_controls: Vec<ControlHandle>,
    pub responder_controls: Vec<ControlHandle>,
    pub originator_controls: Vec<ControlHandle>,
    pub node_senders: SendMap,
}

impl Wiring {
    /// Every node of `t` was wired into exactly one unit, in declaration
    /// order, with its control pair retained under the same position.
    pub open spec fn wf(self, t: Topology) -> bool {
        &&& self.relays@.len() == t.relays@.len()
        &&& forall|i: int|
            0 <= i < t.relays@.len() ==> relay_unit_wf(t, i, #[trigger] self.relays@[i])
        &&& self.responders@.len() == t.responders@.len()
        &&& forall|i: int|
            0 <= i < t.responders@.len() ==> endpoint_unit_wf(
                #[trigger] self.responders@[i],
                t.responders@[i].id,
                t.responders@[i].neighbors@,
            )
        &&& self.originators@.len() == t.originators@.len()
        &&& forall|i: int|
            0 <= i < t.originators@.len() ==> endpoint_unit_wf(
                #[trigger] self.originators@[i],
                t.originators@[i].id,
                t.originators@[i].neighbors@,
            )
        &&& self.relay_controls@.len() == t.relays@.len()
        &&& forall|i: int|
            0 <= i < t.relays@.len() ==> control_wf(
                #[trigger] self.relay_controls@[i],
                t.relays@[i].id,
            )
        &&& self.responder_controls@.len() == t.responders@.len()
        &&& forall|i: int|
            0 <= i < t.responders@.len() ==> control_wf(
                #[trigger] self.responder_controls@[i],
                t.responders@[i].id,
            )
        &&& self.originator_controls@.len() == t.originators@.len()
        &&& forall|i: int|
            0 <= i < t.originators@.len() ==> control_wf(
                #[trigger] self.originator_controls@[i],
                t.originators@[i].id,
            )
        &&& send_map_wf(self.node_senders, t.id_seq())
    }
}

/// Wiring round-trip at one node: a well-formed send map holds exactly the
/// declared neighbor list as its key sequence, so its keyset equals exactly
/// the declared neighbor set — no missing and no extra entries.
pub proof fn lemma_send_map_round_trip(sm: SendMap, ns: Seq<NodeId>)
    requires
        send_map_wf(sm, ns),
    ensures
        sm.keys() == ns,
        sm.keys().to_set() == ns.to_set(),
{
    assert(sm.keys() =~= ns);
}

/// Wiring round-trip: for every node of a validated, wired topology, the
/// keyset of its outbound send map equals exactly its declared neighbor set.
pub proof fn lemma_wiring_round_trip(t: Topology, w: Wiring)
    requires
        w.wf(t),
    ensures
        forall|i: int|
            0 <= i < t.relays@.len() ==> (#[trigger] w.relays@[i]).send_map.keys()
                == t.relays@[i].neighbors@,
        forall|i: int|
            0 <= i < t.responders@.len() ==> (#[trigger] w.responders@[i]).send_map.keys()
                == t.responders@[i].neighbors@,
        forall|i: int|
            0 <= i < t.originators@.len() ==> (#[trigger] w.originators@[i]).send_map.keys()
                == t.originators@[i].neighbors@,
{
    assert forall|i: int|
        0 <= i < t.relays@.len() implies (#[trigger] w.relays@[i]).send_map.keys()
        == t.relays@[i].neighbors@ by {
        lemma_send_map_round_trip(w.relays@[i].send_map, t.relays@[i].neighbors@);
    };
    assert forall|i: int|
        0 <= i < t.responders@.len() implies (#[trigger] w.responders@[i]).send_map.keys()
        == t.responders@[i].neighbors@ by {
        lemma_send_map_round_trip(w.responders@[i].send_map, t.responders@[i].neighbors@);
    };
    assert forall|i: int|
        0 <= i < t.originators@.len() implies (#[trigger] w.originators@[i]).send_map.keys()
        == t.originators@[i].neighbors@ by {
        lemma_send_map_round_trip(w.originators@[i].send_map, t.originators@[i].neighbors@);
    };
}

/// Channel isolation: the three channel bands never overlap, so in a
/// well-formed wiring a message sent on a control queue can never be
/// observed on any node's data mailbox, nor the other way round, and the two
/// directions of a control pair never share a queue either.
pub proof fn lemma_channel_isolation(t: Topology, w: Wiring)
    requires
        w.wf(t),
    ensures
        forall|i: int|
            0 <= i < w.relays@.len() ==> (#[trigger] w.relays@[i]).data_rx.chan_id()
                < COMMAND_CHAN_BASE,
        forall|i: int|
            0 <= i < w.responders@.len() ==> (#[trigger] w.responders@[i]).data_rx.chan_id()
                < COMMAND_CHAN_BASE,
        forall|i: int|
            0 <= i < w.originators@.len() ==> (#[trigger] w.originators@[i]).data_rx.chan_id()
                < COMMAND_CHAN_BASE,
        forall|i: int|
            0 <= i < w.relay_controls@.len() ==> COMMAND_CHAN_BASE <= (
            #[trigger] w.relay_controls@[i]).command_tx.chan_id() < EVENT_CHAN_BASE
                && w.relay_controls@[i].event_rx.chan_id() >= EVENT_CHAN_BASE,
        forall|i: int|
            0 <= i < w.responder_controls@.len() ==> COMMAND_CHAN_BASE <= (
            #[trigger] w.responder_controls@[i]).command_tx.chan_id() < EVENT_CHAN_BASE
                && w.responder_controls@[i].event_rx.chan_id() >= EVENT_CHAN_BASE,
        forall|i: int|
            0 <= i < w.originator_controls@.len() ==> COMMAND_CHAN_BASE <= (
            #[trigger] w.originator_controls@[i]).command_tx.chan_id() < EVENT_CHAN_BASE
                && w.originator_controls@[i].event_rx.chan_id() >= EVENT_CHAN_BASE,
{
}

/// Distinct nodes own distinct data mailboxes: the mailbox channel number
/// determines the node id.
pub proof fn lemma_data_chan_injective(a: NodeId, b: NodeId)
    ensures
        data_chan(a) == data_chan(b) ==> a == b,
{
}

/// Looks the sender origin of node `id` up in the table of all allocated
/// data mailboxes.  A miss would be an internal-consistency violation of the
/// validator/builder pair; after validation it is proved unreachable.
#[verifier::loop_isolation(false)]
fn origin_for<'a>(origins: &'a Vec<(NodeId, TxHandle<DataMessage>)>, id: NodeId) -> (r:
    &'a TxHandle<DataMessage>)
    requires
        exists|i: int| 0 <= i < origins@.len() && (#[trigger] origins@[i]).0 == id,
        forall|i: int|
            0 <= i < origins@.len() ==> (#[trigger] origins@[i]).1.chan_id() as int == data_chan(
                origins@[i].0,
            ),
    ensures
        r.chan_id() as int == data_chan(id),
{
    let mut k: usize = 0;
    while k < origins.len()
        invariant
            k <= origins@.len(),
            forall|i: int| 0 <= i < k ==> (#[trigger] origins@[i]).0 != id,
        decreases origins@.len() - k,
    {
        if origins[k].0 == id {
            return &origins[k].1;
        }
        k += 1;
    }
    proof {
        let i = choose|i: int| 0 <= i < origins@.len() && (#[trigger] origins@[i]).0 == id;
        assert(false);
    }
    vstd::pervasive::unreached()
}

/// Builds the outbound send map of the node at combined position `j`: one
/// sending half per declared neighbor, in declaration order, each a
/// duplicate of that neighbor's single sender origin.
#[verifier::loop_isolation(false)]
fn build_send_map(
    t: &Topology,
    origins: &Vec<(NodeId, TxHandle<DataMessage>)>,
    own: NodeId,
    ns: &Vec<NodeId>,
    j: Ghost<int>,
) -> (sm: SendMap)
    requires
        t.symmetric(),
        origins@.len() == t.node_count(),
        forall|i: int| 0 <= i < t.node_count() ==> (#[trigger] origins@[i]).0 == t.id_seq()[i],
        forall|i: int|
            0 <= i < origins@.len() ==> (#[trigger] origins@[i]).1.chan_id() as int == data_chan(
                origins@[i].0,
            ),
        0 <= j@ < t.node_count(),
        t.id_seq()[j@] == own,
        t.neighbor_lists()[j@] == ns@,
    ensures
        send_map_wf(sm, ns@),
{
    let mut sm = SendMap::empty();
    let mut p: usize = 0;
    while p < ns.len()
        invariant
            p <= ns@.len(),
            sm@.len() == p,
            forall|q: int| 0 <= q < p ==> #[trigger] sm@[q] == (ns@[q], data_chan(ns@[q])),
        decreases ns@.len() - p,
    {
        let b = ns[p];
        proof {
            assert(t.lists(own, b)) by {
                assert(t.id_seq()[j@] == own && t.neighbor_lists()[j@].contains(b));
            }
            assert(t.declares(b));
            let jb = choose|jb: int| 0 <= jb < t.id_seq().len() && t.id_seq()[jb] == b;
            assert(origins@[jb].0 == b);
        }
        let tx = origin_for(origins, b);
        sm.push_entry(b, tx.duplicate());
        p += 1;
    }
    sm
}

/// Builds the units and supervisor-side control handles of one endpoint
/// role, consuming the receivers of the role's data mailboxes.
#[verifier::loop_isolation(false)]
fn build_endpoint_units(
    t: &Topology,
    origins: &Vec<(NodeId, TxHandle<DataMessage>)>,
    specs: &Vec<EndpointSpec>,
    rxs: Vec<RxHandle<DataMessage>>,
    base: Ghost<int>,
) -> (r: (Vec<EndpointUnit>, Vec<ControlHandle>))
    requires
        t.symmetric(),
        origins@.len() == t.node_count(),
        forall|i: int| 0 <= i < t.node_count() ==> (#[trigger] origins@[i]).0 == t.id_seq()[i],
        forall|i: int|
            0 <= i < origins@.len() ==> (#[trigger] origins@[i]).1.chan_id() as int == data_chan(
                origins@[i].0,
            ),
        0 <= base@,
        base@ + specs@.len() <= t.node_count(),
        forall|i: int|
            0 <= i < specs@.len() ==> t.id_seq()[base@ + i] == (#[trigger] specs@[i]).id
                && t.neighbor_lists()[base@ + i] == specs@[i].neighbors@,
        rxs@.len() == specs@.len(),
        forall|i: int|
            0 <= i < specs@.len() ==> (#[trigger] rxs@[i]).chan_id() as int == data_chan(
                specs@[i].id,
            ),
    ensures
        r.0@.len() == specs@.len(),
        forall|i: int|
            0 <= i < specs@.len() ==> endpoint_unit_wf(
                #[trigger] r.0@[i],
                specs@[i].id,
                specs@[i].neighbors@,
            ),
        r.1@.len() == specs@.len(),
        forall|i: int|
            0 <= i < specs@.len() ==> control_wf(#[trigger] r.1@[i], specs@[i].id),
{
    let mut rxs = rxs;
    let ghost full_rxs = rxs@;
    let mut units: Vec<EndpointUnit> = Vec::new();
    let mut controls: Vec<ControlHandle> = Vec::new();
    let mut k: usize = 0;
    while k < specs.len()
        invariant
            k <= specs@.len(),
            rxs@ == full_rxs.skip(k as int),
            units@.len() == k,
            controls@.len() == k,
            forall|i: int|
                0 <= i < k ==> endpoint_unit_wf(
                    #[trigger] units@[i],
                    specs@[i].id,
                    specs@[i].neighbors@,
                ),
            forall|i: int| 0 <= i < k ==> control_wf(#[trigger] controls@[i], specs@[i].id),
        decreases specs@.len() - k,
    {
        let e = &specs[k];
        let data_rx = rxs.remove(0);
        proof {
            assert(data_rx == full_rxs[k as int]);
            assert(rxs@ =~= full_rxs.skip(k as int + 1));
        }
        let sm = build_send_map(t, origins, e.id, &e.neighbors, Ghost(base@ + k as int));
        let (cmd_tx, cmd_rx) = make_channel::<Command>(COMMAND_CHAN_BASE + e.id as u64);
        let (ev_tx, ev_rx) = make_channel::<Event>(EVENT_CHAN_BASE + e.id as u64);
        units.push(
            EndpointUnit {
                id: e.id,
                data_rx,
                send_map: sm,
                command_rx: cmd_rx,
                event_tx: ev_tx,
            },
        );
        controls.push(ControlHandle { id: e.id, command_tx: cmd_tx, event_rx: ev_rx });
        k += 1;
    }
    (units, controls)
}

/// Turns a validated topology into a fully wired network: allocates every
/// node's data mailbox, duplicates each neighbor's sender origin into the
/// node's send map, and allocates one control pair per actor.
#[verifier::loop_isolation(false)]
pub fn build_wiring(t: &Topology) -> (w: Wiring)
    requires
        t.valid(),
    ensures
        w.wf(*t),
{
    let ghost nr = t.relays@.len() as int;
    let ghost nsp = t.responders@.len() as int;

    // Data-plane allocation: one mailbox per node, origins kept for lookup.
    let mut origins: Vec<(NodeId, TxHandle<DataMessage>)> = Vec::new();
    let mut relay_rxs: Vec<RxHandle<DataMessage>> = Vec::new();
    let mut responder_rxs: Vec<RxHandle<DataMessage>> = Vec::new();
    let mut originator_rxs: Vec<RxHandle<DataMessage>> = Vec::new();
    let mut k: usize = 0;
    while k < t.relays.len()
        invariant
            k <= t.relays@.len(),
            origins@.len() == k,
            relay_rxs@.len() == k,
            forall|i: int|
                0 <= i < k ==> (#[trigger] origins@[i]).0 == t.relays@[i].id
                    && origins@[i].1.chan_id() as int == data_chan(origins@[i].0),
            forall|i: int|
                0 <= i < k ==> (#[trigger] relay_rxs@[i]).chan_id() as int == data_chan(
                    t.relays@[i].id,
                ),
        decreases t.relays@.len() - k,
    {
        let id = t.relays[k].id;
        let (tx, rx) = make_channel::<DataMessage>(DATA_CHAN_BASE + id as u64);
        origins.push((id, tx));
        relay_rxs.push(rx);
        k += 1;
    }
    let mut k: usize = 0;
    while k < t.responders.len()
        invariant
            k <= t.responders@.len(),
            origins@.len() == nr + k,
            responder_rxs@.len() == k,
            forall|i: int|
                0 <= i < nr ==> (#[trigger] origins@[i]).0 == t.relays@[i].id
                    && origins@[i].1.chan_id() as int == data_chan(origins@[i].0),
            forall|i: int|
                0 <= i < k ==> (#[trigger] origins@[nr + i]).0 == t.responders@[i].id
                    && origins@[nr + i].1.chan_id() as int == data_chan(origins@[nr + i].0),
            forall|i: int|
                0 <= i < k ==> (#[trigger] responder_rxs@[i]).chan_id() as int == data_chan(
                    t.responders@[i].id,
                ),
        decreases t.responders@.len() - k,
    {
        let id = t.responders[k].id;
        let (tx, rx) = make_channel::<DataMessage>(DATA_CHAN_BASE + id as u64);
        origins.push((id, tx));
        responder_rxs.push(rx);
        k += 1;
    }
    let mut k: usize = 0;
    while k < t.originators.len()
        invariant
            k <= t.originators@.len(),
            origins@.len() == nr + nsp + k,
            originator_rxs@.len() == k,
            forall|i: int|
                0 <= i < nr ==> (#[trigger] origins@[i]).0 == t.relays@[i].id
                    && origins@[i].1.chan_id() as int == data_chan(origins@[i].0),
            forall|i: int|
                0 <= i < nsp ==> (#[trigger] origins@[nr + i]).0 == t.responders@[i].id
                    && origins@[nr + i].1.chan_id() as int == data_chan(origins@[nr + i].0),
            forall|i: int|
                0 <= i < k ==> (#[trigger] origins@[nr + nsp + i]).0 == t.originators@[i].id
                    && origins@[nr + nsp + i].1.chan_id() as int == data_chan(
                    origins@[nr + nsp + i].0,
                ),
            forall|i: int|
                0 <= i < k ==> (#[trigger] originator_rxs@[i]).chan_id() as int == data_chan(
                    t.originators@[i].id,
                ),
        decreases t.originators@.len() - k,
    {
        let id = t.originators[k].id;
        let (tx, rx) = make_channel::<DataMessage>(DATA_CHAN_BASE + id as u64);
        origins.push((id, tx));
        originator_rxs.push(rx);
        k += 1;
    }
    proof {
        assert forall|j: int| 0 <= j < t.node_count() implies (#[trigger] origins@[j]).0
            == t.id_seq()[j] by {
            if j < nr {
                lemma_relay_entry(*t, j);
            } else if j < nr + nsp {
                lemma_responder_entry(*t, j - nr);
            } else {
                lemma_originator_entry(*t, j - nr - nsp);
            }
        };
        assert forall|i: int| 0 <= i < t.relays@.len() implies t.id_seq()[i] == (
        #[trigger] t.relays@[i]).id && t.neighbor_lists()[i] == t.relays@[i].neighbors@ by {
            lemma_relay_entry(*t, i);
        };
        assert forall|i: int| 0 <= i < t.responders@.len() implies t.id_seq()[nr + i] == (
        #[trigger] t.responders@[i]).id && t.neighbor_lists()[nr + i]
            == t.responders@[i].neighbors@ by {
            lemma_responder_entry(*t, i);
        };
        assert forall|i: int| 0 <= i < t.originators@.len() implies t.id_seq()[nr + nsp + i] == (
        #[trigger] t.originators@[i]).id && t.neighbor_lists()[nr + nsp + i]
            == t.originators@[i].neighbors@ by {
            lemma_originator_entry(*t, i);
        };
    }

    // Relay units and their control pairs.
    let mut relay_rxs = relay_rxs;
    let ghost full_relay_rxs = relay_rxs@;
    let mut relay_units: Vec<RelayUnit> = Vec::new();
    let mut relay_controls: Vec<ControlHandle> = Vec::new();
    let mut k: usize = 0;
    while k < t.relays.len()
        invariant
            k <= t.relays@.len(),
            relay_rxs@ == full_relay_rxs.skip(k as int),
            relay_units@.len() == k,
            relay_controls@.len() == k,
            forall|i: int| 0 <= i < k ==> relay_unit_wf(*t, i, #[trigger] relay_units@[i]),
            forall|i: int|
                0 <= i < k ==> control_wf(#[trigger] relay_controls@[i], t.relays@[i].id),
        decreases t.relays@.len() - k,
    {
        let rel = &t.relays[k];
        let data_rx = relay_rxs.remove(0);
        proof {
            assert(data_rx == full_relay_rxs[k as int]);
            assert(relay_rxs@ =~= full_relay_rxs.skip(k as int + 1));
        }
        let sm = build_send_map(t, &origins, rel.id, &rel.neighbors, Ghost(k as int));
        let (cmd_tx, cmd_rx) = make_channel::<Command>(COMMAND_CHAN_BASE + rel.id as u64);
        let (ev_tx, ev_rx) = make_channel::<Event>(EVENT_CHAN_BASE + rel.id as u64);
        relay_units.push(
            RelayUnit {
                id: rel.id,
                drop_ppm: rel.drop_ppm,
                data_rx,
                send_map: sm,
                command_rx: cmd_rx,
                event_tx: ev_tx,
            },
        );
        relay_controls.push(ControlHandle { id: rel.id, command_tx: cmd_tx, event_rx: ev_rx });
        k += 1;
    }

    // Endpoint units and their control pairs.
    let (responder_units, responder_controls) = build_endpoint_units(
        t,
        &origins,
        &t.responders,
        responder_rxs,
        Ghost(nr),
    );
    let (originator_units, originator_controls) = build_endpoint_units(
        t,
        &origins,
        &t.originators,
        originator_rxs,
        Ghost(nr + nsp),
    );

    // The sender origins find their final owner: the supervisor's
    // node-sender map.
    let node_senders = SendMap { entries: origins };
    proof {
        assert(send_map_wf(node_senders, t.id_seq()));
    }

    Wiring {
        relays: relay_units,
        responders: responder_units,
        originators: originator_units,
        relay_controls,
        responder_controls,
        originator_controls,
        node_senders,
    }
}

} // verus!
