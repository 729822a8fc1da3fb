//! The declared topology: relay and endpoint specifications, and the graph
//! invariants a topology must satisfy before anything is wired or spawned.

use vstd::prelude::*;

verus! {

/// Identifier of a node.  Relays, originators, responders and the supervisor
/// share one id space.
pub type NodeId = u8;

/// Drop probabilities are fixed-point fractions: this value stands for
/// probability one, so a probability is in range iff it lies in
/// `[0, DROP_PROB_ONE]`.
pub const DROP_PROB_ONE: i64 = 1_000_000;

/// A declared relay: its id, its neighbor ids in declaration order, and its
/// drop probability in millionths.
pub struct RelaySpec {
    pub id: NodeId,
    pub neighbors: Vec<NodeId>,
    pub drop_ppm: i64,
}

/// A declared endpoint (originator or responder): its id and its neighbor
/// ids (relay ids) in declaration order.
pub struct EndpointSpec {
    pub id: NodeId,
    pub neighbors: Vec<NodeId>,
}

/// The full declared topology, in file order: relays, then responders, then
/// originators.
pub struct Topology {
    pub relays: Vec<RelaySpec>,
    pub responders: Vec<EndpointSpec>,
    pub originators: Vec<EndpointSpec>,
}

/// No two positions of `s` hold the same value.
pub open spec fn distinct_seq<T>(s: Seq<T>) -> bool {
    forall|i: int, j: int| 0 <= i < j < s.len() ==> s[i] != s[j]
}

/// A well-formed neighbor list never names the owning node and never names
/// the same neighbor twice.
pub open spec fn neighbor_list_wf(own: NodeId, ns: Seq<NodeId>) -> bool {
    !ns.contains(own) && distinct_seq(ns)
}

impl RelaySpec {
    pub open spec fn wf(self) -> bool {
        neighbor_list_wf(self.id, self.neighbors@) && 0 <= self.drop_ppm <= DROP_PROB_ONE
    }
}

impl EndpointSpec {
    /// A responder must be reachable through at least two relays.
    pub open spec fn responder_wf(self) -> bool {
        neighbor_list_wf(self.id, self.neighbors@) && self.neighbors@.len() >= 2
    }

    /// An originator is attached to one or two relays.
    pub open spec fn originator_wf(self) -> bool {
        neighbor_list_wf(self.id, self.neighbors@) && 1 <= self.neighbors@.len() <= 2
    }
}

impl Topology {
    /// All declared node ids, in declaration order: relays, then responders,
    /// then originators.
    pub open spec fn id_seq(self) -> Seq<NodeId> {
        self.relays@.map_values(|r: RelaySpec| r.id)
            + self.responders@.map_values(|e: EndpointSpec| e.id)
            + self.originators@.map_values(|e: EndpointSpec| e.id)
    }

    /// The declared neighbor lists, aligned with `id_seq`.
    pub open spec fn neighbor_lists(self) -> Seq<Seq<NodeId>> {
        self.relays@.map_values(|r: RelaySpec| r.neighbors@)
            + self.responders@.map_values(|e: EndpointSpec| e.neighbors@)
            + self.originators@.map_values(|e: EndpointSpec| e.neighbors@)
    }

    pub open spec fn node_count(self) -> int {
        self.id_seq().len() as int
    }

    /// Some node is declared under this id.
    pub open spec fn declares(self, id: NodeId) -> bool {
        self.id_seq().contains(id)
    }

    /// Some node declared under id `a` lists `b` among its neighbors.
    pub open spec fn lists(self, a: NodeId, b: NodeId) -> bool {
        exists|j: int|
            0 <= j < self.node_count() && #[trigger] self.id_seq()[j] == a
                && self.neighbor_lists()[j].contains(b)
    }

    pub open spec fn unique_ids(self) -> bool {
        distinct_seq(self.id_seq())
    }

    pub open spec fn relays_wf(self) -> bool {
        forall|i: int| 0 <= i < self.relays@.len() ==> (#[trigger] self.relays@[i]).wf()
    }

    pub open spec fn responders_wf(self) -> bool {
        forall|i: int|
            0 <= i < self.responders@.len() ==> (#[trigger] self.responders@[i]).responder_wf()
    }

    pub open spec fn originators_wf(self) -> bool {
        forall|i: int|
            0 <= i < self.originators@.len() ==> (#[trigger] self.originators@[i]).originator_wf()
    }

    /// Every declared edge resolves to a declared node and is declared from
    /// both of its ends.
    pub open spec fn symmetric(self) -> bool {
        forall|a: NodeId, b: NodeId|
            #[trigger] self.lists(a, b) ==> self.declares(b) && self.lists(b, a)
    }

    /// The graph invariants a topology must satisfy before it is wired:
    /// unique ids everywhere, well-formed relays, responders and originators,
    /// and global edge symmetry.
    pub open spec fn valid(self) -> bool {
        &&& self.unique_ids()
        &&& self.relays_wf()
        &&& self.responders_wf()
        &&& self.originators_wf()
        &&& self.symmetric()
    }
}

/// The relay declared at position `i` owns position `i` of the combined
/// declaration order.
pub proof fn lemma_relay_entry(t: Topology, i: int)
    requires
        0 <= i < t.relays@.len(),
    ensures
        0 <= i < t.node_count(),
        t.id_seq()[i] == t.relays@[i].id,
        t.neighbor_lists()[i] == t.relays@[i].neighbors@,
        t.declares(t.relays@[i].id),
{
    assert(t.id_seq()[i] == t.relays@[i].id);
    assert(t.declares(t.relays@[i].id)) by {
        assert(t.id_seq()[i] == t.relays@[i].id);
    }
}

/// The responder declared at position `i` follows all relays in the combined
/// declaration order.
pub proof fn lemma_responder_entry(t: Topology, i: int)
    requires
        0 <= i < t.responders@.len(),
    ensures
        0 <= t.relays@.len() + i < t.node_count(),
        t.id_seq()[t.relays@.len() + i] == t.responders@[i].id,
        t.neighbor_lists()[t.relays@.len() + i] == t.responders@[i].neighbors@,
        t.declares(t.responders@[i].id),
{
    let j = t.relays@.len() + i;
    assert(t.id_seq()[j] == t.responders@[i].id);
    assert(t.declares(t.responders@[i].id)) by {
        assert(t.id_seq()[j] == t.responders@[i].id);
    }
}

/// The originator declared at position `i` follows all relays and responders
/// in the combined declaration order.
pub proof fn lemma_originator_entry(t: Topology, i: int)
    requires
        0 <= i < t.originators@.len(),
    ensures
        0 <= t.relays@.len() + t.responders@.len() + i < t.node_count(),
        t.id_seq()[t.relays@.len() + t.responders@.len() + i] == t.originators@[i].id,
        t.neighbor_lists()[t.relays@.len() + t.responders@.len() + i] == t.originators@[i].neighbors@,
        t.declares(t.originators@[i].id),
{
    let j = t.relays@.len() + t.responders@.len() + i;
    assert(t.id_seq()[j] == t.originators@[i].id);
    assert(t.declares(t.originators@[i].id)) by {
        assert(t.id_seq()[j] == t.originators@[i].id);
    }
}

/// A declared id belongs to a relay, a responder or an originator.
pub proof fn lemma_declares_role(t: Topology, id: NodeId)
    requires
        t.declares(id),
    ensures
        (exists|i: int| 0 <= i < t.relays@.len() && (#[trigger] t.relays@[i]).id == id)
            || (exists|i: int| 0 <= i < t.responders@.len() && (#[trigger] t.responders@[i]).id == id)
            || (exists|i: int|
            0 <= i < t.originators@.len() && (#[trigger] t.originators@[i]).id == id),
{
    let j = choose|j: int| 0 <= j < t.id_seq().len() && t.id_seq()[j] == id;
    let nr = t.relays@.len() as int;
    let ns = t.responders@.len() as int;
    if j < nr {
        assert(t.relays@[j].id == id);
    } else if j < nr + ns {
        assert(t.responders@[j - nr].id == id);
    } else {
        assert(t.originators@[j - nr - ns].id == id);
    }
}

} // verus!
