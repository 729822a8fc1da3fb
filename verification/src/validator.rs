//! The topology validator: a fixed, ordered sequence of checks that rejects
//! a malformed topology with the first violation found.

use vstd::prelude::*;

use crate::topology::{
    distinct_seq, neighbor_list_wf, EndpointSpec, NodeId, RelaySpec, Topology, DROP_PROB_ONE,
};
use crate::topology::{
    lemma_declares_role, lemma_originator_entry, lemma_relay_entry, lemma_responder_entry,
};

verus! {

/// The first violation a malformed topology is rejected with.  Each variant
/// carries the offending node id(s).
#[derive(Clone, Copy, Debug, PartialEq, Eq, Structural)]
pub enum ValidationError {
    /// Two nodes were declared under the same id.
    DuplicateId { id: NodeId },
    /// A node lists itself among its neighbors.
    SelfReference { id: NodeId },
    /// A node lists the same neighbor twice.
    DuplicateNeighbor { id: NodeId, neighbor: NodeId },
    /// A relay's drop probability lies outside `[0, DROP_PROB_ONE]`.
    DropProbabilityOutOfRange { id: NodeId },
    /// A responder has fewer than two neighbors, or an originator has none or
    /// more than two.
    DegreeViolation { id: NodeId },
    /// A node lists a neighbor that no declaration resolves.
    DanglingReference { from: NodeId, to: NodeId },
    /// A node lists a declared neighbor that does not list it back.
    AsymmetricEdge { from: NodeId, to: NodeId },
}

/// `x` occurs at two distinct positions of `ns`.
pub open spec fn repeated_in(ns: Seq<NodeId>, x: NodeId) -> bool {
    exists|p: int, q: int| 0 <= p < q < ns.len() && #[trigger] ns[p] == x && #[trigger] ns[q] == x
}

impl ValidationError {
    /// The fact about the topology that each reported error testifies to.
    pub open spec fn witnessed_by(self, t: Topology) -> bool {
        match self {
            ValidationError::DuplicateId { id } => exists|i: int, j: int|
                0 <= i < j < t.node_count() && #[trigger] t.id_seq()[i] == id
                    && #[trigger] t.id_seq()[j] == id,
            ValidationError::SelfReference { id } => t.lists(id, id),
            ValidationError::DuplicateNeighbor { id, neighbor } => exists|j: int|
                0 <= j < t.node_count() && #[trigger] t.id_seq()[j] == id
                    && repeated_in(t.neighbor_lists()[j], neighbor),
            ValidationError::DropProbabilityOutOfRange { id } => exists|i: int|
                0 <= i < t.relays@.len() && (#[trigger] t.relays@[i]).id == id
                    && !(0 <= t.relays@[i].drop_ppm <= DROP_PROB_ONE),
            ValidationError::DegreeViolation { id } => (exists|i: int|
                0 <= i < t.responders@.len() && (#[trigger] t.responders@[i]).id == id
                    && t.responders@[i].neighbors@.len() < 2) || (exists|i: int|
                0 <= i < t.originators@.len() && (#[trigger] t.originators@[i]).id == id
                    && !(1 <= t.originators@[i].neighbors@.len() <= 2)),
            ValidationError::DanglingReference { from, to } => t.lists(from, to) && !t.declares(
                to,
            ),
            ValidationError::AsymmetricEdge { from, to } => t.lists(from, to) && t.declares(to)
                && !t.lists(to, from),
        }
    }
}

/// Position `q` holds the first repeated value of `s`: everything before it
/// is pairwise distinct, and the value at `q` already occurred.
pub open spec fn first_repeat_at(s: Seq<NodeId>, q: int) -> bool {
    &&& 0 <= q < s.len()
    &&& forall|i: int, j: int| 0 <= i < j < q ==> s[i] != s[j]
    &&& exists|p: int| 0 <= p < q && #[trigger] s[p] == s[q]
}

/// Position `q` holds the first offense of a neighbor list in check order:
/// every earlier entry is neither the owner nor a repeat, and the entry at
/// `q` is one of the two.
pub open spec fn first_list_offense_at(own: NodeId, ns: Seq<NodeId>, q: int) -> bool {
    &&& 0 <= q < ns.len()
    &&& forall|i: int| 0 <= i < q ==> ns[i] != own
    &&& forall|i: int, j: int| 0 <= i < j < q ==> ns[i] != ns[j]
    &&& (ns[q] == own || exists|p: int| 0 <= p < q && #[trigger] ns[p] == ns[q])
}

/// The neighbor list holds an offense somewhere.
pub open spec fn has_list_offense(own: NodeId, ns: Seq<NodeId>) -> bool {
    exists|q: int| first_list_offense_at(own, ns, q)
}

/// `e` reports the earliest offense of the neighbor list: a self-reference
/// at its own index, else the repeated entry met first.
pub open spec fn list_first_error(own: NodeId, ns: Seq<NodeId>, e: ValidationError) -> bool {
    exists|q: int| #[trigger] first_list_offense_at(own, ns, q) && e == (if ns[q] == own {
        ValidationError::SelfReference { id: own }
    } else {
        ValidationError::DuplicateNeighbor { id: own, neighbor: ns[q] }
    })
}

/// The first violation of one relay in check order: the earliest
/// neighbor-list offense decides; only a relay with a clean list is reported
/// for its drop probability.
pub open spec fn relay_first_error(rel: RelaySpec, e: ValidationError) -> bool {
    if has_list_offense(rel.id, rel.neighbors@) {
        list_first_error(rel.id, rel.neighbors@, e)
    } else {
        !(0 <= rel.drop_ppm <= DROP_PROB_ONE) && e == (
        ValidationError::DropProbabilityOutOfRange { id: rel.id })
    }
}

/// The first violation of one responder in check order: the earliest
/// neighbor-list offense decides; only a responder with a clean list is
/// reported for its degree.
pub open spec fn responder_first_error(sp: EndpointSpec, e: ValidationError) -> bool {
    if has_list_offense(sp.id, sp.neighbors@) {
        list_first_error(sp.id, sp.neighbors@, e)
    } else {
        sp.neighbors@.len() < 2 && e == (ValidationError::DegreeViolation { id: sp.id })
    }
}

/// The first violation of one originator in check order: the earliest
/// neighbor-list offense decides; only an originator with a clean list is
/// reported for its degree.
pub open spec fn originator_first_error(sp: EndpointSpec, e: ValidationError) -> bool {
    if has_list_offense(sp.id, sp.neighbors@) {
        list_first_error(sp.id, sp.neighbors@, e)
    } else {
        !(1 <= sp.neighbors@.len() <= 2) && e == (ValidationError::DegreeViolation { id: sp.id })
    }
}

/// The relay check reports the first offending relay in declaration order,
/// at its first offense.
pub open spec fn relays_first_error(t: Topology, e: ValidationError) -> bool {
    exists|i: int|
        0 <= i < t.relays@.len() && (forall|j: int| 0 <= j < i ==> (#[trigger] t.relays@[j]).wf())
            && #[trigger] relay_first_error(t.relays@[i], e)
}

/// The responder check reports the first offending responder in declaration
/// order, at its first offense.
pub open spec fn responders_first_error(t: Topology, e: ValidationError) -> bool {
    exists|i: int|
        0 <= i < t.responders@.len() && (forall|j: int|
            0 <= j < i ==> (#[trigger] t.responders@[j]).responder_wf())
            && #[trigger] responder_first_error(t.responders@[i], e)
}

/// The originator check reports the first offending originator in
/// declaration order, at its first offense.
pub open spec fn originators_first_error(t: Topology, e: ValidationError) -> bool {
    exists|i: int|
        0 <= i < t.originators@.len() && (forall|j: int|
            0 <= j < i ==> (#[trigger] t.originators@[j]).originator_wf())
            && #[trigger] originator_first_error(t.originators@[i], e)
}

/// The neighbor at position `q` of the node at combined position `j` is an
/// unresolved or one-sided edge.
pub open spec fn edge_offense_at(t: Topology, j: int, q: int) -> bool {
    !t.declares(t.neighbor_lists()[j][q]) || !t.lists(t.neighbor_lists()[j][q], t.id_seq()[j])
}

/// The first edge offense of the node at combined position `j` decides the
/// error: a dangling reference when the neighbor is undeclared, else a
/// one-sided edge, reported with both endpoints.
pub open spec fn node_edge_first_error(t: Topology, j: int, e: ValidationError) -> bool {
    exists|q: int|
        {
            &&& 0 <= q < t.neighbor_lists()[j].len()
            &&& forall|i: int| 0 <= i < q ==> !#[trigger] edge_offense_at(t, j, i)
            &&& #[trigger] edge_offense_at(t, j, q)
            &&& e == (if !t.declares(t.neighbor_lists()[j][q]) {
                ValidationError::DanglingReference {
                    from: t.id_seq()[j],
                    to: t.neighbor_lists()[j][q],
                }
            } else {
                ValidationError::AsymmetricEdge {
                    from: t.id_seq()[j],
                    to: t.neighbor_lists()[j][q],
                }
            })
        }
}

/// The connection check reports the first node in combined declaration order
/// that declares an unresolved or one-sided edge, at its first such edge.
pub open spec fn connections_first_error(t: Topology, e: ValidationError) -> bool {
    exists|j: int|
        0 <= j < t.node_count() && (forall|jj: int| 0 <= jj < j ==> #[trigger] node_symmetric(
            t,
            jj,
        )) && #[trigger] node_edge_first_error(t, j, e)
}

/// The single error a malformed topology is rejected with: produced by the
/// earliest failing check in the fixed order — id uniqueness, relay
/// well-formedness, responder well-formedness, originator well-formedness,
/// then symmetry and referential integrity — at that check's first offense
/// in scan order.
pub open spec fn first_validation_error(t: Topology, e: ValidationError) -> bool {
    if !t.unique_ids() {
        exists|q: int| #[trigger] first_repeat_at(t.id_seq(), q) && e == (
        ValidationError::DuplicateId { id: t.id_seq()[q] })
    } else if !t.relays_wf() {
        relays_first_error(t, e)
    } else if !t.responders_wf() {
        responders_first_error(t, e)
    } else if !t.originators_wf() {
        originators_first_error(t, e)
    } else {
        connections_first_error(t, e)
    }
}

/// A well-formed neighbor list holds no offense.
proof fn lemma_wf_no_offense(own: NodeId, ns: Seq<NodeId>)
    requires
        neighbor_list_wf(own, ns),
    ensures
        !has_list_offense(own, ns),
{
    if has_list_offense(own, ns) {
        let q = choose|q: int| first_list_offense_at(own, ns, q);
        if ns[q] == own {
            assert(ns.contains(own));
        } else {
            let p = choose|p: int| 0 <= p < q && #[trigger] ns[p] == ns[q];
            assert(false);
        }
    }
}

/// The earliest neighbor-list offense, reported as the original value,
/// names the error completely.
proof fn lemma_offense_error(own: NodeId, ns: Seq<NodeId>, x: NodeId, e: ValidationError)
    requires
        exists|q: int| #[trigger] first_list_offense_at(own, ns, q) && x == ns[q],
        e == (if x == own {
            ValidationError::SelfReference { id: own }
        } else {
            ValidationError::DuplicateNeighbor { id: own, neighbor: x }
        }),
    ensures
        has_list_offense(own, ns),
        list_first_error(own, ns, e),
{
    let q = choose|q: int| #[trigger] first_list_offense_at(own, ns, q) && x == ns[q];
    if ns[q] == own {
        assert(x == own);
    } else {
        assert(x != own);
    }
}

/// The first-repeat position of a sequence is unique, so the reported
/// duplicate id is fully determined by the sequence.
pub proof fn lemma_first_repeat_unique(s: Seq<NodeId>, q1: int, q2: int)
    requires
        first_repeat_at(s, q1),
        first_repeat_at(s, q2),
    ensures
        q1 == q2,
{
}

/// The first-offense position of a neighbor list is unique, so the reported
/// offense is fully determined by the owner and the list.
pub proof fn lemma_first_list_offense_unique(own: NodeId, ns: Seq<NodeId>, q1: int, q2: int)
    requires
        first_list_offense_at(own, ns, q1),
        first_list_offense_at(own, ns, q2),
    ensures
        q1 == q2,
{
}

/// Whether `x` occurs in `v`.
pub fn contains_id(v: &Vec<NodeId>, x: NodeId) -> (r: bool)
    ensures
        r == v@.contains(x),
{
    let mut k: usize = 0;
    while k < v.len()
        invariant
            k <= v.len(),
            forall|i: int| 0 <= i < k ==> v@[i] != x,
        decreases v.len() - k,
    {
        if v[k] == x {
            return true;
        }
        k += 1;
    }
    false
}

/// Scans for the first value that repeats an earlier one: the reported value
/// sits at the earliest position that repeats anything.
fn first_duplicate(v: &Vec<NodeId>) -> (r: Option<NodeId>)
    ensures
        r is None <==> distinct_seq(v@),
        r matches Some(x) ==> exists|p: int, q: int|
            0 <= p < q < v@.len() && #[trigger] v@[p] == x && #[trigger] v@[q] == x,
        r matches Some(x) ==> exists|q: int| #[trigger] first_repeat_at(v@, q) && x == v@[q],
{
    let mut k: usize = 0;
    while k < v.len()
        invariant
            k <= v.len(),
            forall|i: int, j: int| 0 <= i < j < k ==> v@[i] != v@[j],
        decreases v.len() - k,
    {
        let c = v[k];
        let mut p: usize = 0;
        while p < k
            invariant
                p <= k < v.len(),
                c == v@[k as int],
                forall|i: int, j: int| 0 <= i < j < k ==> v@[i] != v@[j],
                forall|i: int| 0 <= i < p ==> v@[i] != c,
            decreases k - p,
        {
            if v[p] == c {
                proof {
                    assert(first_repeat_at(v@, k as int)) by {
                        assert(v@[p as int] == v@[k as int]);
                    }
                }
                return Some(c);
            }
            p += 1;
        }
        k += 1;
    }
    None
}

/// Rejects a neighbor list that names its owner, or that names any neighbor
/// twice; a self-reference is reported before a repetition.
fn check_neighbor_list(own: NodeId, ns: &Vec<NodeId>) -> (r: Result<(), NodeId>)
    ensures
        r is Ok <==> neighbor_list_wf(own, ns@),
        r matches Err(x) ==> (x == own && ns@.contains(own)) || (x != own && repeated_in(ns@, x)),
        r matches Err(x) ==> exists|q: int| #[trigger] first_list_offense_at(own, ns@, q) && x
            == ns@[q],
{
    let mut k: usize = 0;
    while k < ns.len()
        invariant
            k <= ns.len(),
            forall|i: int| 0 <= i < k ==> ns@[i] != own,
            forall|i: int, j: int| 0 <= i < j < k ==> ns@[i] != ns@[j],
        decreases ns.len() - k,
    {
        let c = ns[k];
        if c == own {
            proof {
                assert(first_list_offense_at(own, ns@, k as int));
            }
            return Err(own);
        }
        let mut p: usize = 0;
        while p < k
            invariant
                p <= k < ns.len(),
                c == ns@[k as int],
                c != own,
                forall|i: int| 0 <= i < k ==> ns@[i] != own,
                forall|i: int, j: int| 0 <= i < j < k ==> ns@[i] != ns@[j],
                forall|i: int| 0 <= i < p ==> ns@[i] != c,
            decreases k - p,
        {
            if ns[p] == c {
                proof {
                    assert(first_list_offense_at(own, ns@, k as int)) by {
                        assert(ns@[p as int] == ns@[k as int]);
                    }
                }
                return Err(c);
            }
            p += 1;
        }
        k += 1;
    }
    Ok(())
}

/// Every id across all roles is distinct; the first repeated id is reported.
fn check_unique_ids(t: &Topology) -> (r: Result<(), ValidationError>)
    ensures
        r is Ok <==> t.unique_ids(),
        r matches Err(e) ==> e.witnessed_by(*t) && e is DuplicateId,
        r matches Err(e) ==> exists|q: int| #[trigger] first_repeat_at(t.id_seq(), q) && e == (
        ValidationError::DuplicateId { id: t.id_seq()[q] }),
{
    let mut ids: Vec<NodeId> = Vec::new();
    let mut k: usize = 0;
    while k < t.relays.len()
        invariant
            k <= t.relays.len(),
            ids@.len() == k,
            forall|i: int| 0 <= i < k ==> ids@[i] == (#[trigger] t.relays@[i]).id,
        decreases t.relays.len() - k,
    {
        ids.push(t.relays[k].id);
        k += 1;
    }
    let mut k: usize = 0;
    while k < t.responders.len()
        invariant
            k <= t.responders.len(),
            ids@.len() == t.relays@.len() + k,
            forall|i: int| 0 <= i < t.relays@.len() ==> ids@[i] == (#[trigger] t.relays@[i]).id,
            forall|i: int|
                0 <= i < k ==> ids@[t.relays@.len() + i] == (#[trigger] t.responders@[i]).id,
        decreases t.responders.len() - k,
    {
        ids.push(t.responders[k].id);
        k += 1;
    }
    let mut k: usize = 0;
    while k < t.originators.len()
        invariant
            k <= t.originators.len(),
            ids@.len() == t.relays@.len() + t.responders@.len() + k,
            forall|i: int| 0 <= i < t.relays@.len() ==> ids@[i] == (#[trigger] t.relays@[i]).id,
            forall|i: int|
                0 <= i < t.responders@.len() ==> ids@[t.relays@.len() + i] == (
                #[trigger] t.responders@[i]).id,
            forall|i: int|
                0 <= i < k ==> ids@[t.relays@.len() + t.responders@.len() + i] == (
                #[trigger] t.originators@[i]).id,
        decreases t.originators.len() - k,
    {
        ids.push(t.originators[k].id);
        k += 1;
    }
    proof {
        assert(ids@ =~= t.id_seq());
    }
    match first_duplicate(&ids) {
        None => Ok(()),
        Some(x) => Err(ValidationError::DuplicateId { id: x }),
    }
}

/// Every relay has a well-formed neighbor list and a drop probability in
/// range.
fn check_relays(t: &Topology) -> (r: Result<(), ValidationError>)
    ensures
        r is Ok <==> t.relays_wf(),
        r matches Err(e) ==> e.witnessed_by(*t) && (e is SelfReference || e is DuplicateNeighbor
            || e is DropProbabilityOutOfRange),
        r matches Err(e) ==> relays_first_error(*t, e),
{
    let mut k: usize = 0;
    while k < t.relays.len()
        invariant
            k <= t.relays.len(),
            forall|i: int| 0 <= i < k ==> (#[trigger] t.relays@[i]).wf(),
        decreases t.relays.len() - k,
    {
        let rel = &t.relays[k];
        proof {
            lemma_relay_entry(*t, k as int);
        }
        if let Err(x) = check_neighbor_list(rel.id, &rel.neighbors) {
            if x == rel.id {
                proof {
                    assert(t.id_seq()[k as int] == rel.id && t.neighbor_lists()[k as int].contains(
                        rel.id,
                    ));
                    lemma_offense_error(
                        rel.id,
                        rel.neighbors@,
                        x,
                        ValidationError::SelfReference { id: rel.id },
                    );
                    assert(relay_first_error(
                        t.relays@[k as int],
                        ValidationError::SelfReference { id: rel.id },
                    ));
                }
                return Err(ValidationError::SelfReference { id: rel.id });
            } else {
                proof {
                    assert(t.id_seq()[k as int] == rel.id && repeated_in(
                        t.neighbor_lists()[k as int],
                        x,
                    ));
                    lemma_offense_error(
                        rel.id,
                        rel.neighbors@,
                        x,
                        ValidationError::DuplicateNeighbor { id: rel.id, neighbor: x },
                    );
                    assert(relay_first_error(
                        t.relays@[k as int],
                        ValidationError::DuplicateNeighbor { id: rel.id, neighbor: x },
                    ));
                }
                return Err(ValidationError::DuplicateNeighbor { id: rel.id, neighbor: x });
            }
        }
        if rel.drop_ppm < 0 || rel.drop_ppm > DROP_PROB_ONE {
            proof {
                lemma_wf_no_offense(rel.id, rel.neighbors@);
                assert(relay_first_error(
                    t.relays@[k as int],
                    ValidationError::DropProbabilityOutOfRange { id: rel.id },
                ));
            }
            return Err(ValidationError::DropProbabilityOutOfRange { id: rel.id });
        }
        k += 1;
    }
    Ok(())
}

/// Every responder has a well-formed neighbor list and at least two
/// neighbors.
fn check_responders(t: &Topology) -> (r: Result<(), ValidationError>)
    ensures
        r is Ok <==> t.responders_wf(),
        r matches Err(e) ==> e.witnessed_by(*t) && (e is SelfReference || e is DuplicateNeighbor
            || e is DegreeViolation),
        r matches Err(e) ==> responders_first_error(*t, e),
{
    let mut k: usize = 0;
    while k < t.responders.len()
        invariant
            k <= t.responders.len(),
            forall|i: int| 0 <= i < k ==> (#[trigger] t.responders@[i]).responder_wf(),
        decreases t.responders.len() - k,
    {
        let e = &t.responders[k];
        proof {
            lemma_responder_entry(*t, k as int);
        }
        let ghost j = t.relays@.len() + k as int;
        if let Err(x) = check_neighbor_list(e.id, &e.neighbors) {
            if x == e.id {
                proof {
                    assert(t.id_seq()[j] == e.id && t.neighbor_lists()[j].contains(e.id));
                    lemma_offense_error(
                        e.id,
                        e.neighbors@,
                        x,
                        ValidationError::SelfReference { id: e.id },
                    );
                    assert(responder_first_error(
                        t.responders@[k as int],
                        ValidationError::SelfReference { id: e.id },
                    ));
                }
                return Err(ValidationError::SelfReference { id: e.id });
            } else {
                proof {
                    assert(t.id_seq()[j] == e.id && repeated_in(t.neighbor_lists()[j], x));
                    lemma_offense_error(
                        e.id,
                        e.neighbors@,
                        x,
                        ValidationError::DuplicateNeighbor { id: e.id, neighbor: x },
                    );
                    assert(responder_first_error(
                        t.responders@[k as int],
                        ValidationError::DuplicateNeighbor { id: e.id, neighbor: x },
                    ));
                }
                return Err(ValidationError::DuplicateNeighbor { id: e.id, neighbor: x });
            }
        }
        if e.neighbors.len() < 2 {
            proof {
                lemma_wf_no_offense(e.id, e.neighbors@);
                assert(responder_first_error(
                    t.responders@[k as int],
                    ValidationError::DegreeViolation { id: e.id },
                ));
            }
            return Err(ValidationError::DegreeViolation { id: e.id });
        }
        k += 1;
    }
    Ok(())
}

/// Every originator has a well-formed neighbor list and one or two
/// neighbors.
fn check_originators(t: &Topology) -> (r: Result<(), ValidationError>)
    ensures
        r is Ok <==> t.originators_wf(),
        r matches Err(e) ==> e.witnessed_by(*t) && (e is SelfReference || e is DuplicateNeighbor
            || e is DegreeViolation),
        r matches Err(e) ==> originators_first_error(*t, e),
{
    let mut k: usize = 0;
    while k < t.originators.len()
        invariant
            k <= t.originators.len(),
            forall|i: int| 0 <= i < k ==> (#[trigger] t.originators@[i]).originator_wf(),
        decreases t.originators.len() - k,
    {
        let e = &t.originators[k];
        proof {
            lemma_originator_entry(*t, k as int);
        }
        let ghost j = t.relays@.len() + t.responders@.len() + k as int;
        if let Err(x) = check_neighbor_list(e.id, &e.neighbors) {
            if x == e.id {
                proof {
                    assert(t.id_seq()[j] == e.id && t.neighbor_lists()[j].contains(e.id));
                    lemma_offense_error(
                        e.id,
                        e.neighbors@,
                        x,
                        ValidationError::SelfReference { id: e.id },
                    );
                    assert(originator_first_error(
                        t.originators@[k as int],
                        ValidationError::SelfReference { id: e.id },
                    ));
                }
                return Err(ValidationError::SelfReference { id: e.id });
            } else {
                proof {
                    assert(t.id_seq()[j] == e.id && repeated_in(t.neighbor_lists()[j], x));
                    lemma_offense_error(
                        e.id,
                        e.neighbors@,
                        x,
                        ValidationError::DuplicateNeighbor { id: e.id, neighbor: x },
                    );
                    assert(originator_first_error(
                        t.originators@[k as int],
                        ValidationError::DuplicateNeighbor { id: e.id, neighbor: x },
                    ));
                }
                return Err(ValidationError::DuplicateNeighbor { id: e.id, neighbor: x });
            }
        }
        if e.neighbors.is_empty() || e.neighbors.len() > 2 {
            proof {
                lemma_wf_no_offense(e.id, e.neighbors@);
                assert(originator_first_error(
                    t.originators@[k as int],
                    ValidationError::DegreeViolation { id: e.id },
                ));
            }
            return Err(ValidationError::DegreeViolation { id: e.id });
        }
        k += 1;
    }
    Ok(())
}

/// Every neighbor the node at combined position `j` declares resolves to a
/// declared node that lists it back.
pub open spec fn node_symmetric(t: Topology, j: int) -> bool {
    forall|b: NodeId| #[trigger]
        t.neighbor_lists()[j].contains(b) ==> t.declares(b) && t.lists(b, t.id_seq()[j])
}

/// Edge symmetry of the whole topology follows from edge symmetry at every
/// declared node.
proof fn lemma_symmetric_from_nodes(t: Topology)
    requires
        forall|j: int| 0 <= j < t.node_count() ==> node_symmetric(t, j),
    ensures
        t.symmetric(),
{
    assert forall|a: NodeId, b: NodeId| #[trigger] t.lists(a, b) implies t.declares(b) && t.lists(
        b,
        a,
    ) by {
        let j = choose|j: int|
            0 <= j < t.node_count() && #[trigger] t.id_seq()[j] == a
                && t.neighbor_lists()[j].contains(b);
        assert(node_symmetric(t, j));
        assert(t.neighbor_lists()[j].contains(b));
    };
}

/// A node that declares an unresolved or one-sided edge refutes edge
/// symmetry of the whole topology.
proof fn lemma_not_symmetric_from_node(t: Topology, j: int)
    requires
        0 <= j < t.node_count(),
        !node_symmetric(t, j),
    ensures
        !t.symmetric(),
{
    let b = choose|b: NodeId| #[trigger]
        t.neighbor_lists()[j].contains(b) && !(t.declares(b) && t.lists(b, t.id_seq()[j]));
    assert(t.lists(t.id_seq()[j], b)) by {
        assert(t.id_seq()[j] == t.id_seq()[j] && t.neighbor_lists()[j].contains(b));
    }
}

/// Looks the declared neighbor list of `id` up, scanning relays, then
/// responders, then originators.
fn find_neighbors<'a>(t: &'a Topology, id: NodeId) -> (r: Option<&'a Vec<NodeId>>)
    ensures
        match r {
            Some(ns) => exists|j: int|
                0 <= j < t.node_count() && #[trigger] t.id_seq()[j] == id
                    && t.neighbor_lists()[j] == ns@,
            None => !t.declares(id),
        },
{
    let mut k: usize = 0;
    while k < t.relays.len()
        invariant
            k <= t.relays.len(),
            forall|i: int| 0 <= i < k ==> (#[trigger] t.relays@[i]).id != id,
        decreases t.relays.len() - k,
    {
        if t.relays[k].id == id {
            proof {
                lemma_relay_entry(*t, k as int);
            }
            return Some(&t.relays[k].neighbors);
        }
        k += 1;
    }
    let mut k: usize = 0;
    while k < t.responders.len()
        invariant
            k <= t.responders.len(),
            forall|i: int| 0 <= i < t.relays@.len() ==> (#[trigger] t.relays@[i]).id != id,
            forall|i: int| 0 <= i < k ==> (#[trigger] t.responders@[i]).id != id,
        decreases t.responders.len() - k,
    {
        if t.responders[k].id == id {
            proof {
                lemma_responder_entry(*t, k as int);
            }
            return Some(&t.responders[k].neighbors);
        }
        k += 1;
    }
    let mut k: usize = 0;
    while k < t.originators.len()
        invariant
            k <= t.originators.len(),
            forall|i: int| 0 <= i < t.relays@.len() ==> (#[trigger] t.relays@[i]).id != id,
            forall|i: int| 0 <= i < t.responders@.len() ==> (#[trigger] t.responders@[i]).id != id,
            forall|i: int| 0 <= i < k ==> (#[trigger] t.originators@[i]).id != id,
        decreases t.originators.len() - k,
    {
        if t.originators[k].id == id {
            proof {
                lemma_originator_entry(*t, k as int);
            }
            return Some(&t.originators[k].neighbors);
        }
        k += 1;
    }
    proof {
        if t.declares(id) {
            lemma_declares_role(*t, id);
        }
    }
    None
}

/// Checks that every neighbor the node at combined position `j` declares is
/// itself declared and lists the node back.
fn check_symmetry_for(
    t: &Topology,
    own: NodeId,
    ns: &Vec<NodeId>,
    j: Ghost<int>,
) -> (r: Result<(), ValidationError>)
    requires
        t.unique_ids(),
        0 <= j@ < t.node_count(),
        t.id_seq()[j@] == own,
        t.neighbor_lists()[j@] == ns@,
    ensures
        r is Ok <==> node_symmetric(*t, j@),
        r matches Err(e) ==> e.witnessed_by(*t) && (e is DanglingReference || e is AsymmetricEdge),
        r matches Err(e) ==> node_edge_first_error(*t, j@, e),
{
    let mut k: usize = 0;
    while k < ns.len()
        invariant
            k <= ns.len(),
            t.unique_ids(),
            0 <= j@ < t.node_count(),
            t.id_seq()[j@] == own,
            t.neighbor_lists()[j@] == ns@,
            forall|i: int|
                0 <= i < k ==> t.declares(#[trigger] ns@[i]) && t.lists(ns@[i], own),
        decreases ns.len() - k,
    {
        let b = ns[k];
        proof {
            assert(t.lists(own, b)) by {
                assert(t.id_seq()[j@] == own && t.neighbor_lists()[j@].contains(b));
            }
        }
        match find_neighbors(t, b) {
            None => {
                proof {
                    assert(!node_symmetric(*t, j@)) by {
                        assert(t.neighbor_lists()[j@].contains(b));
                    }
                    assert forall|i: int| 0 <= i < k implies !#[trigger] edge_offense_at(
                        *t,
                        j@,
                        i,
                    ) by {
                        assert(t.neighbor_lists()[j@][i] == ns@[i]);
                    };
                    assert(edge_offense_at(*t, j@, k as int));
                    assert(node_edge_first_error(
                        *t,
                        j@,
                        ValidationError::DanglingReference { from: own, to: b },
                    ));
                }
                return Err(ValidationError::DanglingReference { from: own, to: b });
            },
            Some(ms) => {
                let ghost j2 = choose|j2: int|
                    0 <= j2 < t.node_count() && #[trigger] t.id_seq()[j2] == b
                        && t.neighbor_lists()[j2] == ms@;
                proof {
                    assert(t.declares(b)) by {
                        assert(t.id_seq()[j2] == b);
                    }
                }
                if !contains_id(ms, own) {
                    proof {
                        assert(!t.lists(b, own)) by {
                            assert forall|jj: int|
                                0 <= jj < t.node_count() && #[trigger] t.id_seq()[jj]
                                    == b implies !t.neighbor_lists()[jj].contains(own) by {
                                if jj < j2 {
                                    assert(t.id_seq()[jj] != t.id_seq()[j2]);
                                } else if j2 < jj {
                                    assert(t.id_seq()[j2] != t.id_seq()[jj]);
                                }
                                assert(jj == j2);
                                assert(t.neighbor_lists()[jj] == ms@);
                            };
                        }
                        assert(!node_symmetric(*t, j@)) by {
                            assert(t.neighbor_lists()[j@].contains(b));
                        }
                        assert forall|i: int| 0 <= i < k implies !#[trigger] edge_offense_at(
                            *t,
                            j@,
                            i,
                        ) by {
                            assert(t.neighbor_lists()[j@][i] == ns@[i]);
                        };
                        assert(edge_offense_at(*t, j@, k as int));
                        assert(node_edge_first_error(
                            *t,
                            j@,
                            ValidationError::AsymmetricEdge { from: own, to: b },
                        ));
                    }
                    return Err(ValidationError::AsymmetricEdge { from: own, to: b });
                }
                proof {
                    assert(t.lists(b, own)) by {
                        assert(t.id_seq()[j2] == b && t.neighbor_lists()[j2].contains(own));
                    }
                }
            },
        }
        k += 1;
    }
    proof {
        assert(node_symmetric(*t, j@)) by {
            assert forall|b: NodeId| #[trigger]
                t.neighbor_lists()[j@].contains(b) implies t.declares(b) && t.lists(b, own) by {
                let i = choose|i: int| 0 <= i < ns@.len() && ns@[i] == b;
                assert(t.declares(ns@[i]) && t.lists(ns@[i], own));
            };
        }
    }
    Ok(())
}

/// All declared edges resolve and are declared from both ends; the first
/// dangling or one-sided edge is reported with both endpoints.
fn check_connections(t: &Topology) -> (r: Result<(), ValidationError>)
    requires
        t.unique_ids(),
    ensures
        r is Ok <==> t.symmetric(),
        r matches Err(e) ==> e.witnessed_by(*t) && (e is DanglingReference || e is AsymmetricEdge),
        r matches Err(e) ==> connections_first_error(*t, e),
{
    let mut k: usize = 0;
    while k < t.relays.len()
        invariant
            k <= t.relays.len(),
            t.unique_ids(),
            forall|jj: int| 0 <= jj < k ==> node_symmetric(*t, jj),
        decreases t.relays.len() - k,
    {
        let rel = &t.relays[k];
        proof {
            lemma_relay_entry(*t, k as int);
        }
        if let Err(e) = check_symmetry_for(t, rel.id, &rel.neighbors, Ghost(k as int)) {
            proof {
                lemma_not_symmetric_from_node(*t, k as int);
                assert(connections_first_error(*t, e)) by {
                    assert(node_edge_first_error(*t, k as int, e));
                }
            }
            return Err(e);
        }
        k += 1;
    }
    let ghost nr = t.relays@.len() as int;
    let mut k: usize = 0;
    while k < t.responders.len()
        invariant
            k <= t.responders.len(),
            t.unique_ids(),
            nr == t.relays@.len(),
            forall|jj: int| 0 <= jj < nr + k ==> node_symmetric(*t, jj),
        decreases t.responders.len() - k,
    {
        let e = &t.responders[k];
        proof {
            lemma_responder_entry(*t, k as int);
        }
        if let Err(err) = check_symmetry_for(t, e.id, &e.neighbors, Ghost(nr + k as int)) {
            proof {
                lemma_not_symmetric_from_node(*t, nr + k as int);
                assert(connections_first_error(*t, err)) by {
                    assert(node_edge_first_error(*t, nr + k as int, err));
                }
            }
            return Err(err);
        }
        k += 1;
    }
    let ghost nrs = t.relays@.len() + t.responders@.len() as int;
    let mut k: usize = 0;
    while k < t.originators.len()
        invariant
            k <= t.originators.len(),
            t.unique_ids(),
            nrs == t.relays@.len() + t.responders@.len(),
            forall|jj: int| 0 <= jj < nrs + k ==> node_symmetric(*t, jj),
        decreases t.originators.len() - k,
    {
        let e = &t.originators[k];
        proof {
            lemma_originator_entry(*t, k as int);
        }
        if let Err(err) = check_symmetry_for(t, e.id, &e.neighbors, Ghost(nrs + k as int)) {
            proof {
                lemma_not_symmetric_from_node(*t, nrs + k as int);
                assert(connections_first_error(*t, err)) by {
                    assert(node_edge_first_error(*t, nrs + k as int, err));
                }
            }
            return Err(err);
        }
        k += 1;
    }
    proof {
        lemma_symmetric_from_nodes(*t);
    }
    Ok(())
}

/// Runs the fixed, ordered sequence of checks and returns on the first
/// violation found: id uniqueness, relay well-formedness, responder
/// well-formedness, originator well-formedness, then global symmetry and
/// referential integrity.  A topology passes if and only if it is valid.
pub fn validate_config(t: &Topology) -> (r: Result<(), ValidationError>)
    ensures
        r is Ok <==> t.valid(),
        r matches Err(e) ==> e.witnessed_by(*t) && first_validation_error(*t, e),
{
    if let Err(e) = check_unique_ids(t) {
        return Err(e);
    }
    if let Err(e) = check_relays(t) {
        return Err(e);
    }
    if let Err(e) = check_responders(t) {
        return Err(e);
    }
    if let Err(e) = check_originators(t) {
        return Err(e);
    }
    if let Err(e) = check_connections(t) {
        return Err(e);
    }
    Ok(())
}

} // verus!
