//! The bootstrapper: a strictly ordered phase pipeline from a declared
//! topology to a complete launch plan.  Each phase consumes the previous one,
//! so no phase can be skipped and no phase can be re-entered, and a
//! validation failure aborts before anything is wired: all or nothing.

use vstd::prelude::*;

use crate::registry::ActorRegistry;
use crate::topology::{EndpointSpec, NodeId, RelaySpec, Topology};
use crate::validator::{validate_config, ValidationError};
use crate::wiring::{
    build_wiring, control_wf, endpoint_unit_wf, relay_unit_wf, send_map_wf, ControlHandle,
    EndpointUnit, RelayUnit, SendMap, Wiring,
};

verus! {

/// One relay ready to spawn: its wired unit and the implementation
/// identifier assigned to it.
pub struct RelayLaunch {
    pub unit: RelayUnit,
    pub ident: String,
}

/// Everything the supervisor receives at the last phase: one control handle
/// per actor, the immutable topology snapshot, the relay implementation
/// identifiers for observability, the full node-sender map for injecting
/// messages into any mailbox, and the display address of the front end.
pub struct Supervisor {
    pub relay_controls: Vec<ControlHandle>,
    pub responder_controls: Vec<ControlHandle>,
    pub originator_controls: Vec<ControlHandle>,
    pub topology: Topology,
    pub relay_impls: Vec<(NodeId, String)>,
    pub node_senders: SendMap,
    pub display_url: String,
}

/// The complete launch plan of a validated topology: what each spawned actor
/// takes ownership of, and what the supervisor retains.
pub struct LaunchPlan {
    pub relays: Vec<RelayLaunch>,
    pub responders: Vec<EndpointUnit>,
    pub originators: Vec<EndpointUnit>,
    pub supervisor: Supervisor,
}

/// Each unit in `us` was wired for the endpoint declared at the same
/// position of `specs`.
pub open spec fn endpoint_units_wf(specs: Seq<EndpointSpec>, us: Seq<EndpointUnit>) -> bool {
    us.len() == specs.len() && forall|i: int|
        0 <= i < specs.len() ==> endpoint_unit_wf(#[trigger] us[i], specs[i].id, specs[i].neighbors@)
}

/// Each handle in `cs` is the supervisor-side control half of the node
/// declared at the same position of `ids`.
pub open spec fn controls_wf(ids: Seq<NodeId>, cs: Seq<ControlHandle>) -> bool {
    cs.len() == ids.len() && forall|i: int|
        0 <= i < ids.len() ==> control_wf(#[trigger] cs[i], ids[i])
}

pub open spec fn relay_ids(t: Topology) -> Seq<NodeId> {
    t.relays@.map_values(|r: RelaySpec| r.id)
}

pub open spec fn responder_ids(t: Topology) -> Seq<NodeId> {
    t.responders@.map_values(|e: EndpointSpec| e.id)
}

pub open spec fn originator_ids(t: Topology) -> Seq<NodeId> {
    t.originators@.map_values(|e: EndpointSpec| e.id)
}

/// Deterministic assignment: the i-th declared relay is recorded with the
/// implementation at position `i mod k` of the registry.
pub open spec fn impls_wf(t: Topology, reg: Seq<Seq<char>>, impls: Seq<(NodeId, String)>) -> bool {
    &&& impls.len() == t.relays@.len()
    &&& reg.len() >= 1
    &&& forall|i: int|
        0 <= i < impls.len() ==> (#[trigger] impls[i]).0 == t.relays@[i].id && impls[i].1@ == reg[
            i % reg.len() as int
        ]
}

/// Deterministic assignment: the i-th declared relay launches with its wired
/// unit and the implementation at position `i mod k` of the registry.
pub open spec fn relay_launches_wf(t: Topology, reg: Seq<Seq<char>>, rs: Seq<RelayLaunch>) -> bool {
    &&& rs.len() == t.relays@.len()
    &&& reg.len() >= 1
    &&& forall|i: int|
        0 <= i < rs.len() ==> relay_unit_wf(t, i, (#[trigger] rs[i]).unit) && rs[i].ident@ == reg[
            i % reg.len() as int
        ]
}

impl Supervisor {
    /// The supervisor holds a control half for every declared actor, the
    /// unchanged topology, and the deterministic implementation record.
    pub open spec fn wf(self, t: Topology, reg: Seq<Seq<char>>) -> bool {
        &&& controls_wf(relay_ids(t), self.relay_controls@)
        &&& controls_wf(responder_ids(t), self.responder_controls@)
        &&& controls_wf(originator_ids(t), self.originator_controls@)
        &&& send_map_wf(self.node_senders, t.id_seq())
        &&& self.topology == t
        &&& impls_wf(t, reg, self.relay_impls@)
    }
}

impl LaunchPlan {
    /// Every node of `t` appears in the plan exactly once, correctly wired,
    /// with relays assigned round-robin from `reg`.
    pub open spec fn wf(self, t: Topology, reg: Seq<Seq<char>>) -> bool {
        &&& relay_launches_wf(t, reg, self.relays@)
        &&& endpoint_units_wf(t.responders@, self.responders@)
        &&& endpoint_units_wf(t.originators@, self.originators@)
        &&& self.supervisor.wf(t, reg)
    }
}

/// The bootstrap entry point: nothing configured, nothing built.
pub struct NetworkInitializer {}

/// A topology that passed validation; nothing wired yet.
pub struct Configured {
    topology: Topology,
}

/// A validated topology with every channel allocated; nothing handed out
/// yet.
pub struct WireBuilt {
    topology: Topology,
    wiring: Wiring,
}

/// Relay units handed out for spawning; endpoint units and all
/// supervisor-side state retained.
pub struct RelaysLaunched {
    topology: Topology,
    responders: Vec<EndpointUnit>,
    originators: Vec<EndpointUnit>,
    relay_controls: Vec<ControlHandle>,
    responder_controls: Vec<ControlHandle>,
    originator_controls: Vec<ControlHandle>,
    relay_impls: Vec<(NodeId, String)>,
    node_senders: SendMap,
}

/// Endpoint units handed out for spawning; only supervisor-side state
/// retained.
pub struct EndpointsLaunched {
    topology: Topology,
    relay_controls: Vec<ControlHandle>,
    responder_controls: Vec<ControlHandle>,
    originator_controls: Vec<ControlHandle>,
    relay_impls: Vec<(NodeId, String)>,
    node_senders: SendMap,
}

impl Configured {
    pub closed spec fn topology(self) -> Topology {
        self.topology
    }

    /// Second phase: run the channel-topology builder over the validated
    /// topology.
    pub fn build_channels(self) -> (r: WireBuilt)
        requires
            self.topology().valid(),
        ensures
            r.topology() == self.topology(),
            r.wiring_wf(),
    {
        let w = build_wiring(&self.topology);
        WireBuilt { topology: self.topology, wiring: w }
    }
}

impl WireBuilt {
    pub closed spec fn topology(self) -> Topology {
        self.topology
    }

    pub closed spec fn wiring_wf(self) -> bool {
        self.wiring.wf(self.topology)
    }

    /// Third phase: hand each declared relay's unit out for spawning,
    /// paired round-robin with an implementation identifier, and record the
    /// assignment for the supervisor.
    #[verifier::loop_isolation(false)]
    pub fn launch_relays(self, registry: &ActorRegistry) -> (r: (RelaysLaunched, Vec<RelayLaunch>))
        requires
            registry@.len() >= 1,
            self.wiring_wf(),
        ensures
            r.0.topology() == self.topology(),
            r.0.units_wf(),
            r.0.impls_wf_for(registry@),
            relay_launches_wf(self.topology(), registry@, r.1@),
    {
        let WireBuilt { topology, wiring } = self;
        let Wiring {
            relays,
            responders,
            originators,
            relay_controls,
            responder_controls,
            originator_controls,
            node_senders,
        } = wiring;
        let mut relays = relays;
        let ghost full = relays@;
        let mut launches: Vec<RelayLaunch> = Vec::new();
        let mut impls: Vec<(NodeId, String)> = Vec::new();
        let n = relays.len();
        let mut k: usize = 0;
        while k < n
            invariant
                k <= n,
                n == full.len(),
                relays@ == full.skip(k as int),
                launches@.len() == k,
                impls@.len() == k,
                forall|i: int|
                    0 <= i < k ==> relay_unit_wf(topology, i, (#[trigger] launches@[i]).unit)
                        && launches@[i].ident@ == registry@[i % registry@.len() as int],
                forall|i: int|
                    0 <= i < k ==> (#[trigger] impls@[i]).0 == topology.relays@[i].id
                        && impls@[i].1@ == registry@[i % registry@.len() as int],
            decreases n - k,
        {
            let u = relays.remove(0);
            proof {
                assert(u == full[k as int]);
                assert(relays@ =~= full.skip(k as int + 1));
            }
            let ident = registry.assign_ident(k);
            impls.push((u.id, ident.clone()));
            launches.push(RelayLaunch { unit: u, ident });
            k += 1;
        }
        let state = RelaysLaunched {
            topology,
            responders,
            originators,
            relay_controls,
            responder_controls,
            originator_controls,
            relay_impls: impls,
            node_senders,
        };
        (state, launches)
    }
}

impl RelaysLaunched {
    pub closed spec fn topology(self) -> Topology {
        self.topology
    }

    /// The retained endpoint units, control handles and node-sender map
    /// match the topology.
    pub closed spec fn units_wf(self) -> bool {
        &&& endpoint_units_wf(self.topology.responders@, self.responders@)
        &&& endpoint_units_wf(self.topology.originators@, self.originators@)
        &&& controls_wf(relay_ids(self.topology), self.relay_controls@)
        &&& controls_wf(responder_ids(self.topology), self.responder_controls@)
        &&& controls_wf(originator_ids(self.topology), self.originator_controls@)
        &&& send_map_wf(self.node_senders, self.topology.id_seq())
    }

    /// The retained implementation record is the round-robin assignment from
    /// `reg`.
    pub closed spec fn impls_wf_for(self, reg: Seq<Seq<char>>) -> bool {
        impls_wf(self.topology, reg, self.relay_impls@)
    }

    /// Fourth phase: hand the responder and originator units out for
    /// spawning.
    pub fn launch_endpoints(self) -> (r: (EndpointsLaunched, Vec<EndpointUnit>, Vec<EndpointUnit>))
        requires
            self.units_wf(),
        ensures
            r.0.topology() == self.topology(),
            r.0.controls_ok(),
            forall|reg: Seq<Seq<char>>|
                self.impls_wf_for(reg) ==> #[trigger] r.0.impls_wf_for(reg),
            endpoint_units_wf(self.topology().responders@, r.1@),
            endpoint_units_wf(self.topology().originators@, r.2@),
    {
        let RelaysLaunched {
            topology,
            responders,
            originators,
            relay_controls,
            responder_controls,
            originator_controls,
            relay_impls,
            node_senders,
        } = self;
        let state = EndpointsLaunched {
            topology,
            relay_controls,
            responder_controls,
            originator_controls,
            relay_impls,
            node_senders,
        };
        (state, responders, originators)
    }
}

impl EndpointsLaunched {
    pub closed spec fn topology(self) -> Topology {
        self.topology
    }

    pub closed spec fn controls_ok(self) -> bool {
        &&& controls_wf(relay_ids(self.topology), self.relay_controls@)
        &&& controls_wf(responder_ids(self.topology), self.responder_controls@)
        &&& controls_wf(originator_ids(self.topology), self.originator_controls@)
        &&& send_map_wf(self.node_senders, self.topology.id_seq())
    }

    pub closed spec fn impls_wf_for(self, reg: Seq<Seq<char>>) -> bool {
        impls_wf(self.topology, reg, self.relay_impls@)
    }

    /// Last phase: construct the supervisor with every retained control
    /// half, the unchanged topology snapshot and the implementation record.
    /// After this the bootstrapper holds nothing.
    pub fn launch_supervisor(self, display_url: String) -> (r: Supervisor)
        requires
            self.controls_ok(),
        ensures
            r.topology == self.topology(),
            r.display_url == display_url,
            controls_wf(relay_ids(self.topology()), r.relay_controls@),
            controls_wf(responder_ids(self.topology()), r.responder_controls@),
            controls_wf(originator_ids(self.topology()), r.originator_controls@),
            send_map_wf(r.node_senders, self.topology().id_seq()),
            forall|reg: Seq<Seq<char>>|
                self.impls_wf_for(reg) ==> #[trigger] impls_wf(self.topology(), reg, r.relay_impls@),
    {
        let EndpointsLaunched {
            topology,
            relay_controls,
            responder_controls,
            originator_controls,
            relay_impls,
            node_senders,
        } = self;
        Supervisor {
            relay_controls,
            responder_controls,
            originator_controls,
            topology,
            relay_impls,
            node_senders,
            display_url,
        }
    }
}

impl NetworkInitializer {
    pub fn new() -> (r: NetworkInitializer) {
        NetworkInitializer {}
    }

    /// First phase: accept a declared topology only if the validator passes
    /// it.  On failure nothing is built, so nothing can ever be spawned from
    /// an invalid topology.
    pub fn configure(self, topology: Topology) -> (r: Result<Configured, ValidationError>)
        ensures
            r is Ok <==> topology.valid(),
            r matches Ok(c) ==> c.topology() == topology,
            r matches Err(e) ==> e.witnessed_by(topology),
    {
        match validate_config(&topology) {
            Ok(()) => Ok(Configured { topology }),
            Err(e) => Err(e),
        }
    }

    /// Runs every phase in its fixed order: validation, wiring, relay
    /// launch, endpoint launch, supervisor construction.  A validation
    /// failure is returned before any channel is allocated or any unit is
    /// handed out: all or nothing.
    pub fn launch(
        self,
        topology: Topology,
        registry: &ActorRegistry,
        display_url: String,
    ) -> (r: Result<LaunchPlan, ValidationError>)
        requires
            registry@.len() >= 1,
        ensures
            r is Ok <==> topology.valid(),
            r matches Err(e) ==> e.witnessed_by(topology),
            r matches Ok(p) ==> p.wf(topology, registry@) && p.supervisor.display_url
                == display_url,
    {
        let configured = match self.configure(topology) {
            Ok(c) => c,
            Err(e) => {
                return Err(e);
            },
        };
        let wired = configured.build_channels();
        let (relays_done, relay_launches) = wired.launch_relays(registry);
        let (endpoints_done, responder_units, originator_units) = relays_done.launch_endpoints();
        let supervisor = endpoints_done.launch_supervisor(display_url);
        Ok(
            LaunchPlan {
                relays: relay_launches,
                responders: responder_units,
                originators: originator_units,
                supervisor,
            },
        )
    }
}

} // verus!
