use netwire::bootstrap::NetworkInitializer;
use netwire::channel::TryRecv;
use netwire::message::Command;
use netwire::registry::ActorRegistry;
use netwire::topology::{EndpointSpec, RelaySpec, Topology};
use netwire::validator::ValidationError;

fn relay(id: u8, neighbors: Vec<u8>, drop_ppm: i64) -> RelaySpec {
    RelaySpec { id, neighbors, drop_ppm }
}

fn endpoint(id: u8, neighbors: Vec<u8>) -> EndpointSpec {
    EndpointSpec { id, neighbors }
}

/// A ring of five relays with one responder and one originator attached.
fn ring_topology() -> Topology {
    Topology {
        relays: vec![
            relay(1, vec![2, 5, 10], 0),
            relay(2, vec![1, 3, 20], 100_000),
            relay(3, vec![2, 4, 10], 200_000),
            relay(4, vec![3, 5], 300_000),
            relay(5, vec![4, 1], 400_000),
        ],
        responders: vec![endpoint(10, vec![1, 3])],
        originators: vec![endpoint(20, vec![2])],
    }
}

fn two_impls() -> ActorRegistry {
    ActorRegistry::heterogeneous(vec![String::from("north"), String::from("south")])
}

#[test]
fn launch_assigns_relays_round_robin() {
    let plan = NetworkInitializer::new()
        .launch(ring_topology(), &two_impls(), String::from("http://127.0.0.1:8080"))
        .expect("the ring topology is valid");
    assert_eq!(plan.relays.len(), 5);
    let idents: Vec<&str> = plan.relays.iter().map(|l| l.ident.as_str()).collect();
    assert_eq!(idents, vec!["north", "south", "north", "south", "north"]);
    let units: Vec<u8> = plan.relays.iter().map(|l| l.unit.id).collect();
    assert_eq!(units, vec![1, 2, 3, 4, 5]);
}

#[test]
fn supervisor_retains_everything() {
    let plan = NetworkInitializer::new()
        .launch(ring_topology(), &two_impls(), String::from("http://10.0.0.1:3000"))
        .expect("the ring topology is valid");
    let sup = &plan.supervisor;
    assert_eq!(sup.display_url, "http://10.0.0.1:3000");
    let control_ids: Vec<u8> = sup.relay_controls.iter().map(|c| c.id).collect();
    assert_eq!(control_ids, vec![1, 2, 3, 4, 5]);
    assert_eq!(sup.responder_controls.len(), 1);
    assert_eq!(sup.responder_controls[0].id, 10);
    assert_eq!(sup.originator_controls.len(), 1);
    assert_eq!(sup.originator_controls[0].id, 20);
    assert_eq!(sup.relay_impls.len(), 5);
    assert_eq!(sup.relay_impls[0], (1, String::from("north")));
    assert_eq!(sup.relay_impls[1], (2, String::from("south")));
    // the topology snapshot is the declared one, unchanged
    assert_eq!(sup.topology.relays.len(), 5);
    assert_eq!(sup.topology.relays[3].id, 4);
    assert_eq!(sup.topology.relays[3].drop_ppm, 300_000);
    assert_eq!(sup.topology.responders[0].neighbors, vec![1, 3]);
}

#[test]
fn invalid_topology_launches_nothing() {
    let mut t = ring_topology();
    // break symmetry: relay 5 no longer lists relay 1 back
    t.relays[4].neighbors = vec![4];
    let r = NetworkInitializer::new().launch(t, &two_impls(), String::from("http://x"));
    match r {
        Err(ValidationError::AsymmetricEdge { from: 1, to: 5 }) => {},
        Err(e) => panic!("wrong error reported: {:?}", e),
        Ok(_) => panic!("an invalid topology must not produce a launch plan"),
    }
}

#[test]
fn phases_run_in_order() {
    let configured = NetworkInitializer::new()
        .configure(ring_topology())
        .expect("the ring topology is valid");
    let wired = configured.build_channels();
    let (relays_done, relay_launches) = wired.launch_relays(&two_impls());
    assert_eq!(relay_launches.len(), 5);
    assert_eq!(relay_launches[2].ident, "north");
    assert_eq!(relay_launches[2].unit.id, 3);
    let (endpoints_done, responders, originators) = relays_done.launch_endpoints();
    assert_eq!(responders.len(), 1);
    assert_eq!(responders[0].id, 10);
    assert_eq!(responders[0].send_map.keys_vec(), vec![1u8, 3]);
    assert_eq!(originators.len(), 1);
    assert_eq!(originators[0].id, 20);
    let sup = endpoints_done.launch_supervisor(String::from("http://display"));
    assert_eq!(sup.display_url, "http://display");
    assert_eq!(sup.relay_controls.len(), 5);
}

#[test]
fn configure_rejects_what_the_validator_rejects() {
    let t = Topology {
        relays: vec![relay(1, vec![1], 0)],
        responders: vec![],
        originators: vec![],
    };
    match NetworkInitializer::new().configure(t) {
        Err(ValidationError::SelfReference { id: 1 }) => {},
        _ => panic!("a self-referencing relay must be rejected"),
    }
}

#[test]
fn supervisor_can_inject_into_any_mailbox() {
    let plan = NetworkInitializer::new()
        .launch(ring_topology(), &two_impls(), String::from("http://x"))
        .expect("the ring topology is valid");
    // the node-sender map covers every declared node, in declaration order
    assert_eq!(
        plan.supervisor.node_senders.keys_vec(),
        vec![1u8, 2, 3, 4, 5, 10, 20]
    );
    let m = netwire::message::DataMessage { session: 11, hops: vec![10], payload: vec![] };
    assert!(plan.supervisor.node_senders.send_to(10, m).is_ok());
    match plan.responders[0].data_rx.try_recv() {
        TryRecv::Message(got) => assert_eq!(got.session, 11),
        _ => panic!("the injected message must be in the responder's mailbox"),
    }
}

#[test]
fn shutdown_commands_reach_every_relay() {
    let plan = NetworkInitializer::new()
        .launch(ring_topology(), &two_impls(), String::from("http://x"))
        .expect("the ring topology is valid");
    for c in &plan.supervisor.relay_controls {
        assert!(c.command_tx.send(Command::Shutdown).is_ok());
    }
    for l in &plan.relays {
        assert!(matches!(l.unit.command_rx.try_recv(), TryRecv::Message(Command::Shutdown)));
        assert!(matches!(l.unit.command_rx.try_recv(), TryRecv::Empty));
        // the data mailbox saw nothing
        assert!(matches!(l.unit.data_rx.try_recv(), TryRecv::Empty));
    }
}
