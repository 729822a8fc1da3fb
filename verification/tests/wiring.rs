use netwire::channel::TryRecv;
use netwire::message::{Command, DataMessage, Event};
use netwire::topology::{EndpointSpec, RelaySpec, Topology};
use netwire::validator::validate_config;
use netwire::wiring::build_wiring;

fn relay(id: u8, neighbors: Vec<u8>, drop_ppm: i64) -> RelaySpec {
    RelaySpec { id, neighbors, drop_ppm }
}

fn endpoint(id: u8, neighbors: Vec<u8>) -> EndpointSpec {
    EndpointSpec { id, neighbors }
}

fn sample_valid() -> Topology {
    Topology {
        relays: vec![
            relay(1, vec![2, 10, 20], 250_000),
            relay(2, vec![1, 10], 0),
        ],
        responders: vec![endpoint(10, vec![1, 2])],
        originators: vec![endpoint(20, vec![1])],
    }
}

fn msg(session: u64) -> DataMessage {
    DataMessage { session, hops: vec![2, 1], payload: vec![0xAB, 0xCD] }
}

#[test]
fn send_map_keys_equal_declared_neighbors() {
    let t = sample_valid();
    assert_eq!(validate_config(&t), Ok(()));
    let w = build_wiring(&t);
    assert_eq!(w.relays.len(), 2);
    assert_eq!(w.relays[0].send_map.keys_vec(), vec![2u8, 10, 20]);
    assert_eq!(w.relays[1].send_map.keys_vec(), vec![1u8, 10]);
    assert_eq!(w.responders[0].send_map.keys_vec(), vec![1u8, 2]);
    assert_eq!(w.originators[0].send_map.keys_vec(), vec![1u8]);
    // no extra entry: a non-neighbor is absent
    assert!(w.relays[1].send_map.sender_for(20).is_none());
    assert!(w.originators[0].send_map.sender_for(2).is_none());
}

#[test]
fn units_carry_their_declaration() {
    let t = sample_valid();
    assert_eq!(validate_config(&t), Ok(()));
    let w = build_wiring(&t);
    assert_eq!(w.relays[0].id, 1);
    assert_eq!(w.relays[0].drop_ppm, 250_000);
    assert_eq!(w.relays[1].id, 2);
    assert_eq!(w.responders[0].id, 10);
    assert_eq!(w.originators[0].id, 20);
    assert_eq!(w.relay_controls.len(), 2);
    assert_eq!(w.relay_controls[0].id, 1);
    assert_eq!(w.responder_controls[0].id, 10);
    assert_eq!(w.originator_controls[0].id, 20);
}

#[test]
fn data_message_reaches_the_right_mailbox() {
    let t = sample_valid();
    assert_eq!(validate_config(&t), Ok(()));
    let w = build_wiring(&t);
    // relay 2 sends into relay 1's mailbox through its send map
    let tx = w.relays[1].send_map.sender_for(1).expect("relay 2 must reach relay 1");
    assert!(tx.send(msg(7)).is_ok());
    match w.relays[0].data_rx.try_recv() {
        TryRecv::Message(m) => assert_eq!(m, msg(7)),
        _ => panic!("the message must be in relay 1's mailbox"),
    }
    // no other mailbox saw it
    assert!(matches!(w.relays[1].data_rx.try_recv(), TryRecv::Empty));
    assert!(matches!(w.responders[0].data_rx.try_recv(), TryRecv::Empty));
    assert!(matches!(w.originators[0].data_rx.try_recv(), TryRecv::Empty));
}

#[test]
fn senders_in_different_maps_share_one_mailbox() {
    let t = sample_valid();
    assert_eq!(validate_config(&t), Ok(()));
    let w = build_wiring(&t);
    // both relay 2 and the responder hold senders for relay 1's mailbox
    let from_relay = w.relays[1].send_map.sender_for(1).unwrap();
    let from_responder = w.responders[0].send_map.sender_for(1).unwrap();
    assert!(from_relay.send(msg(1)).is_ok());
    assert!(from_responder.send(msg(2)).is_ok());
    match w.relays[0].data_rx.try_recv() {
        TryRecv::Message(m) => assert_eq!(m.session, 1),
        _ => panic!("first message missing"),
    }
    match w.relays[0].data_rx.try_recv() {
        TryRecv::Message(m) => assert_eq!(m.session, 2),
        _ => panic!("second message missing"),
    }
}

#[test]
fn control_channels_are_isolated_from_data_channels() {
    let t = sample_valid();
    assert_eq!(validate_config(&t), Ok(()));
    let w = build_wiring(&t);
    // a command on relay 1's control channel...
    assert!(w.relay_controls[0].command_tx.send(Command::Shutdown).is_ok());
    // ...is never observed on any data mailbox,
    assert!(matches!(w.relays[0].data_rx.try_recv(), TryRecv::Empty));
    assert!(matches!(w.relays[1].data_rx.try_recv(), TryRecv::Empty));
    // ...and arrives only on that relay's command receiver.
    assert!(matches!(w.relays[1].command_rx.try_recv(), TryRecv::Empty));
    assert!(matches!(
        w.relays[0].command_rx.try_recv(),
        TryRecv::Message(Command::Shutdown)
    ));
    // a data message the other way is never observed on a control channel
    let tx = w.relays[0].send_map.sender_for(2).unwrap();
    assert!(tx.send(msg(9)).is_ok());
    assert!(matches!(w.relays[1].command_rx.try_recv(), TryRecv::Empty));
    assert!(matches!(w.relays[1].data_rx.try_recv(), TryRecv::Message(_)));
}

#[test]
fn event_channel_pairs_with_its_actor() {
    let t = sample_valid();
    assert_eq!(validate_config(&t), Ok(()));
    let w = build_wiring(&t);
    assert!(w.relays[0].event_tx.send(Event::Halted { id: 1 }).is_ok());
    // the paired supervisor-side receiver sees it; the other relay's does not
    assert!(matches!(w.relay_controls[1].event_rx.try_recv(), TryRecv::Empty));
    match w.relay_controls[0].event_rx.try_recv() {
        TryRecv::Message(e) => assert_eq!(e, Event::Halted { id: 1 }),
        _ => panic!("the event must reach relay 1's supervisor handle"),
    }
}

#[test]
fn send_to_routes_by_neighbor_id() {
    let t = sample_valid();
    assert_eq!(validate_config(&t), Ok(()));
    let w = build_wiring(&t);
    // the originator reaches its one neighbor, relay 1
    assert!(w.originators[0].send_map.send_to(1, msg(4)).is_ok());
    match w.relays[0].data_rx.try_recv() {
        TryRecv::Message(m) => assert_eq!(m.session, 4),
        _ => panic!("the message must be in relay 1's mailbox"),
    }
    // a non-neighbor hands the message back unsent
    match w.originators[0].send_map.send_to(2, msg(5)) {
        Err(back) => assert_eq!(back, msg(5)),
        Ok(()) => panic!("node 2 is not a neighbor of the originator"),
    }
    assert!(matches!(w.relays[1].data_rx.try_recv(), TryRecv::Empty));
}

#[test]
fn send_fails_once_the_receiver_is_gone() {
    let t = sample_valid();
    assert_eq!(validate_config(&t), Ok(()));
    let w = build_wiring(&t);
    let tx = w.relays[1].send_map.sender_for(1).unwrap().duplicate();
    drop(w);
    match tx.send(msg(3)) {
        Err(back) => assert_eq!(back, msg(3)),
        Ok(()) => panic!("sending into a dropped mailbox must fail"),
    }
}
