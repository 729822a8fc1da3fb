use netwire::topology::{EndpointSpec, RelaySpec, Topology};
use netwire::validator::{validate_config, ValidationError};

fn relay(id: u8, neighbors: Vec<u8>, drop_ppm: i64) -> RelaySpec {
    RelaySpec { id, neighbors, drop_ppm }
}

fn endpoint(id: u8, neighbors: Vec<u8>) -> EndpointSpec {
    EndpointSpec { id, neighbors }
}

fn sample_valid() -> Topology {
    Topology {
        relays: vec![
            relay(1, vec![2, 10, 20], 0),
            relay(2, vec![1, 10], 1_000_000),
        ],
        responders: vec![endpoint(10, vec![1, 2])],
        originators: vec![endpoint(20, vec![1])],
    }
}

#[test]
fn valid_topology_passes() {
    assert_eq!(validate_config(&sample_valid()), Ok(()));
}

#[test]
fn boundary_drop_probabilities_pass() {
    let t = Topology {
        relays: vec![relay(1, vec![2], 0), relay(2, vec![1], 1_000_000)],
        responders: vec![],
        originators: vec![],
    };
    assert_eq!(validate_config(&t), Ok(()));
}

#[test]
fn duplicate_id_rejected() {
    let t = Topology {
        relays: vec![relay(1, vec![], 0), relay(1, vec![], 0)],
        responders: vec![],
        originators: vec![],
    };
    assert_eq!(
        validate_config(&t),
        Err(ValidationError::DuplicateId { id: 1 })
    );
}

#[test]
fn duplicate_id_across_roles_rejected() {
    let t = Topology {
        relays: vec![relay(1, vec![], 0)],
        responders: vec![endpoint(1, vec![2, 3])],
        originators: vec![],
    };
    assert_eq!(
        validate_config(&t),
        Err(ValidationError::DuplicateId { id: 1 })
    );
}

#[test]
fn relay_listing_itself_rejected() {
    let t = Topology {
        relays: vec![relay(1, vec![1], 0)],
        responders: vec![],
        originators: vec![],
    };
    assert_eq!(
        validate_config(&t),
        Err(ValidationError::SelfReference { id: 1 })
    );
}

#[test]
fn repeated_neighbor_rejected() {
    let t = Topology {
        relays: vec![relay(1, vec![2, 2], 0), relay(2, vec![1], 0)],
        responders: vec![],
        originators: vec![],
    };
    assert_eq!(
        validate_config(&t),
        Err(ValidationError::DuplicateNeighbor { id: 1, neighbor: 2 })
    );
}

#[test]
fn drop_probability_above_one_rejected() {
    let t = Topology {
        relays: vec![relay(1, vec![], 1_500_000)],
        responders: vec![],
        originators: vec![],
    };
    assert_eq!(
        validate_config(&t),
        Err(ValidationError::DropProbabilityOutOfRange { id: 1 })
    );
}

#[test]
fn negative_drop_probability_rejected() {
    let t = Topology {
        relays: vec![relay(1, vec![], -1)],
        responders: vec![],
        originators: vec![],
    };
    assert_eq!(
        validate_config(&t),
        Err(ValidationError::DropProbabilityOutOfRange { id: 1 })
    );
}

#[test]
fn responder_with_one_neighbor_rejected() {
    let t = Topology {
        relays: vec![relay(1, vec![10], 0)],
        responders: vec![endpoint(10, vec![1])],
        originators: vec![],
    };
    assert_eq!(
        validate_config(&t),
        Err(ValidationError::DegreeViolation { id: 10 })
    );
}

#[test]
fn originator_with_three_neighbors_rejected() {
    let t = Topology {
        relays: vec![
            relay(1, vec![2, 3, 20], 0),
            relay(2, vec![1, 3, 20], 0),
            relay(3, vec![1, 2, 20], 0),
        ],
        responders: vec![],
        originators: vec![endpoint(20, vec![1, 2, 3])],
    };
    assert_eq!(
        validate_config(&t),
        Err(ValidationError::DegreeViolation { id: 20 })
    );
}

#[test]
fn originator_with_no_neighbor_rejected() {
    let t = Topology {
        relays: vec![relay(1, vec![], 0)],
        responders: vec![],
        originators: vec![endpoint(20, vec![])],
    };
    assert_eq!(
        validate_config(&t),
        Err(ValidationError::DegreeViolation { id: 20 })
    );
}

#[test]
fn dangling_reference_rejected() {
    let t = Topology {
        relays: vec![relay(1, vec![9], 0)],
        responders: vec![],
        originators: vec![],
    };
    assert_eq!(
        validate_config(&t),
        Err(ValidationError::DanglingReference { from: 1, to: 9 })
    );
}

#[test]
fn one_sided_edge_rejected() {
    let t = Topology {
        relays: vec![relay(1, vec![2], 0), relay(2, vec![], 0)],
        responders: vec![],
        originators: vec![],
    };
    assert_eq!(
        validate_config(&t),
        Err(ValidationError::AsymmetricEdge { from: 1, to: 2 })
    );
}

#[test]
fn uniqueness_reported_before_self_reference() {
    let t = Topology {
        relays: vec![relay(1, vec![1], 0), relay(1, vec![], 0)],
        responders: vec![],
        originators: vec![],
    };
    assert_eq!(
        validate_config(&t),
        Err(ValidationError::DuplicateId { id: 1 })
    );
}

#[test]
fn self_reference_reported_before_repetition() {
    let t = Topology {
        relays: vec![relay(1, vec![2, 1, 2], 0), relay(2, vec![1], 0)],
        responders: vec![],
        originators: vec![],
    };
    assert_eq!(
        validate_config(&t),
        Err(ValidationError::SelfReference { id: 1 })
    );
}

#[test]
fn first_duplicate_in_scan_order_is_reported() {
    // ids 1, 2, 1, 2: the second occurrence of 1 is met before that of 2
    let t = Topology {
        relays: vec![relay(1, vec![], 0), relay(2, vec![], 0)],
        responders: vec![endpoint(1, vec![3, 4]), endpoint(2, vec![3, 4])],
        originators: vec![],
    };
    assert_eq!(
        validate_config(&t),
        Err(ValidationError::DuplicateId { id: 1 })
    );
}

#[test]
fn repetition_before_later_self_reference() {
    // owner 1, list [2, 2, 1]: the repetition at position 1 is met before
    // the self-reference at position 2
    let t = Topology {
        relays: vec![relay(1, vec![2, 2, 1], 0), relay(2, vec![1], 0)],
        responders: vec![],
        originators: vec![],
    };
    assert_eq!(
        validate_config(&t),
        Err(ValidationError::DuplicateNeighbor { id: 1, neighbor: 2 })
    );
}

#[test]
fn list_offense_reported_before_drop_probability() {
    let t = Topology {
        relays: vec![relay(1, vec![1], 9_000_000)],
        responders: vec![],
        originators: vec![],
    };
    assert_eq!(
        validate_config(&t),
        Err(ValidationError::SelfReference { id: 1 })
    );
}

#[test]
fn first_offending_relay_in_declaration_order_is_reported() {
    let t = Topology {
        relays: vec![
            relay(1, vec![], 0),
            relay(2, vec![2], 0),
            relay(3, vec![3], 0),
        ],
        responders: vec![],
        originators: vec![],
    };
    assert_eq!(
        validate_config(&t),
        Err(ValidationError::SelfReference { id: 2 })
    );
}

#[test]
fn responder_list_offense_reported_before_degree() {
    // responder 10 lists itself and has a single neighbor: the list offense
    // is checked first
    let t = Topology {
        relays: vec![relay(1, vec![], 0)],
        responders: vec![endpoint(10, vec![10])],
        originators: vec![],
    };
    assert_eq!(
        validate_config(&t),
        Err(ValidationError::SelfReference { id: 10 })
    );
}

#[test]
fn responder_degree_reported_before_originator_degree() {
    // both the responder and the originator violate their degree bounds;
    // responders are checked first
    let t = Topology {
        relays: vec![relay(1, vec![10], 0)],
        responders: vec![endpoint(10, vec![1])],
        originators: vec![endpoint(20, vec![])],
    };
    assert_eq!(
        validate_config(&t),
        Err(ValidationError::DegreeViolation { id: 10 })
    );
}

#[test]
fn first_offending_edge_in_list_order_is_reported() {
    // relay 1's first neighbor 2 is one-sided; its second neighbor 9 is
    // undeclared; the earlier edge decides
    let t = Topology {
        relays: vec![relay(1, vec![2, 9], 0), relay(2, vec![], 0)],
        responders: vec![],
        originators: vec![],
    };
    assert_eq!(
        validate_config(&t),
        Err(ValidationError::AsymmetricEdge { from: 1, to: 2 })
    );
}

#[test]
fn empty_topology_passes() {
    let t = Topology { relays: vec![], responders: vec![], originators: vec![] };
    assert_eq!(validate_config(&t), Ok(()));
}
