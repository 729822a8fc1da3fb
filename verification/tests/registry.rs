use netwire::registry::ActorRegistry;

#[test]
fn homogeneous_registry_assigns_one_implementation() {
    let reg = ActorRegistry::homogeneous(String::from("baseline"));
    assert_eq!(reg.size(), 1);
    for i in 0..5 {
        assert_eq!(reg.assign_ident(i), "baseline");
    }
}

#[test]
fn round_robin_assignment_over_three_implementations() {
    let reg = ActorRegistry::heterogeneous(vec![
        String::from("alpha"),
        String::from("beta"),
        String::from("gamma"),
    ]);
    assert_eq!(reg.size(), 3);
    let expected = ["alpha", "beta", "gamma", "alpha", "beta", "gamma", "alpha"];
    for (i, want) in expected.iter().enumerate() {
        assert_eq!(reg.assign_ident(i), *want);
    }
}

#[test]
fn assignment_is_reproducible() {
    let reg = ActorRegistry::heterogeneous(vec![String::from("a"), String::from("b")]);
    let first: Vec<String> = (0..8).map(|i| reg.assign_ident(i)).collect();
    let second: Vec<String> = (0..8).map(|i| reg.assign_ident(i)).collect();
    assert_eq!(first, second);
}
