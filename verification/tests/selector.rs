use balancebeam::pool::ProxyState;
use balancebeam::selector::{connect_to_upstream, step_for_draw, upstream_dial_failed, ConnectStep};

fn addresses(names: &[&str]) -> Vec<String> {
    names.iter().map(|s| s.to_string()).collect()
}

fn state_of(names: &[&str]) -> ProxyState {
    ProxyState::new(addresses(names), 10, String::from("/"), 0)
}

#[test]
fn new_state_has_every_upstream_healthy() {
    let state = state_of(&["a", "b", "c"]);
    assert_eq!(state.healthy_addresses(), addresses(&["a", "b", "c"]));
    assert!(state.failed_addresses().is_empty());
    assert_eq!(state.healthy_len(), 3);
    assert_eq!(state.healthy_at(1), "b");
}

#[test]
fn pick_is_always_a_healthy_upstream() {
    let mut state = state_of(&["a", "b", "c", "d"]);
    assert!(upstream_dial_failed(&mut state, "c"));
    let mut seen = Vec::new();
    for _ in 0..200 {
        match connect_to_upstream(&state) {
            ConnectStep::Dial(address) => {
                assert!(state.healthy_addresses().contains(&address));
                assert!(!state.failed_addresses().contains(&address));
                if !seen.contains(&address) {
                    seen.push(address);
                }
            }
            ConnectStep::NoUpstream => panic!("three upstreams are healthy"),
        }
    }
    seen.sort();
    assert_eq!(seen, addresses(&["a", "b", "d"]));
}

#[test]
fn no_healthy_upstream_gives_no_upstream() {
    let state = state_of(&[]);
    assert!(matches!(connect_to_upstream(&state), ConnectStep::NoUpstream));
    let mut state = state_of(&["a"]);
    assert!(upstream_dial_failed(&mut state, "a"));
    assert!(matches!(connect_to_upstream(&state), ConnectStep::NoUpstream));
    assert!(matches!(step_for_draw(&state, 0), ConnectStep::NoUpstream));
}

#[test]
fn step_for_draw_dials_the_drawn_position() {
    let state = state_of(&["a", "b", "c"]);
    for (i, name) in ["a", "b", "c"].iter().enumerate() {
        match step_for_draw(&state, i) {
            ConnectStep::Dial(address) => assert_eq!(&address, name),
            ConnectStep::NoUpstream => panic!("upstreams are healthy"),
        }
    }
}

#[test]
fn failed_dial_moves_the_address_to_the_end_of_failed() {
    let mut state = state_of(&["a", "b", "c"]);
    assert!(upstream_dial_failed(&mut state, "b"));
    assert_eq!(state.healthy_addresses(), addresses(&["a", "c"]));
    assert_eq!(state.failed_addresses(), addresses(&["b"]));
    assert!(upstream_dial_failed(&mut state, "a"));
    assert_eq!(state.healthy_addresses(), addresses(&["c"]));
    assert_eq!(state.failed_addresses(), addresses(&["b", "a"]));
}

#[test]
fn failed_dial_of_an_unknown_or_already_failed_address_changes_nothing() {
    let mut state = state_of(&["a", "b"]);
    assert!(!upstream_dial_failed(&mut state, "z"));
    assert!(upstream_dial_failed(&mut state, "a"));
    assert!(!upstream_dial_failed(&mut state, "a"));
    assert_eq!(state.healthy_addresses(), addresses(&["b"]));
    assert_eq!(state.failed_addresses(), addresses(&["a"]));
}

#[test]
fn failed_dial_takes_the_first_of_two_equal_entries() {
    let mut state = state_of(&["a", "b", "a"]);
    assert_eq!(state.demote("a"), Some(0));
    assert_eq!(state.healthy_addresses(), addresses(&["b", "a"]));
    assert_eq!(state.failed_addresses(), addresses(&["a"]));
    assert_eq!(state.demote("a"), Some(1));
    assert_eq!(state.demote("a"), None);
    assert_eq!(state.healthy_addresses(), addresses(&["b"]));
    assert_eq!(state.failed_addresses(), addresses(&["a", "a"]));
}

#[test]
fn connecting_ends_after_as_many_dials_as_there_are_upstreams() {
    let mut state = state_of(&["a", "b", "c", "d", "e"]);
    let mut dials = 0;
    loop {
        match connect_to_upstream(&state) {
            ConnectStep::Dial(address) => {
                dials += 1;
                assert!(upstream_dial_failed(&mut state, &address));
            }
            ConnectStep::NoUpstream => break,
        }
    }
    assert_eq!(dials, 5);
    assert!(state.healthy_addresses().is_empty());
    let mut failed = state.failed_addresses();
    failed.sort();
    assert_eq!(failed, addresses(&["a", "b", "c", "d", "e"]));
}

#[test]
fn install_replaces_both_lists_and_keeps_counts() {
    let mut state = ProxyState::new(addresses(&["a", "b"]), 7, String::from("/health"), 4);
    state.set_count("client", 3);
    state.install(addresses(&["b"]), addresses(&["a"]));
    assert_eq!(state.healthy_addresses(), addresses(&["b"]));
    assert_eq!(state.failed_addresses(), addresses(&["a"]));
    assert_eq!(state.count_for("client"), Some(3));
    assert_eq!(state.health_check_interval(), 7);
    assert_eq!(state.health_check_path(), "/health");
    assert_eq!(state.max_requests_per_minute(), 4);
    state.clear_counts();
    assert_eq!(state.count_for("client"), None);
}
