use balancebeam::pool::ProxyState;
use balancebeam::rate_limit::{check_fixed_windows_for_ip, clear_counter};

fn state_with_limit(limit: usize) -> ProxyState {
    ProxyState::new(
        vec![String::from("127.0.0.1:9001"), String::from("127.0.0.1:9002")],
        10,
        String::from("/"),
        limit,
    )
}

#[test]
fn no_limit_admits_every_request() {
    let mut state = state_with_limit(0);
    for i in 0..1000 {
        let client = if i % 3 == 0 { "10.0.0.1" } else { "10.0.0.2" };
        assert!(check_fixed_windows_for_ip(client, &mut state));
    }
    assert_eq!(state.count_for("10.0.0.1"), None);
    assert_eq!(state.count_for("10.0.0.2"), None);
}

#[test]
fn first_n_requests_are_admitted_then_rejected() {
    let mut state = state_with_limit(3);
    assert!(check_fixed_windows_for_ip("10.0.0.1", &mut state));
    assert_eq!(state.count_for("10.0.0.1"), Some(1));
    assert!(check_fixed_windows_for_ip("10.0.0.1", &mut state));
    assert_eq!(state.count_for("10.0.0.1"), Some(2));
    assert!(check_fixed_windows_for_ip("10.0.0.1", &mut state));
    assert_eq!(state.count_for("10.0.0.1"), Some(3));
    assert!(!check_fixed_windows_for_ip("10.0.0.1", &mut state));
    assert!(!check_fixed_windows_for_ip("10.0.0.1", &mut state));
    assert_eq!(state.count_for("10.0.0.1"), Some(3));
}

#[test]
fn limit_of_one_admits_one_request() {
    let mut state = state_with_limit(1);
    assert!(check_fixed_windows_for_ip("c", &mut state));
    assert!(!check_fixed_windows_for_ip("c", &mut state));
    assert_eq!(state.count_for("c"), Some(1));
}

#[test]
fn reset_starts_the_cycle_again() {
    let mut state = state_with_limit(2);
    assert!(check_fixed_windows_for_ip("10.0.0.1", &mut state));
    assert!(check_fixed_windows_for_ip("10.0.0.1", &mut state));
    assert!(!check_fixed_windows_for_ip("10.0.0.1", &mut state));
    clear_counter(&mut state);
    assert_eq!(state.count_for("10.0.0.1"), None);
    assert!(check_fixed_windows_for_ip("10.0.0.1", &mut state));
    assert!(check_fixed_windows_for_ip("10.0.0.1", &mut state));
    assert!(!check_fixed_windows_for_ip("10.0.0.1", &mut state));
}

#[test]
fn window_is_fixed_so_a_client_may_send_twice_the_limit_around_a_reset() {
    let mut state = state_with_limit(2);
    let mut admitted = 0;
    for _ in 0..2 {
        if check_fixed_windows_for_ip("10.0.0.9", &mut state) {
            admitted += 1;
        }
    }
    clear_counter(&mut state);
    for _ in 0..2 {
        if check_fixed_windows_for_ip("10.0.0.9", &mut state) {
            admitted += 1;
        }
    }
    assert_eq!(admitted, 4);
}

#[test]
fn clients_are_counted_apart() {
    let mut state = state_with_limit(2);
    assert!(check_fixed_windows_for_ip("a", &mut state));
    assert!(check_fixed_windows_for_ip("b", &mut state));
    assert!(check_fixed_windows_for_ip("a", &mut state));
    assert!(!check_fixed_windows_for_ip("a", &mut state));
    assert!(check_fixed_windows_for_ip("b", &mut state));
    assert!(!check_fixed_windows_for_ip("b", &mut state));
    assert_eq!(state.count_for("a"), Some(2));
    assert_eq!(state.count_for("b"), Some(2));
    assert_eq!(state.count_for("c"), None);
}

#[test]
fn rate_limit_leaves_upstreams_and_settings_alone() {
    let mut state = state_with_limit(1);
    check_fixed_windows_for_ip("a", &mut state);
    check_fixed_windows_for_ip("a", &mut state);
    clear_counter(&mut state);
    assert_eq!(
        state.healthy_addresses(),
        vec![String::from("127.0.0.1:9001"), String::from("127.0.0.1:9002")]
    );
    assert!(state.failed_addresses().is_empty());
    assert_eq!(state.max_requests_per_minute(), 1);
    assert_eq!(state.health_check_interval(), 10);
    assert_eq!(state.health_check_path(), "/");
}

#[test]
fn a_count_at_the_top_of_the_range_is_rejected_without_overflow() {
    let mut state = state_with_limit(usize::MAX);
    state.set_count("a", usize::MAX);
    assert!(!check_fixed_windows_for_ip("a", &mut state));
    assert_eq!(state.count_for("a"), Some(usize::MAX));
    state.set_count("b", usize::MAX - 1);
    assert!(check_fixed_windows_for_ip("b", &mut state));
    assert_eq!(state.count_for("b"), Some(usize::MAX));
}
