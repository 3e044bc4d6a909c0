use balancebeam::config::{
    construct_cmd_options, OptionsError, DEFAULT_HEALTH_CHECK_INTERVAL,
    DEFAULT_MAX_REQUESTS_PER_MINUTE,
};

fn some(s: &str) -> Option<String> {
    Some(s.to_string())
}

#[test]
fn defaults_fill_in_what_was_not_given() {
    let options = construct_cmd_options(None, vec![String::from("up:1")], None, None, None).unwrap();
    assert_eq!(options.bind, "0.0.0.0:1100");
    assert_eq!(options.upstream, vec![String::from("up:1")]);
    assert_eq!(options.active_health_check_interval, 10);
    assert_eq!(options.active_health_check_path, "/");
    assert_eq!(options.max_requests_per_minute, 0);
    assert_eq!(DEFAULT_HEALTH_CHECK_INTERVAL, 10);
    assert_eq!(DEFAULT_MAX_REQUESTS_PER_MINUTE, 0);
}

#[test]
fn given_values_are_taken() {
    let options = construct_cmd_options(
        some("127.0.0.1:9000"),
        vec![String::from("127.0.0.1:9001"), String::from("127.0.0.1:9002")],
        some("3"),
        some("/health"),
        some("120"),
    )
    .unwrap();
    assert_eq!(options.bind, "127.0.0.1:9000");
    assert_eq!(
        options.upstream,
        vec![String::from("127.0.0.1:9001"), String::from("127.0.0.1:9002")]
    );
    assert_eq!(options.active_health_check_interval, 3);
    assert_eq!(options.active_health_check_path, "/health");
    assert_eq!(options.max_requests_per_minute, 120);
}

#[test]
fn an_upstream_is_required() {
    let r = construct_cmd_options(None, Vec::new(), None, None, None);
    assert_eq!(r.err(), Some(OptionsError::NoUpstream));
    let r = construct_cmd_options(None, Vec::new(), some("x"), None, some("y"));
    assert_eq!(r.err(), Some(OptionsError::NoUpstream));
}

#[test]
fn numbers_must_be_numbers() {
    let ups = || vec![String::from("u")];
    for bad in ["", "ten", "-1", "1.5", " 7", "7 ", "0x10", "99999999999999999999999999"] {
        let r = construct_cmd_options(None, ups(), some(bad), None, None);
        assert_eq!(r.err(), Some(OptionsError::InvalidInterval));
        let r = construct_cmd_options(None, ups(), None, None, some(bad));
        assert_eq!(r.err(), Some(OptionsError::InvalidLimit));
    }
    let r = construct_cmd_options(None, ups(), some("x"), None, some("y"));
    assert_eq!(r.err(), Some(OptionsError::InvalidInterval));
}

#[test]
fn settings_become_the_startup_state() {
    let options = construct_cmd_options(
        None,
        vec![String::from("a"), String::from("b")],
        some("4"),
        some("/ok"),
        some("6"),
    )
    .unwrap();
    let state = options.into_state();
    assert_eq!(state.healthy_addresses(), vec![String::from("a"), String::from("b")]);
    assert!(state.failed_addresses().is_empty());
    assert_eq!(state.health_check_interval(), 4);
    assert_eq!(state.health_check_path(), "/ok");
    assert_eq!(state.max_requests_per_minute(), 6);
    assert_eq!(state.count_for("anyone"), None);
}
