use xrayctl::xray::{
    default_route_args, parse_pid, parse_route, pid_text, proxy_route_args, route_query_args,
    tun_address_args, tun_timeout_error, tun_wait_step, RouteInfo, TunWait,
};

#[test]
fn route_with_gateway() {
    let route = parse_route("203.0.113.7 via 192.168.1.1 dev wlan0 src 192.168.1.20 uid 1000 \n    cache \n");
    assert_eq!(route.gateway.as_deref(), Some("192.168.1.1"));
    assert_eq!(route.interface.as_deref(), Some("wlan0"));
    let args = proxy_route_args("203.0.113.7", &route).unwrap();
    assert_eq!(
        args,
        vec!["ip", "route", "replace", "203.0.113.7/32", "via", "192.168.1.1", "dev", "wlan0"]
    );
}

#[test]
fn route_without_gateway() {
    let route = parse_route("10.0.0.5 dev eth0 src 10.0.0.2");
    assert_eq!(route.gateway, None);
    let args = proxy_route_args("10.0.0.5", &route).unwrap();
    assert_eq!(args, vec!["ip", "route", "replace", "10.0.0.5/32", "dev", "eth0"]);
}

#[test]
fn last_occurrence_wins_and_trailing_keyword_is_ignored() {
    let route = parse_route("x dev a dev b via g1 via g2 dev");
    assert_eq!(route.interface.as_deref(), Some("b"));
    assert_eq!(route.gateway.as_deref(), Some("g2"));
    let empty = parse_route("");
    assert!(empty.gateway.is_none() && empty.interface.is_none());
}

#[test]
fn unknown_interface_is_an_error() {
    let route = RouteInfo { gateway: Some("g".to_string()), interface: None };
    assert_eq!(
        proxy_route_args("1.2.3.4", &route).unwrap_err(),
        "Could not determine network interface"
    );
}

#[test]
fn fixed_tun_commands() {
    assert_eq!(route_query_args("1.2.3.4"), vec!["route", "get", "1.2.3.4"]);
    assert_eq!(tun_address_args(), vec!["ip", "addr", "replace", "10.10.0.1/30", "dev", "xray0"]);
    assert_eq!(default_route_args(), vec!["ip", "route", "replace", "default", "dev", "xray0"]);
}

#[test]
fn tun_wait_gives_up_after_fifty_checks() {
    assert!(matches!(tun_wait_step(1, true), TunWait::Ready));
    assert!(matches!(tun_wait_step(50, true), TunWait::Ready));
    assert!(matches!(tun_wait_step(1, false), TunWait::SleepThenCheck));
    assert!(matches!(tun_wait_step(49, false), TunWait::SleepThenCheck));
    assert!(matches!(tun_wait_step(50, false), TunWait::SleepThenGiveUp));
    assert_eq!(tun_timeout_error("xray0"), "Interface xray0 did not appear");
}

#[test]
fn pid_file_parsing() {
    assert_eq!(parse_pid("12345"), Some(12345));
    assert_eq!(parse_pid("  12345\n"), Some(12345));
    assert_eq!(parse_pid("+7"), Some(7));
    assert_eq!(parse_pid("007"), Some(7));
    assert_eq!(parse_pid("4294967295"), Some(u32::MAX));
    assert_eq!(parse_pid("4294967296"), None);
    assert_eq!(parse_pid("99999999999999999999"), None);
    assert_eq!(parse_pid("-1"), None);
    assert_eq!(parse_pid("+"), None);
    assert_eq!(parse_pid(""), None);
    assert_eq!(parse_pid("12 34"), None);
    assert_eq!(parse_pid("\u{3000}42\u{2028}"), Some(42));
}

#[test]
fn pid_file_round_trip_examples() {
    for pid in [0u32, 7, 10, 12345, 4294967295] {
        assert_eq!(pid_text(pid), pid.to_string());
        assert_eq!(parse_pid(&pid_text(pid)), Some(pid));
    }
}
