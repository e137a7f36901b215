use xrayctl::cli::{SubArgs, SubscriptionCommand};
use xrayctl::config::{
    active_file, config_dir, config_file, join_path, log_file, pid_file, subscription_file,
    xray_file, Config,
};
use xrayctl::ping::{after_attempt, dns_failure, no_connection, ping_target, PingStep};
use xrayctl::subscription_client::{check_status, fetch_headers, info_headers};

fn args() -> SubArgs {
    SubArgs {
        start: false,
        stop: false,
        status: false,
        list: false,
        update: false,
        generate: false,
        command: None,
    }
}

#[test]
fn shortcut_flags_select_commands() {
    let mut a = args();
    a.start = true;
    assert!(matches!(a.selected_command(), Some(SubscriptionCommand::Start { index: None })));
    let mut a = args();
    a.stop = true;
    assert!(matches!(a.selected_command(), Some(SubscriptionCommand::Stop)));
    let mut a = args();
    a.status = true;
    assert!(matches!(a.selected_command(), Some(SubscriptionCommand::Status)));
    let mut a = args();
    a.list = true;
    assert!(matches!(a.selected_command(), Some(SubscriptionCommand::List)));
    let mut a = args();
    a.update = true;
    assert!(matches!(a.selected_command(), Some(SubscriptionCommand::Update)));
    let mut a = args();
    a.generate = true;
    a.command = Some(SubscriptionCommand::Show);
    assert!(matches!(a.selected_command(), Some(SubscriptionCommand::Generate)));
}

#[test]
fn subcommand_is_used_without_flags() {
    let mut a = args();
    a.command = Some(SubscriptionCommand::Use { index: 2 });
    assert!(matches!(a.selected_command(), Some(SubscriptionCommand::Use { index: 2 })));
    assert!(args().selected_command().is_none());
}

#[test]
fn runtime_files_live_in_the_config_dir() {
    let dir = config_dir(Some("/home/u/.config")).unwrap();
    assert_eq!(dir, "/home/u/.config/xrayctl");
    assert_eq!(config_file(&dir), "/home/u/.config/xrayctl/config.toml");
    assert_eq!(subscription_file(&dir), "/home/u/.config/xrayctl/subscription.json");
    assert_eq!(active_file(&dir), "/home/u/.config/xrayctl/active.json");
    assert_eq!(xray_file(&dir), "/home/u/.config/xrayctl/xray.json");
    assert_eq!(pid_file(&dir), "/home/u/.config/xrayctl/xray.pid");
    assert_eq!(log_file(&dir), "/home/u/.config/xrayctl/xray.log");
    assert_eq!(config_dir(None).unwrap_err(), "Could not determine config directory");
}

#[test]
fn joining_matches_path_join() {
    for (base, name) in [("/a/", "b"), ("", "b"), ("/a", "/c"), ("a/b", "c.d")] {
        let expected = std::path::Path::new(base).join(name);
        assert_eq!(join_path(base, name), expected.to_str().unwrap());
    }
}

#[test]
fn added_subscription_config() {
    let config = Config::for_subscription("https://example.com/sub".to_string());
    assert_eq!(config.subscription_url, "https://example.com/sub");
    assert_eq!(config.hwid, "xrayctl-test-hwid");
}

#[test]
fn request_headers() {
    let config = Config { subscription_url: "u".to_string(), hwid: "device-1".to_string() };
    let fetch = fetch_headers(&config);
    let names: Vec<(&str, &str)> = fetch.iter().map(|(n, v)| (n.as_str(), v.as_str())).collect();
    assert_eq!(
        names,
        vec![
            ("User-Agent", "Happ/3.13.0"),
            ("X-HWID", "device-1"),
            ("X-Device-Os", "Android"),
            ("X-Device-Locale", "ru"),
            ("X-Device-Model", "xrayctl"),
            ("X-Ver-Os", "17"),
        ]
    );
    let info = info_headers();
    assert_eq!(info.len(), 5);
    assert!(info.iter().all(|(n, _)| n != "X-HWID"));
}

#[test]
fn download_status() {
    assert!(check_status(200, "200 OK").is_ok());
    assert!(check_status(299, "299").is_ok());
    assert_eq!(
        check_status(404, "404 Not Found").unwrap_err(),
        "Subscription request failed with status: 404 Not Found"
    );
    assert!(check_status(199, "199").is_err());
    assert!(check_status(300, "300 Multiple Choices").is_err());
}

#[test]
fn ping_steps() {
    assert_eq!(ping_target("example.com", 443), "example.com:443");
    let failed = dns_failure("no such host");
    assert!(failed.latency.is_none());
    assert_eq!(failed.error.as_deref(), Some("DNS resolution failed: no such host"));
    let latency = std::time::Duration::from_millis(12);
    match after_attempt(Ok(latency)) {
        PingStep::Done(r) => {
            assert_eq!(r.latency, Some(latency));
            assert!(r.error.is_none());
        }
        PingStep::Continue(_) => panic!("a connection ends the ping"),
    }
    match after_attempt(Err("refused".to_string())) {
        PingStep::Continue(e) => assert_eq!(e.as_deref(), Some("refused")),
        PingStep::Done(_) => panic!("a failure goes on"),
    }
    assert_eq!(no_connection(Some("timed out".to_string())).error.as_deref(), Some("timed out"));
    assert_eq!(no_connection(None).error.as_deref(), Some("No addresses available"));
}

#[test]
fn runtime_files_are_distinct() {
    let dir = "/tmp/xrayctl-test";
    let paths = [
        config_file(dir),
        subscription_file(dir),
        active_file(dir),
        xray_file(dir),
        pid_file(dir),
        log_file(dir),
    ];
    for i in 0..paths.len() {
        for j in 0..paths.len() {
            if i != j {
                assert_ne!(paths[i], paths[j]);
            }
        }
    }
}
