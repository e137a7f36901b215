use xrayctl::json::{Json, JsonNumber};
use xrayctl::xray::{make_tun_inbound, prepare_xray_config};

fn text(t: &str) -> Json {
    Json::String(t.to_string())
}

fn num(n: u64) -> Json {
    Json::Number(JsonNumber::PosInt(n))
}

fn obj(members: Vec<(&str, Json)>) -> Json {
    Json::Object(members.into_iter().map(|(k, v)| (k.to_string(), v)).collect())
}

fn inbounds(config: &Json) -> &Vec<Json> {
    config.get("inbounds").unwrap().as_array().unwrap()
}

fn profile() -> Json {
    obj(vec![
        ("remarks", text("Germany")),
        (
            "inbounds",
            Json::Array(vec![
                obj(vec![
                    ("protocol", text("socks")),
                    ("listen", text("0.0.0.0")),
                    ("port", num(10808)),
                    ("tag", text("socks")),
                ]),
                obj(vec![("protocol", text("http")), ("port", num(10809))]),
            ]),
        ),
        ("outbounds", Json::Array(vec![])),
    ])
}

#[test]
fn socks_inbound_listens_locally_on_9999() {
    let config = prepare_xray_config(profile()).unwrap();
    let socks = &inbounds(&config)[0];
    assert_eq!(socks.str_member("listen"), Some("127.0.0.1"));
    assert_eq!(socks.get("port").and_then(|p| p.as_u64()), Some(9999));
    assert_eq!(socks.str_member("tag"), Some("socks"));
    let http = &inbounds(&config)[1];
    assert_eq!(http.get("port").and_then(|p| p.as_u64()), Some(10809));
    assert!(http.get("listen").is_none());
}

#[test]
fn socks_inbound_without_listen_gets_one() {
    let config = obj(vec![("inbounds", Json::Array(vec![obj(vec![("protocol", text("socks"))])]))]);
    let config = prepare_xray_config(config).unwrap();
    let socks = &inbounds(&config)[0];
    assert_eq!(socks.str_member("listen"), Some("127.0.0.1"));
    assert_eq!(socks.get("port").and_then(|p| p.as_u64()), Some(9999));
}

#[test]
fn tun_inbound_is_added_once() {
    let config = prepare_xray_config(profile()).unwrap();
    let all = inbounds(&config);
    assert_eq!(all.len(), 3);
    let tun = &all[2];
    assert_eq!(tun.str_member("protocol"), Some("tun"));
    assert_eq!(tun.str_member("tag"), Some("tun"));
    let settings = tun.get("settings").unwrap();
    assert_eq!(settings.str_member("name"), Some("xray0"));
    assert_eq!(settings.get("mtu").and_then(|m| m.as_u64()), Some(1500));
    let gateway = settings.get("gateway").unwrap().as_array().unwrap();
    assert_eq!(gateway[0].as_str(), Some("10.10.0.1/30"));
    assert_eq!(settings.str_member("autoOutboundsInterface"), Some("auto"));
    let sniffing = tun.get("sniffing").unwrap();
    let dest = sniffing.get("destOverride").unwrap().as_array().unwrap();
    let names: Vec<&str> = dest.iter().map(|d| d.as_str().unwrap()).collect();
    assert_eq!(names, vec!["http", "tls", "quic"]);

    let again = prepare_xray_config(config).unwrap();
    assert_eq!(inbounds(&again).len(), 3);
}

#[test]
fn prepare_is_idempotent_on_an_example() {
    let once = prepare_xray_config(profile()).unwrap();
    let first = format!("{:?}", once);
    let twice = prepare_xray_config(once).unwrap();
    assert_eq!(format!("{:?}", twice), first);
}

#[test]
fn existing_tun_inbound_is_kept_alone() {
    let config = obj(vec![(
        "inbounds",
        Json::Array(vec![
            obj(vec![("protocol", text("socks"))]),
            obj(vec![("protocol", text("tun")), ("tag", text("mine"))]),
        ]),
    )]);
    let config = prepare_xray_config(config).unwrap();
    assert_eq!(inbounds(&config).len(), 2);
    assert_eq!(inbounds(&config)[1].str_member("tag"), Some("mine"));
}

#[test]
fn other_members_are_unchanged() {
    let config = prepare_xray_config(profile()).unwrap();
    assert_eq!(config.str_member("remarks"), Some("Germany"));
    assert_eq!(config.get("outbounds").and_then(|o| o.as_array()).map(|a| a.len()), Some(0));
}

#[test]
fn missing_inbounds_is_an_error() {
    let err = prepare_xray_config(obj(vec![("outbounds", Json::Array(vec![]))]));
    assert_eq!(err.unwrap_err(), "inbounds not found");
    let err = prepare_xray_config(obj(vec![("inbounds", text("none"))]));
    assert_eq!(err.unwrap_err(), "inbounds not found");
    let err = prepare_xray_config(Json::Array(vec![]));
    assert_eq!(err.unwrap_err(), "inbounds not found");
}

#[test]
fn missing_socks_inbound_is_an_error() {
    let config = obj(vec![("inbounds", Json::Array(vec![obj(vec![("protocol", text("http"))])]))]);
    assert_eq!(prepare_xray_config(config).unwrap_err(), "SOCKS inbound not found");
}

#[test]
fn tun_inbound_builder_names_xray0() {
    let tun = make_tun_inbound();
    assert_eq!(tun.get("settings").and_then(|s| s.str_member("name")), Some("xray0"));
    assert_eq!(tun.get("sniffing").and_then(|s| s.get("routeOnly")).map(|b| matches!(b, Json::Bool(true))), Some(true));
}
