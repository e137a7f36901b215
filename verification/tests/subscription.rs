use xrayctl::json::{Json, JsonNumber};
use xrayctl::subscription::{find_proxy_outbound, get_protocol, get_proxy_address, get_proxy_port};

fn text(t: &str) -> Json {
    Json::String(t.to_string())
}

fn num(n: u64) -> Json {
    Json::Number(JsonNumber::PosInt(n))
}

fn obj(members: Vec<(&str, Json)>) -> Json {
    Json::Object(members.into_iter().map(|(k, v)| (k.to_string(), v)).collect())
}

fn hysteria_profile() -> Json {
    obj(vec![
        ("remarks", text("Finland")),
        (
            "outbounds",
            Json::Array(vec![
                obj(vec![("tag", text("direct")), ("protocol", text("freedom"))]),
                obj(vec![
                    ("tag", text("proxy")),
                    ("protocol", text("hysteria")),
                    (
                        "settings",
                        obj(vec![("address", text("fi.example.com")), ("port", num(8443))]),
                    ),
                ]),
            ]),
        ),
    ])
}

fn vless_profile(port: Json) -> Json {
    obj(vec![(
        "outbounds",
        Json::Array(vec![obj(vec![
            ("protocol", text("vless")),
            ("tag", text("proxy")),
            (
                "settings",
                obj(vec![(
                    "vnext",
                    Json::Array(vec![obj(vec![("address", text("203.0.113.7")), ("port", port)])]),
                )]),
            ),
        ])]),
    )])
}

#[test]
fn finds_the_outbound_tagged_proxy() {
    let profile = hysteria_profile();
    let proxy = find_proxy_outbound(&profile).unwrap();
    assert_eq!(proxy.str_member("protocol"), Some("hysteria"));
}

#[test]
fn no_proxy_outbound_without_outbounds() {
    let profile = obj(vec![("remarks", text("x"))]);
    assert!(find_proxy_outbound(&profile).is_none());
    assert_eq!(get_protocol(&profile), "unknown");
    assert_eq!(get_proxy_address(&profile), Err("Proxy outbound not found".to_string()));
    assert_eq!(get_proxy_port(&profile), Err("Proxy outbound not found".to_string()));
}

#[test]
fn first_proxy_outbound_wins() {
    let profile = obj(vec![(
        "outbounds",
        Json::Array(vec![
            obj(vec![("tag", text("proxy")), ("protocol", text("first"))]),
            obj(vec![("tag", text("proxy")), ("protocol", text("second"))]),
        ]),
    )]);
    assert_eq!(get_protocol(&profile), "first");
}

#[test]
fn hysteria_address_and_port_come_from_settings() {
    let profile = hysteria_profile();
    assert_eq!(get_proxy_address(&profile), Ok("fi.example.com".to_string()));
    assert_eq!(get_proxy_port(&profile), Ok(8443));
    assert_eq!(get_protocol(&profile), "hysteria");
}

#[test]
fn vless_address_and_port_come_from_the_first_server() {
    let profile = vless_profile(num(443));
    assert_eq!(get_proxy_address(&profile), Ok("203.0.113.7".to_string()));
    assert_eq!(get_proxy_port(&profile), Ok(443));
    assert_eq!(get_protocol(&profile), "vless");
}

#[test]
fn port_above_16_bits_is_invalid() {
    let profile = vless_profile(num(70000));
    assert_eq!(get_proxy_port(&profile), Err("Invalid proxy port".to_string()));
}

#[test]
fn port_that_is_not_a_number_is_not_found() {
    let profile = vless_profile(text("443"));
    assert_eq!(get_proxy_port(&profile), Err("Proxy port not found".to_string()));
    let negative = vless_profile(Json::Number(JsonNumber::NegInt(-1)));
    assert_eq!(get_proxy_port(&negative), Err("Proxy port not found".to_string()));
}

#[test]
fn missing_settings_are_reported() {
    let profile = obj(vec![(
        "outbounds",
        Json::Array(vec![obj(vec![("tag", text("proxy"))])]),
    )]);
    assert_eq!(get_proxy_address(&profile), Err("Proxy settings not found".to_string()));
    assert_eq!(get_proxy_port(&profile), Err("Proxy settings not found".to_string()));
    assert_eq!(get_protocol(&profile), "unknown");
}

#[test]
fn missing_address_is_reported() {
    let profile = obj(vec![(
        "outbounds",
        Json::Array(vec![obj(vec![("tag", text("proxy")), ("settings", obj(vec![]))])]),
    )]);
    assert_eq!(get_proxy_address(&profile), Err("Proxy address not found".to_string()));
    assert_eq!(get_proxy_port(&profile), Err("Proxy port not found".to_string()));
}

#[test]
fn json_accessors_read_members() {
    let profile = hysteria_profile();
    assert_eq!(profile.get("remarks").and_then(|v| v.as_str()), Some("Finland"));
    assert!(profile.get("missing").is_none());
    assert_eq!(profile.get("outbounds").and_then(|v| v.as_array()).map(|a| a.len()), Some(2));
    assert_eq!(num(5).as_u64(), Some(5));
    assert_eq!(Json::Number(JsonNumber::Float("1.5".to_string())).as_u64(), None);
    assert!(text("a").get("x").is_none());
}
