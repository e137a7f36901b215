//! Reading the proxy server out of a subscription profile.
use vstd::prelude::*;

use crate::json::{seq_view, Json, JsonValue, NumberValue};
use crate::text::str_eq;

verus! {

/// An outbound whose `tag` is `"proxy"`.
pub open spec fn is_proxy_outbound(o: JsonValue) -> bool {
    o.str_member("tag"@) == Some("proxy"@)
}

/// Position `i` holds the first proxy outbound of `s`.
pub open spec fn proxy_at(s: Seq<JsonValue>, i: int) -> bool {
    &&& 0 <= i < s.len()
    &&& is_proxy_outbound(s[i])
    &&& forall|j: int| 0 <= j < i ==> !is_proxy_outbound(#[trigger] s[j])
}

/// The first proxy outbound of `s`, if any.
pub open spec fn first_proxy(s: Seq<JsonValue>) -> Option<JsonValue> {
    if exists|i: int| proxy_at(s, i) {
        Some(s[choose|i: int| proxy_at(s, i)])
    } else {
        None
    }
}

/// The first outbound of the profile's `outbounds` array tagged `"proxy"`.
pub open spec fn proxy_outbound(profile: JsonValue) -> Option<JsonValue> {
    match profile.get("outbounds"@) {
        Some(JsonValue::Array(s)) => first_proxy(s),
        _ => None,
    }
}

/// The first element of the `vnext` array of the proxy settings.
pub open spec fn first_server(settings: JsonValue) -> Option<JsonValue> {
    match settings.get("vnext"@) {
        Some(JsonValue::Array(a)) => if a.len() > 0 {
            Some(a[0])
        } else {
            None
        },
        _ => None,
    }
}

/// The settings of the profile's proxy outbound, or why there are none.
pub open spec fn proxy_settings(profile: JsonValue) -> Result<JsonValue, Seq<char>> {
    match proxy_outbound(profile) {
        None => Err("Proxy outbound not found"@),
        Some(o) => match o.get("settings"@) {
            None => Err("Proxy settings not found"@),
            Some(st) => Ok(st),
        },
    }
}

/// The proxy server's address: the `address` of the settings (Hysteria),
/// else the `address` of the first `vnext` server (VLESS).
pub open spec fn proxy_address_spec(profile: JsonValue) -> Result<Seq<char>, Seq<char>> {
    match proxy_settings(profile) {
        Err(e) => Err(e),
        Ok(st) => match st.str_member("address"@) {
            Some(a) => Ok(a),
            None => match first_server(st) {
                Some(server) => match server.str_member("address"@) {
                    Some(a) => Ok(a),
                    None => Err("Proxy address not found"@),
                },
                None => Err("Proxy address not found"@),
            },
        },
    }
}

/// A port number read from JSON: it must fit in 16 bits.
pub open spec fn port_of(n: u64) -> Result<u16, Seq<char>> {
    if n <= 0xffff {
        Ok(n as u16)
    } else {
        Err("Invalid proxy port"@)
    }
}

/// The proxy server's port: the `port` of the settings (Hysteria), else the
/// `port` of the first `vnext` server (VLESS).
pub open spec fn proxy_port_spec(profile: JsonValue) -> Result<u16, Seq<char>> {
    match proxy_settings(profile) {
        Err(e) => Err(e),
        Ok(st) => match st.get("port"@) {
            Some(p) if p.as_u64() is Some => port_of(p.as_u64()->0),
            _ => match first_server(st) {
                Some(server) => match server.get("port"@) {
                    Some(p) if p.as_u64() is Some => port_of(p.as_u64()->0),
                    _ => Err("Proxy port not found"@),
                },
                None => Err("Proxy port not found"@),
            },
        },
    }
}

/// The `protocol` of the proxy outbound, or `"unknown"`.
pub open spec fn protocol_spec(profile: JsonValue) -> Seq<char> {
    match proxy_outbound(profile) {
        Some(o) => match o.str_member("protocol"@) {
            Some(p) => p,
            None => "unknown"@,
        },
        None => "unknown"@,
    }
}

/// Two positions that both hold the first proxy outbound are the same.
proof fn lemma_proxy_at_unique(s: Seq<JsonValue>, i: int, j: int)
    requires
        proxy_at(s, i),
        proxy_at(s, j),
    ensures
        i == j,
{
    if i < j {
        assert(!is_proxy_outbound(s[i]));
    } else if j < i {
        assert(!is_proxy_outbound(s[j]));
    }
}

/// The first outbound tagged `"proxy"` is the profile's proxy outbound.
pub proof fn lemma_proxy_outbound_at(profile: JsonValue, s: Seq<JsonValue>, j: int)
    requires
        profile.get("outbounds"@) == Some(JsonValue::Array(s)),
        proxy_at(s, j),
    ensures
        proxy_outbound(profile) == Some(s[j]),
{
    let c = choose|i: int| proxy_at(s, i);
    lemma_proxy_at_unique(s, c, j);
}

/// A profile none of whose outbounds is tagged `"proxy"` has no proxy
/// outbound.
pub proof fn lemma_no_proxy_outbound(profile: JsonValue)
    requires
        forall|s: Seq<JsonValue>, j: int|
            profile.get("outbounds"@) == Some(JsonValue::Array(s)) && 0 <= j < s.len()
                ==> !is_proxy_outbound(#[trigger] s[j]),
    ensures
        proxy_outbound(profile) is None,
{
    if let Some(JsonValue::Array(s)) = profile.get("outbounds"@) {
        if exists|i: int| proxy_at(s, i) {
            let i = choose|i: int| proxy_at(s, i);
            assert(!is_proxy_outbound(s[i]));
        }
    }
}

/// The proxy server of a Hysteria profile is the `address` and `port` of
/// the settings of its first outbound tagged `"proxy"`, whatever other
/// outbounds there are. Every port that fits in 16 bits is accepted, and a
/// larger one is refused.
pub proof fn settings_give_the_proxy_server(profile: JsonValue, s: Seq<JsonValue>, j: int, st: JsonValue)
    requires
        profile.get("outbounds"@) == Some(JsonValue::Array(s)),
        proxy_at(s, j),
        s[j].get("settings"@) == Some(st),
    ensures
        st.str_member("address"@) matches Some(a) ==> proxy_address_spec(profile) == Ok::<Seq<char>, Seq<char>>(a),
        forall|n: u64|
            st.get("port"@) == Some(JsonValue::Number(NumberValue::PosInt(n))) ==> {
                &&& n <= 0xffff ==> proxy_port_spec(profile) == Ok::<u16, Seq<char>>(n as u16)
                &&& n > 0xffff ==> proxy_port_spec(profile) == Err::<u16, Seq<char>>("Invalid proxy port"@)
            },
{
    lemma_proxy_outbound_at(profile, s, j);
}

/// The proxy server of a VLESS profile, whose proxy settings name neither an
/// address nor a port, is the `address` and `port` of the first `vnext`
/// server. Every port that fits in 16 bits is accepted, and a larger one is
/// refused.
pub proof fn first_vnext_server_gives_the_proxy_server(
    profile: JsonValue,
    s: Seq<JsonValue>,
    j: int,
    st: JsonValue,
    servers: Seq<JsonValue>,
)
    requires
        profile.get("outbounds"@) == Some(JsonValue::Array(s)),
        proxy_at(s, j),
        s[j].get("settings"@) == Some(st),
        st.get("address"@) is None,
        st.get("port"@) is None,
        st.get("vnext"@) == Some(JsonValue::Array(servers)),
        servers.len() > 0,
    ensures
        servers[0].str_member("address"@) matches Some(a) ==> proxy_address_spec(profile) == Ok::<Seq<char>, Seq<char>>(a),
        forall|n: u64|
            servers[0].get("port"@) == Some(JsonValue::Number(NumberValue::PosInt(n))) ==> {
                &&& n <= 0xffff ==> proxy_port_spec(profile) == Ok::<u16, Seq<char>>(n as u16)
                &&& n > 0xffff ==> proxy_port_spec(profile) == Err::<u16, Seq<char>>("Invalid proxy port"@)
            },
{
    lemma_proxy_outbound_at(profile, s, j);
}

/// Whether `o` is an outbound tagged `"proxy"`.
fn is_proxy(o: &Json) -> (r: bool)
    ensures
        r == is_proxy_outbound(o@),
{
    match o.str_member("tag") {
        Some(tag) => str_eq(tag, "proxy"),
        None => false,
    }
}

/// Finds the first outbound of the profile tagged `"proxy"`.
pub fn find_proxy_outbound(profile: &Json) -> (r: Option<&Json>)
    ensures
        match r {
            Some(o) => proxy_outbound(profile@) == Some(o@),
            None => proxy_outbound(profile@) is None,
        },
{
    let outbounds = match profile.get("outbounds") {
        Some(v) => match v.as_array() {
            Some(a) => a,
            None => return None,
        },
        None => return None,
    };
    let ghost s = seq_view(outbounds@);
    let mut i: usize = 0;
    while i < outbounds.len()
        invariant
            s == seq_view(outbounds@),
            profile@.get("outbounds"@) == Some(JsonValue::Array(s)),
            i <= outbounds.len(),
            forall|j: int| 0 <= j < i ==> !is_proxy_outbound(#[trigger] s[j]),
        decreases outbounds.len() - i,
    {
        if is_proxy(&outbounds[i]) {
            assert(proxy_at(s, i as int));
            let ghost c = choose|c: int| proxy_at(s, c);
            assert(c == i) by {
                if c < i {
                    assert(!is_proxy_outbound(s[c]));
                } else if c > i {
                    assert(!is_proxy_outbound(s[i as int]));
                }
            }
            return Some(&outbounds[i]);
        }
        i = i + 1;
    }
    assert forall|c: int| !proxy_at(s, c) by {
        if 0 <= c < s.len() {
            assert(!is_proxy_outbound(s[c]));
        }
    }
    None
}

/// The settings of the proxy outbound.
fn proxy_settings_of(profile: &Json) -> (r: Result<&Json, String>)
    ensures
        match r {
            Ok(st) => proxy_settings(profile@) == Ok::<JsonValue, Seq<char>>(st@),
            Err(e) => proxy_settings(profile@) == Err::<JsonValue, Seq<char>>(e@),
        },
{
    let proxy = match find_proxy_outbound(profile) {
        Some(p) => p,
        None => return Err(String::from_str("Proxy outbound not found")),
    };
    match proxy.get("settings") {
        Some(st) => Ok(st),
        None => Err(String::from_str("Proxy settings not found")),
    }
}

/// The first element of the `vnext` array of the settings.
fn first_server_of(settings: &Json) -> (r: Option<&Json>)
    ensures
        match r {
            Some(v) => first_server(settings@) == Some(v@),
            None => first_server(settings@) is None,
        },
{
    match settings.get("vnext") {
        Some(v) => match v.as_array() {
            Some(a) => if a.len() > 0 {
                Some(&a[0])
            } else {
                None
            },
            None => None,
        },
        None => None,
    }
}

/// The address of the proxy server of a profile.
pub fn get_proxy_address(profile: &Json) -> (r: Result<String, String>)
    ensures
        match r {
            Ok(a) => proxy_address_spec(profile@) == Ok::<Seq<char>, Seq<char>>(a@),
            Err(e) => proxy_address_spec(profile@) == Err::<Seq<char>, Seq<char>>(e@),
        },
{
    let settings = match proxy_settings_of(profile) {
        Ok(st) => st,
        Err(e) => return Err(e),
    };
    if let Some(address) = settings.str_member("address") {
        return Ok(String::from_str(address));
    }
    if let Some(server) = first_server_of(settings) {
        if let Some(address) = server.str_member("address") {
            return Ok(String::from_str(address));
        }
    }
    Err(String::from_str("Proxy address not found"))
}

/// A port number read from JSON, checked to fit in 16 bits.
fn port_from(n: u64) -> (r: Result<u16, String>)
    ensures
        match r {
            Ok(p) => port_of(n) == Ok::<u16, Seq<char>>(p),
            Err(e) => port_of(n) == Err::<u16, Seq<char>>(e@),
        },
{
    if n <= 0xffff {
        Ok(n as u16)
    } else {
        Err(String::from_str("Invalid proxy port"))
    }
}

/// The port of the proxy server of a profile.
pub fn get_proxy_port(profile: &Json) -> (r: Result<u16, String>)
    ensures
        match r {
            Ok(p) => proxy_port_spec(profile@) == Ok::<u16, Seq<char>>(p),
            Err(e) => proxy_port_spec(profile@) == Err::<u16, Seq<char>>(e@),
        },
{
    let settings = match proxy_settings_of(profile) {
        Ok(st) => st,
        Err(e) => return Err(e),
    };
    if let Some(p) = settings.get("port") {
        if let Some(port) = p.as_u64() {
            return port_from(port);
        }
    }
    if let Some(server) = first_server_of(settings) {
        if let Some(p) = server.get("port") {
            if let Some(port) = p.as_u64() {
                return port_from(port);
            }
        }
    }
    Err(String::from_str("Proxy port not found"))
}

/// The protocol of the profile's proxy outbound, or `"unknown"`.
pub fn get_protocol(profile: &Json) -> (r: &str)
    ensures
        r@ == protocol_spec(profile@),
{
    match find_proxy_outbound(profile) {
        Some(proxy) => match proxy.str_member("protocol") {
            Some(p) => p,
            None => "unknown",
        },
        None => "unknown",
    }
}

} // verus!
