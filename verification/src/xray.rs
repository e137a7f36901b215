//! Preparing an Xray configuration from a profile, and planning the TUN
//! routes and the process bookkeeping around a running Xray.
use vstd::prelude::*;

use crate::json::{
    distinct_names, find_member, json_wf, key_at, key_index, lemma_key_index_at,
    lemma_member_set_same, lemma_member_set_wf, member_lookup, member_set, members_view,
    read_after_set_member, seq_view, Json, JsonNumber, JsonValue, NumberValue,
};
use crate::text::{
    all_digits, decimal, decimal_spec, is_white_space, lemma_decimal_digits, parse_u32,
    parse_u32_spec, split_whitespace, str_eq, trim, trim_end_spec, trim_spec, trim_start_spec,
    unsigned_digits, words,
};

verus! {

/// The address the local SOCKS inbound listens on.
pub open spec fn socks_host() -> Seq<char> {
    "127.0.0.1"@
}

/// The port the local SOCKS inbound listens on.
pub open spec fn socks_port() -> u64 {
    9999
}

/// Whether `inbound` declares the protocol `p`.
pub open spec fn has_protocol(inbound: JsonValue, p: Seq<char>) -> bool {
    inbound.str_member("protocol"@) == Some(p)
}

/// `v` with its member `key` set to `value`, where `v` is an object;
/// any other value is left as it is.
pub open spec fn with_member(v: JsonValue, key: Seq<char>, value: JsonValue) -> JsonValue {
    match v {
        JsonValue::Object(m) => JsonValue::Object(member_set(m, key, value)),
        _ => v,
    }
}

/// A SOCKS inbound bound to the local SOCKS address; other inbounds unchanged.
pub open spec fn localize_inbound(inbound: JsonValue) -> JsonValue {
    if has_protocol(inbound, "socks"@) {
        with_member(
            with_member(inbound, "listen"@, JsonValue::Str(socks_host())),
            "port"@,
            JsonValue::Number(NumberValue::PosInt(socks_port())),
        )
    } else {
        inbound
    }
}

/// Whether some inbound of `s` declares the protocol `p`.
pub open spec fn any_protocol(s: Seq<JsonValue>, p: Seq<char>) -> bool {
    exists|i: int| 0 <= i < s.len() && has_protocol(#[trigger] s[i], p)
}

/// The name of the TUN interface that Xray creates.
pub open spec fn tun_name() -> Seq<char> {
    "xray0"@
}

/// The address and prefix of the TUN interface.
pub open spec fn tun_gateway() -> Seq<char> {
    "10.10.0.1/30"@
}

fn text(s: &str) -> (r: Json)
    ensures
        r@ == JsonValue::Str(s@),
{
    Json::String(String::from_str(s))
}

/// The TUN inbound added to a configuration that has none.
pub open spec fn tun_inbound() -> JsonValue {
    JsonValue::Object(
        seq![
            ("tag"@, JsonValue::Str("tun"@)),
            ("protocol"@, JsonValue::Str("tun"@)),
            (
                "settings"@,
                JsonValue::Object(
                    seq![
                        ("name"@, JsonValue::Str(tun_name())),
                        ("mtu"@, JsonValue::Number(NumberValue::PosInt(1500))),
                        ("gateway"@, JsonValue::Array(seq![JsonValue::Str(tun_gateway())])),
                        ("autoSystemRoutingTable"@, JsonValue::Bool(true)),
                        ("autoOutboundsInterface"@, JsonValue::Str("auto"@)),
                    ],
                ),
            ),
            (
                "sniffing"@,
                JsonValue::Object(
                    seq![
                        ("enabled"@, JsonValue::Bool(true)),
                        (
                            "destOverride"@,
                            JsonValue::Array(
                                seq![
                                    JsonValue::Str("http"@),
                                    JsonValue::Str("tls"@),
                                    JsonValue::Str("quic"@),
                                ],
                            ),
                        ),
                        ("routeOnly"@, JsonValue::Bool(true)),
                    ],
                ),
            ),
        ],
    )
}

fn object(m: Vec<(String, Json)>) -> (r: Json)
    ensures
        r@ == JsonValue::Object(members_view(m@)),
{
    Json::Object(m)
}

fn array(v: Vec<Json>) -> (r: Json)
    ensures
        r@ == JsonValue::Array(seq_view(v@)),
{
    Json::Array(v)
}

/// Builds the TUN inbound.
pub fn make_tun_inbound() -> (r: Json)
    ensures
        r@ == tun_inbound(),
{
    let ghost spec_settings = seq![
        ("name"@, JsonValue::Str(tun_name())),
        ("mtu"@, JsonValue::Number(NumberValue::PosInt(1500))),
        ("gateway"@, JsonValue::Array(seq![JsonValue::Str(tun_gateway())])),
        ("autoSystemRoutingTable"@, JsonValue::Bool(true)),
        ("autoOutboundsInterface"@, JsonValue::Str("auto"@)),
    ];
    let ghost spec_dest = seq![JsonValue::Str("http"@), JsonValue::Str("tls"@), JsonValue::Str("quic"@)];
    let mut gateway: Vec<Json> = Vec::new();
    gateway.push(text("10.10.0.1/30"));
    assert(seq_view(gateway@) =~= seq![JsonValue::Str(tun_gateway())]);
    let gateway = array(gateway);
    let mut settings: Vec<(String, Json)> = Vec::new();
    settings.push((String::from_str("name"), text("xray0")));
    settings.push((String::from_str("mtu"), Json::Number(JsonNumber::PosInt(1500))));
    settings.push((String::from_str("gateway"), gateway));
    settings.push((String::from_str("autoSystemRoutingTable"), Json::Bool(true)));
    settings.push((String::from_str("autoOutboundsInterface"), text("auto")));
    assert(members_view(settings@) =~= spec_settings);
    let settings = object(settings);
    let mut dest: Vec<Json> = Vec::new();
    dest.push(text("http"));
    dest.push(text("tls"));
    dest.push(text("quic"));
    assert(seq_view(dest@) =~= spec_dest);
    let dest = array(dest);
    let ghost spec_sniffing = seq![
        ("enabled"@, JsonValue::Bool(true)),
        ("destOverride"@, JsonValue::Array(spec_dest)),
        ("routeOnly"@, JsonValue::Bool(true)),
    ];
    let mut sniffing: Vec<(String, Json)> = Vec::new();
    sniffing.push((String::from_str("enabled"), Json::Bool(true)));
    sniffing.push((String::from_str("destOverride"), dest));
    sniffing.push((String::from_str("routeOnly"), Json::Bool(true)));
    assert(members_view(sniffing@) =~= spec_sniffing);
    let sniffing = object(sniffing);
    let mut tun: Vec<(String, Json)> = Vec::new();
    tun.push((String::from_str("tag"), text("tun")));
    tun.push((String::from_str("protocol"), text("tun")));
    tun.push((String::from_str("settings"), settings));
    tun.push((String::from_str("sniffing"), sniffing));
    let ghost spec_tun = seq![
        ("tag"@, JsonValue::Str("tun"@)),
        ("protocol"@, JsonValue::Str("tun"@)),
        ("settings"@, JsonValue::Object(spec_settings)),
        ("sniffing"@, JsonValue::Object(spec_sniffing)),
    ];
    assert(members_view(tun@) =~= spec_tun);
    object(tun)
}


/// The texts of a list of strings.
pub open spec fn texts_view(v: Seq<String>) -> Seq<Seq<char>> {
    v.map_values(|t: String| t@)
}

/// The text of an optional string.
pub open spec fn opt_text(o: Option<String>) -> Option<Seq<char>> {
    match o {
        Some(t) => Some(t@),
        None => None,
    }
}

/// The word that follows the last occurrence of `key` among the words `ts`
/// (an occurrence that is the last word has none).
pub open spec fn value_after(ts: Seq<Seq<char>>, key: Seq<char>) -> Option<Seq<char>>
    decreases ts.len(),
{
    if ts.len() < 2 {
        None
    } else if ts[ts.len() - 2] == key {
        Some(ts.last())
    } else {
        value_after(ts.drop_last(), key)
    }
}

/// The uplink that `ip route get` reports: the gateway after `via` and the
/// interface after `dev`.
#[derive(Debug)]
pub struct RouteInfo {
    pub gateway: Option<String>,
    pub interface: Option<String>,
}

/// Reads the gateway and the interface out of the output of `ip route get`.
pub fn parse_route(output: &str) -> (r: RouteInfo)
    ensures
        opt_text(r.gateway) == value_after(words(output@), "via"@),
        opt_text(r.interface) == value_after(words(output@), "dev"@),
{
    let parts = split_whitespace(output);
    let ghost ts = words(output@);
    let n = parts.len();
    let mut gateway: Option<String> = None;
    let mut interface: Option<String> = None;
    if n == 0 {
        return RouteInfo { gateway, interface };
    }
    let mut i: usize = 0;
    while i + 1 < n
        invariant
            n == parts@.len(),
            n == ts.len(),
            n >= 1,
            i + 1 <= n,
            forall|k: int| 0 <= k < n ==> #[trigger] parts@[k]@ == ts[k],
            opt_text(gateway) == value_after(ts.take(i + 1), "via"@),
            opt_text(interface) == value_after(ts.take(i + 1), "dev"@),
        decreases n - i,
    {
        let ghost pre = ts.take(i + 2);
        assert(pre.drop_last() =~= ts.take(i + 1));
        assert(pre[pre.len() - 2] == ts[i as int]);
        assert(pre.last() == ts[i + 1]);
        if str_eq(parts[i], "via") {
            gateway = Some(String::from_str(parts[i + 1]));
        }
        if str_eq(parts[i], "dev") {
            interface = Some(String::from_str(parts[i + 1]));
        }
        i = i + 1;
    }
    assert(ts.take(n as int) =~= ts);
    RouteInfo { gateway, interface }
}

fn texts(v: Vec<&str>) -> (r: Vec<String>)
    ensures
        texts_view(r@) == v@.map_values(|t: &str| t@),
{
    let mut r: Vec<String> = Vec::new();
    let mut i: usize = 0;
    while i < v.len()
        invariant
            i <= v.len(),
            r@.len() == i,
            forall|k: int| 0 <= k < i ==> #[trigger] r@[k]@ == v@[k]@,
        decreases v.len() - i,
    {
        r.push(String::from_str(v[i]));
        i = i + 1;
    }
    assert(texts_view(r@) =~= v@.map_values(|t: &str| t@));
    r
}

/// The arguments of `ip` that ask for the route to `proxy_ip`.
pub fn route_query_args(proxy_ip: &str) -> (r: Vec<String>)
    ensures
        texts_view(r@) == seq!["route"@, "get"@, proxy_ip@],
{
    let mut v: Vec<&str> = Vec::new();
    v.push("route");
    v.push("get");
    v.push(proxy_ip);
    let r = texts(v);
    assert(v@.map_values(|t: &str| t@) =~= seq!["route"@, "get"@, proxy_ip@]);
    r
}

/// The `sudo` command that keeps the route to the proxy server on the uplink:
/// through the gateway where there is one; an error where the uplink
/// interface is unknown.
pub open spec fn proxy_route_spec(proxy_ip: Seq<char>, gateway: Option<Seq<char>>, interface: Option<Seq<char>>) -> Result<Seq<Seq<char>>, Seq<char>> {
    match interface {
        None => Err("Could not determine network interface"@),
        Some(dev) => Ok(
            match gateway {
                Some(gw) => seq![
                    "ip"@,
                    "route"@,
                    "replace"@,
                    proxy_ip + "/32"@,
                    "via"@,
                    gw,
                    "dev"@,
                    dev,
                ],
                None => seq!["ip"@, "route"@, "replace"@, proxy_ip + "/32"@, "dev"@, dev],
            },
        ),
    }
}

/// The arguments of the `sudo` command that routes `proxy_ip` over the uplink.
pub fn proxy_route_args(proxy_ip: &str, route: &RouteInfo) -> (r: Result<Vec<String>, String>)
    ensures
        match r {
            Ok(v) => proxy_route_spec(proxy_ip@, opt_text(route.gateway), opt_text(route.interface))
                == Ok::<Seq<Seq<char>>, Seq<char>>(texts_view(v@)),
            Err(e) => proxy_route_spec(proxy_ip@, opt_text(route.gateway), opt_text(route.interface))
                == Err::<Seq<Seq<char>>, Seq<char>>(e@),
        },
{
    let dev = match &route.interface {
        Some(d) => d,
        None => return Err(String::from_str("Could not determine network interface")),
    };
    let host = String::from_str(proxy_ip).concat("/32");
    let mut v: Vec<&str> = Vec::new();
    v.push("ip");
    v.push("route");
    v.push("replace");
    v.push(host.as_str());
    match &route.gateway {
        Some(gw) => {
            v.push("via");
            v.push(gw.as_str());
        },
        None => {},
    }
    v.push("dev");
    v.push(dev.as_str());
    let r = texts(v);
    assert(texts_view(r@) =~= proxy_route_spec(proxy_ip@, opt_text(route.gateway), opt_text(route.interface))->Ok_0);
    Ok(r)
}

/// The arguments of the `sudo` command that gives the TUN interface its
/// address: the gateway of the TUN inbound, on the interface it names.
pub fn tun_address_args() -> (r: Vec<String>)
    ensures
        texts_view(r@) == seq!["ip"@, "addr"@, "replace"@, tun_gateway(), "dev"@, tun_name()],
{
    let mut v: Vec<&str> = Vec::new();
    v.push("ip");
    v.push("addr");
    v.push("replace");
    v.push("10.10.0.1/30");
    v.push("dev");
    v.push("xray0");
    let r = texts(v);
    assert(v@.map_values(|t: &str| t@) =~= seq!["ip"@, "addr"@, "replace"@, tun_gateway(), "dev"@, tun_name()]);
    r
}

/// The arguments of the `sudo` command that sends the default route through
/// the TUN interface.
pub fn default_route_args() -> (r: Vec<String>)
    ensures
        texts_view(r@) == seq!["ip"@, "route"@, "replace"@, "default"@, "dev"@, tun_name()],
{
    let mut v: Vec<&str> = Vec::new();
    v.push("ip");
    v.push("route");
    v.push("replace");
    v.push("default");
    v.push("dev");
    v.push("xray0");
    let r = texts(v);
    assert(v@.map_values(|t: &str| t@) =~= seq!["ip"@, "route"@, "replace"@, "default"@, "dev"@, tun_name()]);
    r
}

/// The `sudo` commands that set up TUN routing, in the order they run.
#[derive(Debug, Clone, Copy, PartialEq, Eq, Structural)]
pub enum TunSetupStep {
    /// Keep the route to the proxy server on the uplink (`proxy_route_args`).
    ProxyRoute,
    /// Give `xray0` its address (`tun_address_args`).
    TunAddress,
    /// Send the default route through `xray0` (`default_route_args`).
    DefaultRoute,
}

/// What to do after a TUN setup command has run.
#[derive(Debug)]
pub enum TunSetupAction {
    /// Run this command next.
    Run(TunSetupStep),
    /// TUN routing is set up.
    Done,
    /// Stop setting up, with this error.
    Fail(String),
}

/// The command that runs after `step` succeeded, if any.
pub open spec fn tun_setup_next(step: TunSetupStep) -> Option<TunSetupStep> {
    match step {
        TunSetupStep::ProxyRoute => Some(TunSetupStep::TunAddress),
        TunSetupStep::TunAddress => Some(TunSetupStep::DefaultRoute),
        TunSetupStep::DefaultRoute => None,
    }
}

/// The error when the command `step` fails.
pub open spec fn tun_setup_error(step: TunSetupStep) -> Seq<char> {
    match step {
        TunSetupStep::ProxyRoute => "Failed to create route to Xray server"@,
        TunSetupStep::TunAddress => "Failed to assign address to xray0"@,
        TunSetupStep::DefaultRoute => "Failed to configure default route through xray0"@,
    }
}

/// Decides what follows the TUN setup command `step`, which succeeded or not
/// (`ok`): the next command after a success, done after the last one, and an
/// error at the first failure.
pub fn tun_setup_step(step: TunSetupStep, ok: bool) -> (r: TunSetupAction)
    ensures
        !ok ==> (r matches TunSetupAction::Fail(e) && e@ == tun_setup_error(step)),
        ok ==> match tun_setup_next(step) {
            Some(next) => (r matches TunSetupAction::Run(s) && s == next),
            None => r is Done,
        },
{
    if !ok {
        return match step {
            TunSetupStep::ProxyRoute => TunSetupAction::Fail(String::from_str("Failed to create route to Xray server")),
            TunSetupStep::TunAddress => TunSetupAction::Fail(String::from_str("Failed to assign address to xray0")),
            TunSetupStep::DefaultRoute => TunSetupAction::Fail(
                String::from_str("Failed to configure default route through xray0"),
            ),
        };
    }
    match step {
        TunSetupStep::ProxyRoute => TunSetupAction::Run(TunSetupStep::TunAddress),
        TunSetupStep::TunAddress => TunSetupAction::Run(TunSetupStep::DefaultRoute),
        TunSetupStep::DefaultRoute => TunSetupAction::Done,
    }
}

/// The commands that TUN setup runs, starting with `step`, when the commands
/// it runs report the outcomes `oks` in turn (a missing outcome: not run yet).
pub open spec fn tun_setup_commands(step: TunSetupStep, oks: Seq<bool>) -> Seq<TunSetupStep>
    decreases oks.len(),
{
    if oks.len() == 0 || !oks[0] {
        seq![step]
    } else {
        match tun_setup_next(step) {
            Some(next) => seq![step] + tun_setup_commands(next, oks.drop_first()),
            None => seq![step],
        }
    }
}

/// TUN setup runs the proxy route first, then the `xray0` address, then the
/// default route, each only after the one before it succeeded: the default
/// route is never sent through `xray0` unless both earlier commands succeeded.
pub proof fn tun_setup_runs_in_order(oks: Seq<bool>)
    ensures
        ({
            let cmds = tun_setup_commands(TunSetupStep::ProxyRoute, oks);
            &&& 1 <= cmds.len() <= 3
            &&& cmds[0] == TunSetupStep::ProxyRoute
            &&& cmds.len() >= 2 ==> cmds[1] == TunSetupStep::TunAddress && oks[0]
            &&& cmds.len() >= 3 ==> cmds[2] == TunSetupStep::DefaultRoute && oks[1]
            &&& forall|k: int| 0 <= k < cmds.len() && cmds[k] == TunSetupStep::DefaultRoute ==> k == 2 && oks[0] && oks[1]
        }),
{
    let cmds = tun_setup_commands(TunSetupStep::ProxyRoute, oks);
    if oks.len() > 0 && oks[0] {
        let o1 = oks.drop_first();
        let c1 = tun_setup_commands(TunSetupStep::TunAddress, o1);
        if o1.len() > 0 && o1[0] {
            let o2 = o1.drop_first();
            let c2 = tun_setup_commands(TunSetupStep::DefaultRoute, o2);
            assert(c2 =~= seq![TunSetupStep::DefaultRoute]);
            assert(c1 =~= seq![TunSetupStep::TunAddress, TunSetupStep::DefaultRoute]);
            assert(cmds =~= seq![TunSetupStep::ProxyRoute, TunSetupStep::TunAddress, TunSetupStep::DefaultRoute]);
        } else {
            assert(c1 =~= seq![TunSetupStep::TunAddress]);
            assert(cmds =~= seq![TunSetupStep::ProxyRoute, TunSetupStep::TunAddress]);
        }
    } else {
        assert(cmds =~= seq![TunSetupStep::ProxyRoute]);
    }
}

/// How many times `xrayctl` checks for the TUN interface before it gives up.
pub open spec fn tun_checks() -> nat {
    50
}

/// What to do after a check for the TUN interface.
#[derive(Debug)]
pub enum TunWait {
    /// The interface is up.
    Ready,
    /// Wait a moment, then check again.
    SleepThenCheck,
    /// Wait a moment, then give up.
    SleepThenGiveUp,
}

/// Decides, after the `checks_done`-th check found the interface `link_up` or
/// not, whether the TUN interface is ready, or else whether to check again.
pub fn tun_wait_step(checks_done: u32, link_up: bool) -> (r: TunWait)
    requires
        1 <= checks_done <= tun_checks(),
    ensures
        link_up ==> r is Ready,
        !link_up && checks_done < tun_checks() ==> r is SleepThenCheck,
        !link_up && checks_done == tun_checks() ==> r is SleepThenGiveUp,
{
    if link_up {
        TunWait::Ready
    } else if checks_done < 50 {
        TunWait::SleepThenCheck
    } else {
        TunWait::SleepThenGiveUp
    }
}

/// The error of a TUN interface `name` that never came up.
pub fn tun_timeout_error(name: &str) -> (r: String)
    ensures
        r@ == "Interface "@ + name@ + " did not appear"@,
{
    String::from_str("Interface ").concat(name).concat(" did not appear")
}

/// Reads the PID file's content: its decimal number, white space around it
/// ignored.
pub fn parse_pid(content: &str) -> (r: Option<u32>)
    ensures
        r == parse_u32_spec(trim_spec(content@)),
{
    parse_u32(trim(content))
}

/// The content that the PID file gets: the PID in decimal.
pub fn pid_text(pid: u32) -> (r: String)
    ensures
        r@ == decimal_spec(pid as nat),
{
    decimal(pid)
}

/// Reading back the PID file that `xrayctl` wrote gives the PID it wrote.
pub proof fn pid_file_round_trip(pid: u32)
    ensures
        parse_u32_spec(trim_spec(decimal_spec(pid as nat))) == Some(pid),
{
    let d = decimal_spec(pid as nat);
    lemma_decimal_digits(pid as nat);
    assert(!is_white_space(d[0]));
    assert(!is_white_space(d.last()));
    assert(trim_start_spec(d) == d);
    assert(trim_end_spec(d) == d);
    assert(d[0] != '+');
    assert(unsigned_digits(d) == d);
    assert(all_digits(d));
}

/// Sets the member `key` of an object to `value`, as indexing a
/// `serde_json::Value` object by `key` and assigning does.
fn set_member(v: Json, key: &str, value: Json) -> (r: Json)
    ensures
        r@ == with_member(v@, key@, value@),
{
    let ghost vv = v@;
    let ghost val = value@;
    match v {
        Json::Object(mut m) => {
            let ghost mv = members_view(m@);
            match find_member(&m, key) {
                Some(i) => {
                    m.set(i, (String::from_str(key), value));
                    assert(members_view(m@) =~= mv.update(i as int, (key@, val)));
                },
                None => {
                    m.push((String::from_str(key), value));
                    assert(members_view(m@) =~= mv.push((key@, val)));
                },
            }
            Json::Object(m)
        },
        other => other,
    }
}

/// Every inbound of `s`, SOCKS inbounds bound to the local SOCKS address.
pub open spec fn localize_all(s: Seq<JsonValue>) -> Seq<JsonValue> {
    s.map_values(|i: JsonValue| localize_inbound(i))
}

/// `s`, with the TUN inbound added at the end where no inbound is a TUN one.
pub open spec fn with_tun(s: Seq<JsonValue>) -> Seq<JsonValue> {
    if any_protocol(s, "tun"@) {
        s
    } else {
        s.push(tun_inbound())
    }
}

/// The Xray configuration made from a profile: every SOCKS inbound listens
/// on the local SOCKS address, a TUN inbound is present, and nothing else
/// changes. The profile must be an object with an `inbounds` array that holds
/// a SOCKS inbound.
pub open spec fn prepare_spec(config: JsonValue) -> Result<JsonValue, Seq<char>> {
    match config {
        JsonValue::Object(m) => match member_lookup(m, "inbounds"@) {
            Some(JsonValue::Array(s)) => if any_protocol(s, "socks"@) {
                Ok(
                    JsonValue::Object(
                        member_set(m, "inbounds"@, JsonValue::Array(with_tun(localize_all(s)))),
                    ),
                )
            } else {
                Err("SOCKS inbound not found"@)
            },
            _ => Err("inbounds not found"@),
        },
        _ => Err("inbounds not found"@),
    }
}

/// Whether `inbound` declares the protocol `p`.
fn protocol_is(inbound: &Json, p: &str) -> (r: bool)
    ensures
        r == has_protocol(inbound@, p@),
{
    match inbound.str_member("protocol") {
        Some(q) => str_eq(q, p),
        None => false,
    }
}

/// Whether some inbound of `v` declares the protocol `p`.
fn any_inbound(v: &Vec<Json>, p: &str) -> (r: bool)
    ensures
        r == any_protocol(seq_view(v@), p@),
{
    let ghost s = seq_view(v@);
    let mut i: usize = 0;
    while i < v.len()
        invariant
            s == seq_view(v@),
            i <= v.len(),
            forall|k: int| 0 <= k < i ==> !has_protocol(#[trigger] s[k], p@),
        decreases v.len() - i,
    {
        if protocol_is(&v[i], p) {
            assert(has_protocol(s[i as int], p@));
            return true;
        }
        i = i + 1;
    }
    false
}

/// Binds a SOCKS inbound to the local SOCKS address.
fn localize(inbound: Json) -> (r: Json)
    ensures
        r@ == localize_inbound(inbound@),
{
    if protocol_is(&inbound, "socks") {
        let listen = set_member(inbound, "listen", text("127.0.0.1"));
        set_member(listen, "port", Json::Number(JsonNumber::PosInt(9999)))
    } else {
        inbound
    }
}

/// Turns a profile into the Xray configuration that `xrayctl` runs: every
/// SOCKS inbound listens on `127.0.0.1:9999`, and a TUN inbound on `xray0`
/// is added unless the profile has one.
pub fn prepare_xray_config(config: Json) -> (r: Result<Json, String>)
    ensures
        match r {
            Ok(c) => prepare_spec(config@) == Ok::<JsonValue, Seq<char>>(c@),
            Err(e) => prepare_spec(config@) == Err::<JsonValue, Seq<char>>(e@),
        },
{
    let ghost cv = config@;
    let mut m = match config {
        Json::Object(m) => m,
        _ => return Err(String::from_str("inbounds not found")),
    };
    let ghost mv = members_view(m@);
    let idx = match find_member(&m, "inbounds") {
        Some(i) => i,
        None => return Err(String::from_str("inbounds not found")),
    };
    let (key, value) = m.remove(idx);
    let ghost rest = members_view(m@);
    assert(rest =~= mv.remove(idx as int));
    let mut inbounds = match value {
        Json::Array(v) => v,
        _ => return Err(String::from_str("inbounds not found")),
    };
    let ghost orig = seq_view(inbounds@);
    assert(mv[idx as int].1 == JsonValue::Array(orig));
    let n = inbounds.len();
    let mut out: Vec<Json> = Vec::new();
    let mut socks_found = false;
    let mut i: usize = 0;
    while i < n
        invariant
            n == inbounds.len(),
            n == orig.len(),
            i <= n,
            forall|k: int| i <= k < n ==> #[trigger] inbounds@[k]@ == orig[k],
            out@.len() == i,
            forall|k: int| 0 <= k < i ==> #[trigger] out@[k]@ == localize_inbound(orig[k]),
            socks_found == exists|k: int| 0 <= k < i && has_protocol(#[trigger] orig[k], "socks"@),
        decreases n - i,
    {
        let mut item = Json::Null;
        std::mem::swap(&mut item, &mut inbounds[i]);
        assert(item@ == orig[i as int]);
        if protocol_is(&item, "socks") {
            socks_found = true;
        } else {
            assert forall|k: int| 0 <= k < i + 1 && has_protocol(#[trigger] orig[k], "socks"@) implies k < i by {
                if k == i {
                    assert(!has_protocol(orig[i as int], "socks"@));
                }
            }
        }
        out.push(localize(item));
        i = i + 1;
    }
    assert(orig.len() == n);
    if !socks_found {
        assert(!any_protocol(orig, "socks"@));
        return Err(String::from_str("SOCKS inbound not found"));
    }
    assert forall|k: int| 0 <= k < n implies #[trigger] seq_view(out@)[k] == localize_all(orig)[k] by {
        assert(out@[k]@ == localize_inbound(orig[k]));
    }
    assert(seq_view(out@) =~= localize_all(orig));
    if !any_inbound(&out, "tun") {
        out.push(make_tun_inbound());
        assert(seq_view(out@) =~= localize_all(orig).push(tun_inbound()));
    }
    let ghost fresh = seq_view(out@);
    assert(fresh == with_tun(localize_all(orig)));
    m.insert(idx, (key, Json::Array(out)));
    assert(members_view(m@) =~= mv.update(idx as int, ("inbounds"@, JsonValue::Array(fresh))));
    Ok(Json::Object(m))
}


proof fn reveal_member_names()
    ensures
        "listen"@ != "protocol"@,
        "port"@ != "protocol"@,
        "port"@ != "listen"@,
        "tag"@ != "protocol"@,
        "tun"@ != "socks"@,
{
    reveal_strlit("listen");
    reveal_strlit("protocol");
    reveal_strlit("port");
    reveal_strlit("tag");
    reveal_strlit("tun");
    reveal_strlit("socks");
    assert("listen"@[0] != "protocol"@[0]);
    assert("port"@[1] != "protocol"@[1]);
    assert("tun"@.len() != "socks"@.len());
}

/// Binding an inbound to the local SOCKS address keeps its protocol.
proof fn lemma_localize_keeps_protocol(inbound: JsonValue)
    ensures
        localize_inbound(inbound).str_member("protocol"@) == inbound.str_member("protocol"@),
{
    reveal_member_names();
    if has_protocol(inbound, "socks"@) {
        if let JsonValue::Object(m) = inbound {
            let m1 = member_set(m, "listen"@, JsonValue::Str(socks_host()));
            read_after_set_member(m, "listen"@, JsonValue::Str(socks_host()), "protocol"@);
            read_after_set_member(m1, "port"@, JsonValue::Number(NumberValue::PosInt(socks_port())), "protocol"@);
        }
    }
}

/// A SOCKS inbound already bound to the local SOCKS address stays as it is.
proof fn lemma_localize_idempotent(inbound: JsonValue)
    ensures
        localize_inbound(localize_inbound(inbound)) == localize_inbound(inbound),
{
    reveal_member_names();
    lemma_localize_keeps_protocol(inbound);
    let host = JsonValue::Str(socks_host());
    let port = JsonValue::Number(NumberValue::PosInt(socks_port()));
    if has_protocol(inbound, "socks"@) {
        if let JsonValue::Object(m) = inbound {
            let m1 = member_set(m, "listen"@, host);
            let m2 = member_set(m1, "port"@, port);
            read_after_set_member(m, "listen"@, host, "port"@);
            read_after_set_member(m1, "port"@, port, "listen"@);
            lemma_member_set_same(m2, "listen"@, host);
            lemma_member_set_same(m2, "port"@, port);
        }
    }
}

/// The TUN inbound declares the protocol `tun`, and so is no SOCKS inbound.
proof fn lemma_tun_inbound_protocol()
    ensures
        has_protocol(tun_inbound(), "tun"@),
        !has_protocol(tun_inbound(), "socks"@),
{
    reveal_member_names();
    if let JsonValue::Object(m) = tun_inbound() {
        assert(key_at(m, "protocol"@, 1));
        lemma_key_index_at(m, "protocol"@, 1);
    }
}

/// The TUN inbound names the interface `xray0` with the gateway
/// `10.10.0.1/30`: the interface and address that the `ip` commands of
/// `tun_address_args` and `default_route_args` configure.
pub proof fn tun_inbound_matches_tun_commands()
    ensures
        tun_inbound().get("settings"@) matches Some(settings) && settings.get("name"@) == Some(
            JsonValue::Str(tun_name()),
        ) && settings.get("gateway"@) == Some(JsonValue::Array(seq![JsonValue::Str(tun_gateway())])),
{
    reveal_strlit("tag");
    reveal_strlit("protocol");
    reveal_strlit("settings");
    reveal_strlit("name");
    reveal_strlit("mtu");
    reveal_strlit("gateway");
    if let JsonValue::Object(m) = tun_inbound() {
        assert(m[0].0[0] != m[2].0[0] && m[1].0[0] != m[2].0[0]);
        assert(key_at(m, "settings"@, 2));
        lemma_key_index_at(m, "settings"@, 2);
        if let JsonValue::Object(st) = m[2].1 {
            assert(key_at(st, "name"@, 0));
            lemma_key_index_at(st, "name"@, 0);
            assert(st[0].0[0] != st[2].0[0] && st[1].0[0] != st[2].0[0]);
            assert(key_at(st, "gateway"@, 2));
            lemma_key_index_at(st, "gateway"@, 2);
        }
    }
}

/// The TUN inbound is tagged and declared `tun`; it creates `xray0` with the
/// gateway `10.10.0.1/30` and an MTU of 1500,
/// lets Xray manage the system routing table and pick the outbound interface
/// itself, and sniffs HTTP, TLS and QUIC traffic, for routing only.
pub proof fn tun_inbound_sniffs_and_routes()
    ensures
        tun_inbound().get("tag"@) == Some(JsonValue::Str("tun"@)),
        tun_inbound().get("protocol"@) == Some(JsonValue::Str("tun"@)),
        tun_inbound().get("settings"@) matches Some(st) && st.get("name"@) == Some(
            JsonValue::Str("xray0"@),
        ) && st.get("gateway"@) == Some(JsonValue::Array(seq![JsonValue::Str("10.10.0.1/30"@)]))
            && st.get("mtu"@) == Some(
            JsonValue::Number(NumberValue::PosInt(1500)),
        ) && st.get("autoSystemRoutingTable"@) == Some(JsonValue::Bool(true)) && st.get(
            "autoOutboundsInterface"@,
        ) == Some(JsonValue::Str("auto"@)),
        tun_inbound().get("sniffing"@) matches Some(sn) && sn.get("enabled"@) == Some(
            JsonValue::Bool(true),
        ) && sn.get("destOverride"@) == Some(
            JsonValue::Array(
                seq![JsonValue::Str("http"@), JsonValue::Str("tls"@), JsonValue::Str("quic"@)],
            ),
        ) && sn.get("routeOnly"@) == Some(JsonValue::Bool(true)),
{
    tun_inbound_is_well_formed();
    if let JsonValue::Object(m) = tun_inbound() {
        assert(key_at(m, "tag"@, 0));
        lemma_key_index_at(m, "tag"@, 0);
        assert(m[0].0 != m[1].0);
        assert(key_at(m, "protocol"@, 1));
        lemma_key_index_at(m, "protocol"@, 1);
        assert(m[0].0 != m[2].0 && m[1].0 != m[2].0);
        assert(key_at(m, "settings"@, 2));
        lemma_key_index_at(m, "settings"@, 2);
        assert(m[0].0 != m[3].0 && m[1].0 != m[3].0 && m[2].0 != m[3].0);
        assert(key_at(m, "sniffing"@, 3));
        lemma_key_index_at(m, "sniffing"@, 3);
        assert(json_wf(m[2].1) && json_wf(m[3].1));
        if let JsonValue::Object(st) = m[2].1 {
            assert(key_at(st, "name"@, 0));
            lemma_key_index_at(st, "name"@, 0);
            assert(st[0].0 != st[2].0 && st[1].0 != st[2].0);
            assert(key_at(st, "gateway"@, 2));
            lemma_key_index_at(st, "gateway"@, 2);
            assert(st[0].0 != st[1].0);
            assert(key_at(st, "mtu"@, 1));
            lemma_key_index_at(st, "mtu"@, 1);
            assert(st[0].0 != st[3].0 && st[1].0 != st[3].0 && st[2].0 != st[3].0);
            assert(key_at(st, "autoSystemRoutingTable"@, 3));
            lemma_key_index_at(st, "autoSystemRoutingTable"@, 3);
            assert(st[0].0 != st[4].0 && st[1].0 != st[4].0 && st[2].0 != st[4].0 && st[3].0 != st[4].0);
            assert(key_at(st, "autoOutboundsInterface"@, 4));
            lemma_key_index_at(st, "autoOutboundsInterface"@, 4);
        }
        if let JsonValue::Object(sn) = m[3].1 {
            assert(key_at(sn, "enabled"@, 0));
            lemma_key_index_at(sn, "enabled"@, 0);
            assert(sn[0].0 != sn[1].0);
            assert(key_at(sn, "destOverride"@, 1));
            lemma_key_index_at(sn, "destOverride"@, 1);
            assert(sn[0].0 != sn[2].0 && sn[1].0 != sn[2].0);
            assert(key_at(sn, "routeOnly"@, 2));
            lemma_key_index_at(sn, "routeOnly"@, 2);
        }
    }
}

/// Preparing a profile keeps its inbounds in place, changes no inbound that
/// is not a SOCKS one, and adds the TUN inbound at the end exactly when the
/// profile has no TUN inbound.
pub proof fn prepare_adds_tun_inbound_only_when_missing(config: JsonValue, s: Seq<JsonValue>)
    requires
        prepare_spec(config) is Ok,
        config.get("inbounds"@) == Some(JsonValue::Array(s)),
    ensures
        ({
            let t = prepare_spec(config)->Ok_0.get("inbounds"@)->0.as_array()->0;
            &&& prepare_spec(config)->Ok_0.get("inbounds"@) matches Some(JsonValue::Array(_))
            &&& any_protocol(s, "tun"@) ==> t.len() == s.len()
            &&& !any_protocol(s, "tun"@) ==> t.len() == s.len() + 1 && t[s.len() as int] == tun_inbound()
            &&& forall|i: int| 0 <= i < s.len() && !has_protocol(#[trigger] s[i], "socks"@) ==> t[i] == s[i]
        }),
{
    if let JsonValue::Object(m) = config {
        let l = localize_all(s);
        read_after_set_member(m, "inbounds"@, JsonValue::Array(with_tun(l)), "inbounds"@);
        if any_protocol(s, "tun"@) {
            let k = choose|k: int| 0 <= k < s.len() && has_protocol(#[trigger] s[k], "tun"@);
            lemma_localize_keeps_protocol(s[k]);
            assert(has_protocol(l[k], "tun"@));
        } else {
            assert forall|k: int| 0 <= k < l.len() implies !has_protocol(#[trigger] l[k], "tun"@) by {
                lemma_localize_keeps_protocol(s[k]);
            }
        }
    }
}

/// The configuration that `prepare_xray_config` makes serves SOCKS on
/// `127.0.0.1:9999` from every SOCKS inbound, has a TUN inbound, and keeps
/// every top-level member other than `inbounds` as it was.
pub proof fn prepared_config_serves_socks_and_tun(config: JsonValue, key: Seq<char>)
    requires
        prepare_spec(config) is Ok,
    ensures
        ({
            let prepared = prepare_spec(config)->Ok_0;
            let s = prepared.get("inbounds"@)->0.as_array()->0;
            &&& prepared.get("inbounds"@) matches Some(JsonValue::Array(_))
            &&& any_protocol(s, "tun"@)
            &&& any_protocol(s, "socks"@)
            &&& forall|i: int|
                0 <= i < s.len() && has_protocol(#[trigger] s[i], "socks"@) ==> {
                    &&& s[i].get("listen"@) == Some(JsonValue::Str(socks_host()))
                    &&& s[i].get("port"@) == Some(JsonValue::Number(NumberValue::PosInt(socks_port())))
                    &&& s[i].get("listen"@) == Some(JsonValue::Str("127.0.0.1"@))
                    &&& s[i].get("port"@) == Some(JsonValue::Number(NumberValue::PosInt(9999)))
                }
            &&& key != "inbounds"@ ==> prepared.get(key) == config.get(key)
        }),
{
    reveal_member_names();
    lemma_tun_inbound_protocol();
    if let JsonValue::Object(m) = config {
        if let Some(JsonValue::Array(s)) = member_lookup(m, "inbounds"@) {
            let l = localize_all(s);
            let s2 = with_tun(l);
            read_after_set_member(m, "inbounds"@, JsonValue::Array(s2), key);
            let k = choose|k: int| 0 <= k < s.len() && has_protocol(#[trigger] s[k], "socks"@);
            lemma_localize_keeps_protocol(s[k]);
            assert(has_protocol(s2[k], "socks"@));
            if !any_protocol(l, "tun"@) {
                assert(has_protocol(s2[l.len() as int], "tun"@));
            }
            let host = JsonValue::Str(socks_host());
            let port = JsonValue::Number(NumberValue::PosInt(socks_port()));
            assert forall|i: int|
                0 <= i < s2.len() && has_protocol(#[trigger] s2[i], "socks"@) implies {
                    &&& s2[i].get("listen"@) == Some(host)
                    &&& s2[i].get("port"@) == Some(port)
                } by {
                if i < l.len() {
                    lemma_localize_keeps_protocol(s[i]);
                    if let JsonValue::Object(mi) = s[i] {
                        let m1 = member_set(mi, "listen"@, host);
                        read_after_set_member(mi, "listen"@, host, "port"@);
                        read_after_set_member(m1, "port"@, port, "listen"@);
                    }
                }
            }
        }
    }
}

/// The TUN inbound is a value that a JSON document can hold.
pub proof fn tun_inbound_is_well_formed()
    ensures
        json_wf(tun_inbound()),
{
    reveal_strlit("tag");
    reveal_strlit("protocol");
    reveal_strlit("settings");
    reveal_strlit("sniffing");
    reveal_strlit("name");
    reveal_strlit("mtu");
    reveal_strlit("gateway");
    reveal_strlit("autoSystemRoutingTable");
    reveal_strlit("autoOutboundsInterface");
    reveal_strlit("enabled");
    reveal_strlit("destOverride");
    reveal_strlit("routeOnly");
    if let JsonValue::Object(m) = tun_inbound() {
        assert(m[0].0[0] != m[1].0[0] && m[0].0[0] != m[2].0[0] && m[0].0[0] != m[3].0[0]);
        assert(m[1].0[0] != m[2].0[0] && m[1].0[0] != m[3].0[0]);
        assert(m[2].0[1] != m[3].0[1]);
        assert(distinct_names(m));
        if let JsonValue::Object(st) = m[2].1 {
            assert(st[0].0[0] != st[1].0[0] && st[0].0[0] != st[2].0[0] && st[0].0[0] != st[3].0[0] && st[0].0[0] != st[4].0[0]);
            assert(st[1].0[0] != st[2].0[0] && st[1].0[0] != st[3].0[0] && st[1].0[0] != st[4].0[0]);
            assert(st[2].0[0] != st[3].0[0] && st[2].0[0] != st[4].0[0]);
            assert(st[3].0[4] != st[4].0[4]);
            assert(distinct_names(st));
            if let JsonValue::Array(g) = st[2].1 {
                assert(json_wf(g[0]));
            }
            assert(json_wf(st[2].1));
            assert(json_wf(st[0].1) && json_wf(st[1].1) && json_wf(st[3].1) && json_wf(st[4].1));
            assert(forall|k: int| 0 <= k < st.len() ==> json_wf(#[trigger] st[k].1));
        }
        if let JsonValue::Object(sn) = m[3].1 {
            assert(sn[0].0[0] != sn[1].0[0] && sn[0].0[0] != sn[2].0[0] && sn[1].0[0] != sn[2].0[0]);
            assert(distinct_names(sn));
            if let JsonValue::Array(d) = sn[1].1 {
                assert(json_wf(d[0]) && json_wf(d[1]) && json_wf(d[2]));
            }
            assert(json_wf(sn[1].1));
            assert(json_wf(sn[0].1) && json_wf(sn[2].1));
            assert(forall|k: int| 0 <= k < sn.len() ==> json_wf(#[trigger] sn[k].1));
        }
        assert(json_wf(m[2].1));
        assert(json_wf(m[3].1));
        assert(json_wf(m[0].1) && json_wf(m[1].1));
        assert(forall|k: int| 0 <= k < m.len() ==> json_wf(#[trigger] m[k].1));
    }
}

/// Preparing a configuration keeps it a value that a JSON document can hold.
pub proof fn prepare_keeps_well_formed(config: JsonValue)
    requires
        json_wf(config),
        prepare_spec(config) is Ok,
    ensures
        json_wf(prepare_spec(config)->Ok_0),
{
    tun_inbound_is_well_formed();
    if let JsonValue::Object(m) = config {
        if let Some(JsonValue::Array(s)) = member_lookup(m, "inbounds"@) {
            let i = key_index(m, "inbounds"@)->0;
            assert(json_wf(m[i].1));
            let l = localize_all(s);
            let s2 = with_tun(l);
            assert forall|j: int| 0 <= j < s2.len() implies json_wf(#[trigger] s2[j]) by {
                if j < l.len() {
                    assert(json_wf(s[j]));
                    if has_protocol(s[j], "socks"@) {
                        if let JsonValue::Object(mj) = s[j] {
                            let host = JsonValue::Str(socks_host());
                            let port = JsonValue::Number(NumberValue::PosInt(socks_port()));
                            lemma_member_set_wf(mj, "listen"@, host);
                            lemma_member_set_wf(member_set(mj, "listen"@, host), "port"@, port);
                        }
                    }
                }
            }
            lemma_member_set_wf(m, "inbounds"@, JsonValue::Array(s2));
        }
    }
}

/// Preparing a configuration that `prepare_xray_config` made gives it back
/// unchanged: its SOCKS inbounds already listen locally and it already has a
/// TUN inbound.
pub proof fn prepare_is_idempotent(config: JsonValue)
    requires
        prepare_spec(config) is Ok,
    ensures
        prepare_spec(prepare_spec(config)->Ok_0) == prepare_spec(config),
{
    lemma_tun_inbound_protocol();
    if let JsonValue::Object(m) = config {
        if let Some(JsonValue::Array(s)) = member_lookup(m, "inbounds"@) {
            let l = localize_all(s);
            let s2 = with_tun(l);
            let m2 = member_set(m, "inbounds"@, JsonValue::Array(s2));
            read_after_set_member(m, "inbounds"@, JsonValue::Array(s2), "inbounds"@);
            let k = choose|k: int| 0 <= k < s.len() && has_protocol(#[trigger] s[k], "socks"@);
            lemma_localize_keeps_protocol(s[k]);
            assert(has_protocol(s2[k], "socks"@));
            assert forall|i: int| 0 <= i < s2.len() implies #[trigger] localize_inbound(s2[i]) == s2[i] by {
                if i < l.len() {
                    lemma_localize_idempotent(s[i]);
                }
            }
            assert(localize_all(s2) =~= s2);
            if !any_protocol(l, "tun"@) {
                assert(has_protocol(s2[l.len() as int], "tun"@));
            }
            assert(any_protocol(s2, "tun"@));
            lemma_member_set_same(m2, "inbounds"@, JsonValue::Array(s2));
        }
    }
}

} // verus!
