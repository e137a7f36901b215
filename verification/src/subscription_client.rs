//! What `xrayctl` sends to the subscription server, and how it judges the
//! answer.
use vstd::prelude::*;

use crate::config::Config;

verus! {

/// The view of a list of HTTP headers as name and value texts.
pub open spec fn headers_view(h: Seq<(String, String)>) -> Seq<(Seq<char>, Seq<char>)> {
    h.map_values(|p: (String, String)| (p.0@, p.1@))
}

/// The headers of a subscription download: those of the client it presents
/// itself as, with the device id `hwid`.
pub open spec fn fetch_headers_spec(hwid: Seq<char>) -> Seq<(Seq<char>, Seq<char>)> {
    seq![
        ("User-Agent"@, "Happ/3.13.0"@),
        ("X-HWID"@, hwid),
        ("X-Device-Os"@, "Android"@),
        ("X-Device-Locale"@, "ru"@),
        ("X-Device-Model"@, "xrayctl"@),
        ("X-Ver-Os"@, "17"@),
    ]
}

/// The headers of a subscription information request: those of a download,
/// without the device id.
pub open spec fn info_headers_spec() -> Seq<(Seq<char>, Seq<char>)> {
    seq![
        ("User-Agent"@, "Happ/3.13.0"@),
        ("X-Device-Os"@, "Android"@),
        ("X-Device-Locale"@, "ru"@),
        ("X-Device-Model"@, "xrayctl"@),
        ("X-Ver-Os"@, "17"@),
    ]
}

fn header(name: &str, value: &str) -> (r: (String, String))
    ensures
        r.0@ == name@,
        r.1@ == value@,
{
    (String::from_str(name), String::from_str(value))
}

/// The headers sent when downloading the subscription of `config`.
pub fn fetch_headers(config: &Config) -> (r: Vec<(String, String)>)
    ensures
        headers_view(r@) == fetch_headers_spec(config.hwid@),
{
    let mut r: Vec<(String, String)> = Vec::new();
    r.push(header("User-Agent", "Happ/3.13.0"));
    r.push(header("X-HWID", config.hwid.as_str()));
    r.push(header("X-Device-Os", "Android"));
    r.push(header("X-Device-Locale", "ru"));
    r.push(header("X-Device-Model", "xrayctl"));
    r.push(header("X-Ver-Os", "17"));
    assert(headers_view(r@) =~= fetch_headers_spec(config.hwid@));
    r
}

/// The headers sent when asking for subscription information.
pub fn info_headers() -> (r: Vec<(String, String)>)
    ensures
        headers_view(r@) == info_headers_spec(),
{
    let mut r: Vec<(String, String)> = Vec::new();
    r.push(header("User-Agent", "Happ/3.13.0"));
    r.push(header("X-Device-Os", "Android"));
    r.push(header("X-Device-Locale", "ru"));
    r.push(header("X-Device-Model", "xrayctl"));
    r.push(header("X-Ver-Os", "17"));
    assert(headers_view(r@) =~= info_headers_spec());
    r
}

/// An information request sends the download's headers, in the same order,
/// except the device id.
pub proof fn info_headers_omit_only_the_device_id(hwid: Seq<char>)
    ensures
        info_headers_spec() == fetch_headers_spec(hwid).remove(1),
{
    assert(info_headers_spec() =~= fetch_headers_spec(hwid).remove(1));
}

/// A successful HTTP status: `200` to `299`.
pub open spec fn is_success(code: u16) -> bool {
    200 <= code <= 299
}

/// Judges the status of a subscription download: an error naming the status
/// (`status` is its display, such as `404 Not Found`) unless it is a success.
pub fn check_status(code: u16, status: &str) -> (r: Result<(), String>)
    ensures
        r is Ok <==> is_success(code),
        r matches Err(e) ==> e@ == "Subscription request failed with status: "@ + status@,
{
    if 200 <= code && code <= 299 {
        Ok(())
    } else {
        Err(String::from_str("Subscription request failed with status: ").concat(status))
    }
}

} // verus!
