//! Where `xrayctl` keeps its files, and its stored configuration.
use vstd::prelude::*;

verus! {

/// The stored configuration: the subscription URL and the device id sent
/// with it.
#[derive(Debug)]
pub struct Config {
    pub subscription_url: String,
    pub hwid: String,
}

/// The device id that `xrayctl sub add` stores.
pub open spec fn default_hwid() -> Seq<char> {
    "xrayctl-test-hwid"@
}

impl Config {
    /// The configuration that `xrayctl sub add <url>` stores.
    pub fn for_subscription(url: String) -> (r: Config)
        ensures
            r.subscription_url == url,
            r.hwid@ == default_hwid(),
    {
        Config { subscription_url: url, hwid: String::from_str("xrayctl-test-hwid") }
    }
}

/// The Unix path `name` joined onto `base`, as `Path::join` makes it: an
/// absolute `name` replaces `base`; otherwise a `/` separates the two unless
/// `base` is empty or already ends with one.
pub open spec fn path_join(base: Seq<char>, name: Seq<char>) -> Seq<char> {
    if name.len() > 0 && name[0] == '/' {
        name
    } else if base.len() == 0 || base.last() == '/' {
        base + name
    } else {
        base + "/"@ + name
    }
}

/// Joins the Unix path `name` onto `base`.
pub fn join_path(base: &str, name: &str) -> (r: String)
    ensures
        r@ == path_join(base@, name@),
{
    proof {
        reveal_strlit("/");
    }
    let b = crate::text::chars_of(base);
    let n = crate::text::chars_of(name);
    if n.len() > 0 && n[0] == '/' {
        String::from_str(name)
    } else if b.len() == 0 || b[b.len() - 1] == '/' {
        String::from_str(base).concat(name)
    } else {
        String::from_str(base).concat("/").concat(name)
    }
}

/// The directory of `xrayctl`'s files, `xrayctl` under the user's
/// configuration directory `base`; an error where there is none.
pub open spec fn config_dir_spec(base: Option<Seq<char>>) -> Result<Seq<char>, Seq<char>> {
    match base {
        Some(b) => Ok(path_join(b, "xrayctl"@)),
        None => Err("Could not determine config directory"@),
    }
}

/// The directory of `xrayctl`'s files under the user's configuration
/// directory `base`, where the platform gives one. The caller creates it.
pub fn config_dir(base: Option<&str>) -> (r: Result<String, String>)
    ensures
        match r {
            Ok(d) => config_dir_spec(
                match base {
                    Some(b) => Some(b@),
                    None => None,
                },
            ) == Ok::<Seq<char>, Seq<char>>(d@),
            Err(e) => base is None && e@ == "Could not determine config directory"@,
        },
{
    match base {
        Some(b) => Ok(join_path(b, "xrayctl")),
        None => Err(String::from_str("Could not determine config directory")),
    }
}

/// The stored configuration, `config.toml` in the directory `dir`.
pub fn config_file(dir: &str) -> (r: String)
    ensures
        r@ == path_join(dir@, "config.toml"@),
{
    join_path(dir, "config.toml")
}

/// The downloaded subscription, `subscription.json` in the directory `dir`.
pub fn subscription_file(dir: &str) -> (r: String)
    ensures
        r@ == path_join(dir@, "subscription.json"@),
{
    join_path(dir, "subscription.json")
}

/// The selected profile, `active.json` in the directory `dir`.
pub fn active_file(dir: &str) -> (r: String)
    ensures
        r@ == path_join(dir@, "active.json"@),
{
    join_path(dir, "active.json")
}

/// The generated Xray configuration, `xray.json` in the directory `dir`.
pub fn xray_file(dir: &str) -> (r: String)
    ensures
        r@ == path_join(dir@, "xray.json"@),
{
    join_path(dir, "xray.json")
}

/// The PID of the running Xray, `xray.pid` in the directory `dir`.
pub fn pid_file(dir: &str) -> (r: String)
    ensures
        r@ == path_join(dir@, "xray.pid"@),
{
    join_path(dir, "xray.pid")
}

/// Xray's output, `xray.log` in the directory `dir`.
pub fn log_file(dir: &str) -> (r: String)
    ensures
        r@ == path_join(dir@, "xray.log"@),
{
    join_path(dir, "xray.log")
}


/// The names of `xrayctl`'s runtime files, in the order the README lists them.
pub open spec fn runtime_file_names() -> Seq<Seq<char>> {
    seq![
        "config.toml"@,
        "subscription.json"@,
        "active.json"@,
        "xray.json"@,
        "xray.pid"@,
        "xray.log"@,
    ]
}

/// Joining different relative names onto one base gives different paths.
pub proof fn lemma_join_injective(base: Seq<char>, a: Seq<char>, b: Seq<char>)
    requires
        a.len() > 0 && a[0] != '/',
        b.len() > 0 && b[0] != '/',
        path_join(base, a) == path_join(base, b),
    ensures
        a == b,
{
    reveal_strlit("/");
    let pre = if base.len() == 0 || base.last() == '/' {
        base
    } else {
        base + "/"@
    };
    assert(path_join(base, a) == pre + a);
    assert(path_join(base, b) == pre + b);
    assert((pre + a).subrange(pre.len() as int, (pre + a).len() as int) =~= a);
    assert((pre + b).subrange(pre.len() as int, (pre + b).len() as int) =~= b);
}

/// Each runtime file has a path of its own in the configuration directory.
pub proof fn runtime_files_are_distinct(dir: Seq<char>, i: int, j: int)
    requires
        0 <= i < 6,
        0 <= j < 6,
        i != j,
    ensures
        path_join(dir, runtime_file_names()[i]) != path_join(dir, runtime_file_names()[j]),
{
    reveal_strlit("config.toml");
    reveal_strlit("subscription.json");
    reveal_strlit("active.json");
    reveal_strlit("xray.json");
    reveal_strlit("xray.pid");
    reveal_strlit("xray.log");
    let names = runtime_file_names();
    assert(names[0][0] != names[2][0]);
    assert(names[4][5] != names[5][5]);
    assert(forall|k: int| 0 <= k < 6 ==> names[k].len() > 0 && names[k][0] != '/');
    if path_join(dir, names[i]) == path_join(dir, names[j]) {
        lemma_join_injective(dir, names[i], names[j]);
    }
}

} // verus!
