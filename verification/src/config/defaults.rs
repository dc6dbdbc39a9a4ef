use vstd::prelude::*;

use crate::text::{concat3, owned, push_str, trim};

verus! {

pub const DEFAULT_CONFIG_PATH: &'static str = "/etc/pike/pike.toml";

pub const DEFAULT_BIND: &'static str = "0.0.0.0";

pub const DEFAULT_PORT: u16 = 8080;

pub const DEFAULT_TIMEOUT_MINUTES: u64 = 0;

pub const DEFAULT_MAX_DOWNLOADS: u32 = 0;

/// The default region. Without it the API base URL silently falls back to
/// us-1, and an EU tenant gets a 401 at startup or registers hosts in the
/// wrong cloud.
pub const DEFAULT_CLOUD: &'static str = "eu-1";

pub const DEFAULT_METADATA_TTL_MINUTES: u64 = 60;

/// 20 GiB.
pub const DEFAULT_CACHE_MAX_BYTES: u64 = 21_474_836_480;

/// The cache directory of a systemd installation.
pub const DEFAULT_SERVICE_CACHE_DIR: &'static str = "/var/cache/pike";

/// `Path::join` with a relative component on a Unix path: a separator is
/// inserted unless the base is empty or already ends in one.
pub open spec fn path_join(base: Seq<char>, comp: Seq<char>) -> Seq<char> {
    if base.len() > 0 && base.last() != '/' {
        base + "/"@ + comp
    } else {
        base + comp
    }
}

pub fn join_path(base: &str, comp: &str) -> (res: String)
    ensures
        res@ == path_join(base@, comp@),
{
    let v = crate::text::chars_of(base);
    if v.len() > 0 && v[v.len() - 1] != '/' {
        concat3(base, "/", comp)
    } else {
        let mut r = owned(base);
        push_str(&mut r, comp);
        r
    }
}

pub open spec fn spec_default_cache_dir(
    xdg: Option<Seq<char>>,
    home: Option<Seq<char>>,
    temp_dir: Seq<char>,
) -> Seq<char> {
    match (xdg, home) {
        (Some(x), _) if trim(x).len() > 0 => path_join(x, "pike"@),
        (_, Some(h)) if trim(h).len() > 0 => path_join(path_join(h, ".cache"@), "pike"@),
        _ => path_join(temp_dir, "pike-cache"@),
    }
}

/// The cache directory when not running under systemd: `$XDG_CACHE_HOME/pike`,
/// else `$HOME/.cache/pike`, else `pike-cache` in the temporary directory.
/// Blank variables count as unset. The service config always names its own.
pub fn default_cache_dir(xdg: Option<String>, home: Option<String>, temp_dir: String) -> (res:
    String)
    ensures
        res@ == spec_default_cache_dir(
            crate::text::opt_view(xdg),
            crate::text::opt_view(home),
            temp_dir@,
        ),
{
    if let Some(x) = &xdg {
        let t = crate::text::trim_str(x.as_str());
        if !t.as_str().is_empty() {
            return join_path(x.as_str(), "pike");
        }
    }
    if let Some(h) = &home {
        let t = crate::text::trim_str(h.as_str());
        if !t.as_str().is_empty() {
            let c = join_path(h.as_str(), ".cache");
            return join_path(c.as_str(), "pike");
        }
    }
    join_path(temp_dir.as_str(), "pike-cache")
}

} // verus!
