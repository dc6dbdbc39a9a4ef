use vstd::prelude::*;

use crate::error::{error_text, AppError};
use crate::sensors::types::clone_strings;
use crate::text::{opt_view, owned, trim, trim_end_char, trim_end_char_str, trim_str, views};

use super::args::ServeArgs;
use super::defaults::{
    DEFAULT_BIND, DEFAULT_CACHE_MAX_BYTES, DEFAULT_CLOUD, DEFAULT_MAX_DOWNLOADS,
    DEFAULT_METADATA_TTL_MINUTES, DEFAULT_PORT, DEFAULT_TIMEOUT_MINUTES,
};
use super::file::FileConfig;
use super::validate::{
    cloud_error, cloud_ok, token_error, token_ok, validate_cloud, validate_token,
};

verus! {

/// The configuration after all sources are merged. Nothing downstream reads
/// anything else: no module looks at the arguments or the file directly.
#[derive(Debug, Clone)]
pub struct ResolvedConfig {
    pub bind: String,
    pub port: u16,
    pub addr: Option<String>,
    pub public_url: Option<String>,
    pub auth_enabled: bool,
    pub token: Option<String>,
    pub timeout_minutes: u64,
    pub max_downloads: u32,
    pub client_id: Option<String>,
    pub client_secret: Option<String>,
    pub cloud: Option<String>,
    pub cid: Option<String>,
    pub cache_dir: String,
    pub metadata_ttl_minutes: u64,
    pub cache_max_bytes: u64,
    pub tags: Option<String>,
    pub default_tag: bool,
    pub files: Vec<String>,
}

// ---------------------------------------------------------------------------
// Specification
// ---------------------------------------------------------------------------

/// An empty (or all-whitespace) value means "not set", wherever it came
/// from; a set value is trimmed.
pub open spec fn blank(v: Option<Seq<char>>) -> Option<Seq<char>> {
    match v {
        Some(s) => if trim(s).len() == 0 {
            None
        } else {
            Some(trim(s))
        },
        None => None,
    }
}

pub open spec fn either<T>(a: Option<T>, b: Option<T>) -> Option<T> {
    match a {
        Some(x) => Some(x),
        None => b,
    }
}

pub open spec fn or_default<T>(a: Option<T>, d: T) -> T {
    match a {
        Some(x) => x,
        None => d,
    }
}

/// A text setting: the flag (or its environment variable) when set,
/// otherwise the file.
pub open spec fn pick(flag: Option<String>, file: Option<String>) -> Option<Seq<char>> {
    either(blank(opt_view(flag)), blank(opt_view(file)))
}

pub open spec fn spec_token(args: ServeArgs, file: FileConfig) -> Option<Seq<char>> {
    if args.no_auth {
        None
    } else {
        pick(args.token, file.server.token)
    }
}

pub open spec fn spec_cloud(args: ServeArgs, file: FileConfig) -> Seq<char> {
    or_default(pick(args.cloud, file.falcon.cloud), "eu-1"@)
}

/// The message `resolve` fails with, if any: a bad token first, then an
/// unknown cloud.
pub open spec fn resolve_error(args: ServeArgs, file: FileConfig) -> Option<Seq<char>> {
    match spec_token(args, file) {
        Some(t) if !token_ok(t) => Some(token_error(t)),
        _ => if cloud_ok(spec_cloud(args, file)) {
            None
        } else {
            Some(cloud_error(spec_cloud(args, file)))
        },
    }
}

pub open spec fn spec_files(args: ServeArgs, file: FileConfig) -> Seq<Seq<char>> {
    if args.sensors@.len() > 0 {
        views(args.sensors@)
    } else {
        match file.sensors.files {
            Some(f) => views(f@),
            None => seq![],
        }
    }
}

/// `c` is the merge of `args`, `file` and the defaults.
pub open spec fn resolved_as(
    c: ResolvedConfig,
    args: ServeArgs,
    file: FileConfig,
    default_cache_dir: Seq<char>,
) -> bool {
    &&& c.bind@ == or_default(pick(args.bind, file.server.bind), "0.0.0.0"@)
    &&& c.port == or_default(either(args.port, file.server.port), 8080u16)
    &&& opt_view(c.addr) == pick(args.addr, file.server.addr)
    &&& opt_view(c.public_url) == match pick(args.public_url, file.server.public_url) {
        Some(u) => Some(trim_end_char(u, '/')),
        None => None,
    }
    &&& c.auth_enabled == !args.no_auth
    &&& opt_view(c.token) == spec_token(args, file)
    &&& c.timeout_minutes == or_default(either(args.timeout, file.server.timeout_minutes), 0u64)
    &&& c.max_downloads == or_default(either(args.max_downloads, file.server.max_downloads), 0u32)
    &&& opt_view(c.client_id) == pick(args.client_id, file.falcon.client_id)
    &&& opt_view(c.client_secret) == pick(args.client_secret, file.falcon.client_secret)
    &&& opt_view(c.cloud) == Some(spec_cloud(args, file))
    &&& opt_view(c.cid) == pick(args.cid, file.falcon.cid)
    &&& c.cache_dir@ == or_default(
        either(opt_view(args.cache_dir), opt_view(file.sensors.cache_dir)),
        default_cache_dir,
    )
    &&& c.metadata_ttl_minutes == or_default(
        either(args.metadata_ttl, file.sensors.metadata_ttl_minutes),
        60u64,
    )
    &&& c.cache_max_bytes == or_default(
        either(args.cache_max_bytes, file.sensors.cache_max_bytes),
        21_474_836_480u64,
    )
    &&& opt_view(c.tags) == pick(args.tags, file.sensors.tags)
    &&& c.default_tag == (!args.no_default_tag && or_default(file.sensors.default_tag, true))
    &&& views(c.files@) == spec_files(args, file)
}

// ---------------------------------------------------------------------------
// Implementation
// ---------------------------------------------------------------------------

fn copy_opt(o: &Option<String>) -> (r: Option<String>)
    ensures
        r == *o,
{
    match o {
        Some(s) => Some(s.clone()),
        None => None,
    }
}

/// An empty string means "not set", wherever it came from. Flags and
/// environment variables need this as much as the file does: the argument
/// parser hands back an environment variable's value verbatim, so `PIKE_CID=`
/// in an EnvironmentFile used to produce a server that started and then
/// answered 404 to every install-script request.
pub fn blank_to_none(v: Option<String>) -> (r: Option<String>)
    ensures
        opt_view(r) == blank(opt_view(v)),
{
    match v {
        Some(s) => {
            let t = trim_str(s.as_str());
            if t.as_str().is_empty() {
                None
            } else {
                Some(t)
            }
        },
        None => None,
    }
}

fn pick_str(flag: &Option<String>, file: &Option<String>) -> (r: Option<String>)
    ensures
        opt_view(r) == pick(*flag, *file),
{
    match blank_to_none(copy_opt(flag)) {
        Some(v) => Some(v),
        None => blank_to_none(copy_opt(file)),
    }
}

fn either_copy<T: Copy>(a: Option<T>, b: Option<T>) -> (r: Option<T>)
    ensures
        r == either(a, b),
{
    match a {
        Some(x) => Some(x),
        None => b,
    }
}

/// Merges the flags (environment variables included), the file and the
/// defaults. `default_cache_dir` is the cache directory used when neither
/// names one. Fails on a token with characters unsafe in a URL path and on
/// an unknown cloud.
pub fn resolve(args: &ServeArgs, file: FileConfig, default_cache_dir: String) -> (res: Result<
    ResolvedConfig,
    AppError,
>)
    ensures
        res is Err <==> resolve_error(*args, file) is Some,
        res matches Err(e) ==> e is Other && error_text(e) == resolve_error(*args, file).unwrap(),
        res matches Ok(c) ==> resolved_as(c, *args, file, default_cache_dir@),
{
    let token = if args.no_auth {
        None
    } else {
        let t = pick_str(&args.token, &file.server.token);
        if let Some(tok) = &t {
            match validate_token(tok.as_str()) {
                Ok(()) => {},
                Err(e) => {
                    return Err(e);
                },
            }
        }
        t
    };

    let files = if args.sensors.len() > 0 {
        clone_strings(&args.sensors)
    } else {
        match &file.sensors.files {
            Some(f) => clone_strings(f),
            None => Vec::new(),
        }
    };
    assert(views(files@) =~= spec_files(*args, file));

    let cloud = match pick_str(&args.cloud, &file.falcon.cloud) {
        Some(c) => c,
        None => owned(DEFAULT_CLOUD),
    };
    proof {
        reveal_strlit("eu-1");
    }
    match validate_cloud(cloud.as_str()) {
        Ok(()) => {},
        Err(e) => {
            return Err(e);
        },
    }

    let bind = match pick_str(&args.bind, &file.server.bind) {
        Some(b) => b,
        None => owned(DEFAULT_BIND),
    };
    proof {
        reveal_strlit("0.0.0.0");
    }
    let public_url = match pick_str(&args.public_url, &file.server.public_url) {
        Some(u) => Some(trim_end_char_str(u.as_str(), '/')),
        None => None,
    };
    let cache_dir = match copy_opt(&args.cache_dir) {
        Some(d) => d,
        None => match copy_opt(&file.sensors.cache_dir) {
            Some(d) => d,
            None => default_cache_dir,
        },
    };
    let default_tag = if args.no_default_tag {
        false
    } else {
        match file.sensors.default_tag {
            Some(b) => b,
            None => true,
        }
    };

    let c = ResolvedConfig {
        bind,
        port: match either_copy(args.port, file.server.port) {
            Some(p) => p,
            None => DEFAULT_PORT,
        },
        addr: pick_str(&args.addr, &file.server.addr),
        public_url,
        auth_enabled: !args.no_auth,
        token,
        timeout_minutes: match either_copy(args.timeout, file.server.timeout_minutes) {
            Some(t) => t,
            None => DEFAULT_TIMEOUT_MINUTES,
        },
        max_downloads: match either_copy(args.max_downloads, file.server.max_downloads) {
            Some(m) => m,
            None => DEFAULT_MAX_DOWNLOADS,
        },
        client_id: pick_str(&args.client_id, &file.falcon.client_id),
        client_secret: pick_str(&args.client_secret, &file.falcon.client_secret),
        cloud: Some(cloud),
        cid: pick_str(&args.cid, &file.falcon.cid),
        cache_dir,
        metadata_ttl_minutes: match either_copy(args.metadata_ttl, file.sensors.metadata_ttl_minutes) {
            Some(t) => t,
            None => DEFAULT_METADATA_TTL_MINUTES,
        },
        cache_max_bytes: match either_copy(args.cache_max_bytes, file.sensors.cache_max_bytes) {
            Some(b) => b,
            None => DEFAULT_CACHE_MAX_BYTES,
        },
        tags: pick_str(&args.tags, &file.sensors.tags),
        default_tag,
        files,
    };
    Ok(c)
}


// ---------------------------------------------------------------------------
// Laws
// ---------------------------------------------------------------------------

/// A text setting given as a flag (or its environment variable) wins over
/// the file; a blank one counts as not given and the file decides.
pub proof fn law_flag_beats_file(flag: String, file: Option<String>)
    ensures
        trim(flag@).len() > 0 ==> pick(Some(flag), file) == Some(trim(flag@)),
        trim(flag@).len() == 0 ==> pick(Some(flag), file) == pick(None, file),
{
}

/// A blank value in the file is the same as no value.
pub proof fn law_blank_file_value_is_unset(flag: Option<String>, value: String)
    requires
        trim(value@).len() == 0,
    ensures
        pick(flag, Some(value)) == pick(flag, None),
{
}

/// With auth disabled there is no token, and no token can make the
/// configuration fail.
pub proof fn law_no_auth_clears_token(args: ServeArgs, file: FileConfig)
    requires
        args.no_auth,
    ensures
        spec_token(args, file) is None,
        resolve_error(args, file) is None <==> cloud_ok(spec_cloud(args, file)),
{
}

/// A configuration that resolves carries a token that is safe in a URL
/// path, if any, and a cloud the API client knows.
pub proof fn law_resolved_config_is_valid(args: ServeArgs, file: FileConfig)
    requires
        resolve_error(args, file) is None,
    ensures
        spec_token(args, file) matches Some(t) ==> token_ok(t),
        cloud_ok(spec_cloud(args, file)),
{
}

/// Whatever the file holds, a setting given as a flag (or through its
/// environment variable) wins: a non-blank text flag, trimmed (a public URL
/// also loses its trailing `/`), a number or a directory as given.
pub proof fn law_flags_win_over_the_file(
    c: ResolvedConfig,
    args: ServeArgs,
    file: FileConfig,
    default_cache_dir: Seq<char>,
)
    requires
        resolved_as(c, args, file, default_cache_dir),
    ensures
        args.bind is Some && trim(args.bind->0@).len() > 0 ==> c.bind@ == trim(args.bind->0@),
        args.addr is Some && trim(args.addr->0@).len() > 0 ==> opt_view(c.addr) == Some(trim(args.addr->0@)),
        args.public_url is Some && trim(args.public_url->0@).len() > 0 ==> opt_view(c.public_url) == Some(trim_end_char(trim(args.public_url->0@), '/')),
        args.client_id is Some && trim(args.client_id->0@).len() > 0 ==> opt_view(c.client_id) == Some(trim(args.client_id->0@)),
        args.client_secret is Some && trim(args.client_secret->0@).len() > 0 ==> opt_view(c.client_secret) == Some(trim(args.client_secret->0@)),
        args.cloud is Some && trim(args.cloud->0@).len() > 0 ==> opt_view(c.cloud) == Some(trim(args.cloud->0@)),
        args.cid is Some && trim(args.cid->0@).len() > 0 ==> opt_view(c.cid) == Some(trim(args.cid->0@)),
        args.tags is Some && trim(args.tags->0@).len() > 0 ==> opt_view(c.tags) == Some(trim(args.tags->0@)),
        !args.no_auth && args.token is Some && trim(args.token->0@).len() > 0 ==> opt_view(c.token)
            == Some(trim(args.token->0@)),
        args.port is Some ==> c.port == args.port->0,
        args.timeout is Some ==> c.timeout_minutes == args.timeout->0,
        args.max_downloads is Some ==> c.max_downloads == args.max_downloads->0,
        args.metadata_ttl is Some ==> c.metadata_ttl_minutes == args.metadata_ttl->0,
        args.cache_max_bytes is Some ==> c.cache_max_bytes == args.cache_max_bytes->0,
        args.cache_dir is Some ==> c.cache_dir@ == args.cache_dir->0@,
{
}

/// Without a flag, a non-blank value of the file is used, trimmed; with
/// neither, the setting is unset or takes its default.
pub proof fn law_file_fills_in_for_missing_flags(
    c: ResolvedConfig,
    args: ServeArgs,
    file: FileConfig,
    default_cache_dir: Seq<char>,
)
    requires
        resolved_as(c, args, file, default_cache_dir),
    ensures
        args.bind is None && file.server.bind is Some && trim(file.server.bind->0@).len() > 0 ==> c.bind@ == trim(file.server.bind->0@),
        args.addr is None && file.server.addr is Some && trim(file.server.addr->0@).len() > 0 ==> opt_view(c.addr) == Some(trim(file.server.addr->0@)),
        args.client_id is None && file.falcon.client_id is Some && trim(file.falcon.client_id->0@).len() > 0 ==> opt_view(c.client_id) == Some(trim(file.falcon.client_id->0@)),
        args.client_secret is None && file.falcon.client_secret is Some && trim(file.falcon.client_secret->0@).len() > 0 ==> opt_view(c.client_secret) == Some(trim(file.falcon.client_secret->0@)),
        args.cloud is None && file.falcon.cloud is Some && trim(file.falcon.cloud->0@).len() > 0 ==> opt_view(c.cloud) == Some(trim(file.falcon.cloud->0@)),
        args.cid is None && file.falcon.cid is Some && trim(file.falcon.cid->0@).len() > 0 ==> opt_view(c.cid) == Some(trim(file.falcon.cid->0@)),
        args.tags is None && file.sensors.tags is Some && trim(file.sensors.tags->0@).len() > 0 ==> opt_view(c.tags) == Some(trim(file.sensors.tags->0@)),
        args.cid is None && file.falcon.cid is None ==> c.cid is None,
        args.port is None && file.server.port is Some ==> c.port == file.server.port->0,
        args.port is None && file.server.port is None ==> c.port == 8080,
{
}

} // verus!
