//! The decisions of `pike serve` before the server listens: whether there
//! is anything to serve, which token protects the URLs, how long sensor
//! lists live, and what the operator is shown.

use vstd::prelude::*;

use crate::config::resolve::ResolvedConfig;
use crate::digest::all_lower_hex;
use crate::text::{concat2, concat3, decimal, decimal_string, owned, push_line, views};
use crate::token::{generate_token, spec_token_from};

verus! {

pub open spec fn has_api_creds(cfg: ResolvedConfig) -> bool {
    cfg.client_id is Some && cfg.client_secret is Some
}

/// There must be something to serve and a CID to put in the scripts:
/// local files or API credentials, and a CID or credentials to fetch it.
pub fn check_sensor_sources(cfg: &ResolvedConfig) -> (r: Result<(), String>)
    ensures
        cfg.files@.len() == 0 && !has_api_creds(*cfg) ==> (r matches Err(m) && m@
            == "provide --sensor or API credentials (--client-id/--client-secret)."@),
        !(cfg.files@.len() == 0 && !has_api_creds(*cfg)) && cfg.cid is None && !has_api_creds(
            *cfg,
        ) ==> (r matches Err(m) && m@ == "provide --cid or API credentials to fetch it."@),
        r is Ok <==> (cfg.files@.len() > 0 || has_api_creds(*cfg)) && (cfg.cid is Some
            || has_api_creds(*cfg)),
{
    let creds = cfg.client_id.is_some() && cfg.client_secret.is_some();
    if cfg.files.len() == 0 && !creds {
        return Err(owned("provide --sensor or API credentials (--client-id/--client-secret)."));
    }
    if cfg.cid.is_none() && !creds {
        return Err(owned("provide --cid or API credentials to fetch it."));
    }
    Ok(())
}

/// The token of the run: none when auth is disabled, the configured one,
/// or else a fresh one (second element `true`), which changes the
/// one-liner URL on every restart.
pub fn pick_token(cfg: &ResolvedConfig) -> (r: (Option<String>, bool))
    ensures
        !cfg.auth_enabled ==> r.0 is None && !r.1,
        cfg.auth_enabled && cfg.token is Some ==> r.0 == cfg.token && !r.1,
        cfg.auth_enabled && cfg.token is None ==> r.1 && (r.0 matches Some(t) && (exists|a: u64, b: u64|
            t@ == spec_token_from(a, b)) && t@.len() == 32 && all_lower_hex(t@)),
{
    if !cfg.auth_enabled {
        return (None, false);
    }
    match &cfg.token {
        Some(t) => (Some(t.clone()), false),
        None => (Some(generate_token()), true),
    }
}

/// The time to live of a sensor list, in milliseconds.
pub fn metadata_ttl_ms(minutes: u64) -> (r: u64)
    requires
        minutes * 60_000 <= u64::MAX,
    ensures
        r == minutes * 60_000,
{
    minutes * 60_000
}

/// How a local sensor is listed at startup.
pub fn sensor_line(filename: &str, sha256: &str) -> (r: String)
    ensures
        r@ == "  "@ + filename@ + " (SHA256: "@ + sha256@ + ")"@,
{
    let a = concat3("  ", filename, " (SHA256: ");
    concat3(a.as_str(), sha256, ")")
}

/// What the operator is shown at startup.
pub struct BannerInfo {
    pub base_url: String,
    pub addr: String,
    pub port: u16,
    pub token: Option<String>,
    pub public_url: Option<String>,
    pub has_api: bool,
    pub tags: Option<String>,
    pub cache_dir: String,
    pub timeout_minutes: u64,
    pub max_downloads: u32,
    pub sensor_lines: Vec<String>,
}

pub open spec fn max_downloads_text(n: u32) -> Seq<char> {
    if n == 0 {
        "unlimited"@
    } else {
        decimal(n as nat)
    }
}

pub open spec fn timeout_text(m: u64) -> Seq<char> {
    if m == 0 {
        "none"@
    } else {
        decimal(m as nat) + " min"@
    }
}

/// The banner's lines in seven groups: heading, public URL, API, tags,
/// limits, sensors, one-liners.
pub open spec fn spec_banner_parts(b: BannerInfo) -> (
    Seq<Seq<char>>,
    Seq<Seq<char>>,
    Seq<Seq<char>>,
    Seq<Seq<char>>,
    Seq<Seq<char>>,
    Seq<Seq<char>>,
    Seq<Seq<char>>,
) {
    let head = seq![
        "pike \u{2014} CrowdStrike sensor deployer"@,
        "\u{2500}\u{2500}\u{2500}\u{2500}\u{2500}\u{2500}\u{2500}\u{2500}\u{2500}\u{2500}\u{2500}\u{2500}\u{2500}\u{2500}\u{2500}\u{2500}\u{2500}\u{2500}\u{2500}\u{2500}\u{2500}\u{2500}\u{2500}\u{2500}\u{2500}\u{2500}\u{2500}\u{2500}\u{2500}\u{2500}\u{2500}\u{2500}\u{2500}\u{2500}\u{2500}\u{2500}\u{2500}\u{2500}\u{2500}\u{2500}\u{2500}"@,
        "Server:    http://"@ + b.addr@ + ":"@ + decimal(b.port as nat),
        match b.token {
            Some(t) => "Token:     "@ + t@,
            None => "Auth:      disabled"@,
        },
    ];
    let public = match b.public_url {
        Some(u) => seq!["Public:    "@ + u@],
        None => Seq::empty(),
    };
    let api = if b.has_api {
        seq!["API:       connected"@]
    } else {
        Seq::empty()
    };
    let tags = match b.tags {
        Some(t) => seq!["Tags:      "@ + t@],
        None => Seq::empty(),
    };
    let limits = seq![
        "Cache:     "@ + b.cache_dir@,
        "Timeout:   "@ + timeout_text(b.timeout_minutes) + " | Max downloads: "@
            + max_downloads_text(b.max_downloads),
    ];
    let sensors = if b.sensor_lines@.len() > 0 {
        seq!["Sensors:"@] + views(b.sensor_lines@)
    } else if b.has_api {
        seq!["Sensors:   on-demand via API"@]
    } else {
        Seq::empty()
    };
    let tail = seq![
        Seq::empty(),
        "Linux:"@,
        "  curl -fsS "@ + b.base_url@ + "/lin | sudo bash"@,
        Seq::empty(),
        "Windows (Run as Administrator):"@,
        "  irm "@ + b.base_url@ + "/win | iex"@,
        Seq::empty(),
    ];
    (head, public, api, tags, limits, sensors, tail)
}

/// The banner lines, in order.
pub open spec fn spec_banner(b: BannerInfo) -> Seq<Seq<char>> {
    let p = spec_banner_parts(b);
    p.0 + p.1 + p.2 + p.3 + p.4 + p.5 + p.6
}

fn push_head(r: &mut Vec<String>, b: &BannerInfo)
    ensures
        views(final(r)@) == views(old(r)@) + spec_banner_parts(*b).0,
{
    let ghost before = views(r@);
    push_line(r, owned("pike \u{2014} CrowdStrike sensor deployer"));
    push_line(
        r,
        owned(
            "\u{2500}\u{2500}\u{2500}\u{2500}\u{2500}\u{2500}\u{2500}\u{2500}\u{2500}\u{2500}\u{2500}\u{2500}\u{2500}\u{2500}\u{2500}\u{2500}\u{2500}\u{2500}\u{2500}\u{2500}\u{2500}\u{2500}\u{2500}\u{2500}\u{2500}\u{2500}\u{2500}\u{2500}\u{2500}\u{2500}\u{2500}\u{2500}\u{2500}\u{2500}\u{2500}\u{2500}\u{2500}\u{2500}\u{2500}\u{2500}\u{2500}",
        ),
    );
    let port = decimal_string(b.port as u64);
    let server = concat3("Server:    http://", b.addr.as_str(), ":");
    push_line(r, concat2(server.as_str(), port.as_str()));
    match &b.token {
        Some(t) => push_line(r, concat2("Token:     ", t.as_str())),
        None => push_line(r, owned("Auth:      disabled")),
    }
    assert(views(r@) =~= before + spec_banner_parts(*b).0);
}

fn push_optional(r: &mut Vec<String>, b: &BannerInfo)
    ensures
        views(final(r)@) == views(old(r)@) + spec_banner_parts(*b).1 + spec_banner_parts(*b).2
            + spec_banner_parts(*b).3,
{
    let ghost before = views(r@);
    if let Some(u) = &b.public_url {
        push_line(r, concat2("Public:    ", u.as_str()));
    }
    assert(views(r@) =~= before + spec_banner_parts(*b).1);
    if b.has_api {
        push_line(r, owned("API:       connected"));
    }
    assert(views(r@) =~= before + spec_banner_parts(*b).1 + spec_banner_parts(*b).2);
    if let Some(t) = &b.tags {
        push_line(r, concat2("Tags:      ", t.as_str()));
    }
    assert(views(r@) =~= before + spec_banner_parts(*b).1 + spec_banner_parts(*b).2
        + spec_banner_parts(*b).3);
}

fn push_limits(r: &mut Vec<String>, b: &BannerInfo)
    ensures
        views(final(r)@) == views(old(r)@) + spec_banner_parts(*b).4,
{
    let ghost before = views(r@);
    push_line(r, concat2("Cache:     ", b.cache_dir.as_str()));
    let timeout = if b.timeout_minutes == 0 {
        owned("none")
    } else {
        let m = decimal_string(b.timeout_minutes);
        concat2(m.as_str(), " min")
    };
    let max_dl = if b.max_downloads == 0 {
        owned("unlimited")
    } else {
        decimal_string(b.max_downloads as u64)
    };
    let t1 = concat3("Timeout:   ", timeout.as_str(), " | Max downloads: ");
    push_line(r, concat2(t1.as_str(), max_dl.as_str()));
    assert(views(r@) =~= before + spec_banner_parts(*b).4);
}

fn push_sensors(r: &mut Vec<String>, b: &BannerInfo)
    ensures
        views(final(r)@) == views(old(r)@) + spec_banner_parts(*b).5,
{
    let ghost before = views(r@);
    if b.sensor_lines.len() > 0 {
        push_line(r, owned("Sensors:"));
        let mut i: usize = 0;
        while i < b.sensor_lines.len()
            invariant
                0 <= i <= b.sensor_lines.len(),
                views(r@) == before + seq!["Sensors:"@] + views(b.sensor_lines@.take(i as int)),
            decreases b.sensor_lines.len() - i,
        {
            push_line(r, b.sensor_lines[i].clone());
            assert(views(b.sensor_lines@.take(i + 1)) =~= views(
                b.sensor_lines@.take(i as int),
            ).push(b.sensor_lines@[i as int]@));
            i = i + 1;
        }
        assert(b.sensor_lines@.take(b.sensor_lines.len() as int) =~= b.sensor_lines@);
        assert(views(r@) =~= before + spec_banner_parts(*b).5);
    } else if b.has_api {
        push_line(r, owned("Sensors:   on-demand via API"));
        assert(views(r@) =~= before + spec_banner_parts(*b).5);
    } else {
        assert(views(r@) =~= before + spec_banner_parts(*b).5);
    }
}

fn push_tail(r: &mut Vec<String>, b: &BannerInfo)
    ensures
        views(final(r)@) == views(old(r)@) + spec_banner_parts(*b).6,
{
    let ghost before = views(r@);
    push_line(r, String::new());
    push_line(r, owned("Linux:"));
    push_line(r, concat3("  curl -fsS ", b.base_url.as_str(), "/lin | sudo bash"));
    push_line(r, String::new());
    push_line(r, owned("Windows (Run as Administrator):"));
    push_line(r, concat3("  irm ", b.base_url.as_str(), "/win | iex"));
    push_line(r, String::new());
    assert(views(r@) =~= before + spec_banner_parts(*b).6);
}

/// The startup banner: addresses, limits and the two ready-to-paste
/// one-liners, one line per element.
pub fn banner_lines(b: &BannerInfo) -> (r: Vec<String>)
    ensures
        views(r@) == spec_banner(*b),
{
    let mut r: Vec<String> = Vec::new();
    assert(views(r@) =~= Seq::<Seq<char>>::empty());
    push_head(&mut r, b);
    push_optional(&mut r, b);
    push_limits(&mut r, b);
    push_sensors(&mut r, b);
    push_tail(&mut r, b);
    assert(views(r@) =~= spec_banner(*b));
    r
}

} // verus!
