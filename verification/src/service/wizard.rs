//! The answers of `pike service-install`, and the checks and decisions of
//! the wizard that collects them. Everything that can fail because of an
//! answer is checked here, before the first write to disk.

use vstd::prelude::*;

use crate::net::spec_unroutable;
use crate::server::state::spec_base_url;
use crate::text::trim_end_char;
use crate::net::is_unroutable_advertised;
use crate::text::{
    concat2, concat3, decimal, decimal_string, lower, lowercase_str, owned, parse_unsigned,
    parse_unsigned_str, push_str, split_whitespace_str, starts_with, starts_with_str, str_eq,
    trim, trim_str, views, words,
};

verus! {

/// Everything the wizard asks.
#[derive(Debug)]
pub struct Answers {
    pub client_id: String,
    pub client_secret: String,
    pub cloud: String,
    pub cid: String,
    pub port: u16,
    pub bind: String,
    pub addr: Option<String>,
    pub public_url: Option<String>,
    pub token: Option<String>,
    pub tags: Option<String>,
    pub cache_dir: String,
    pub metadata_ttl_minutes: u64,
    pub cache_max_bytes: u64,
}

/// What the installation writes and reports.
#[derive(Debug)]
pub struct InstallPlan {
    pub config_toml: String,
    pub port: u16,
    pub cache_dir: String,
    pub enable_auto_update: bool,
    pub base_url_hint: String,
}

/// The cache directory must be absolute, and one word: a space would split
/// the value of `ReadWritePaths=` and break the unit.
pub fn validate_cache_dir(value: &str) -> (r: Result<String, String>)
    ensures
        !starts_with(value@, "/"@) ==> (r matches Err(m) && m@ == "must be an absolute path"@),
        starts_with(value@, "/"@) && words(value@).len() != 1 ==> (r matches Err(m) && m@
            == "must not contain whitespace"@),
        starts_with(value@, "/"@) && words(value@).len() == 1 ==> (r matches Ok(v) && v@
            == value@),
{
    if !starts_with_str(value, "/") {
        return Err(owned("must be an absolute path"));
    }
    let ws = split_whitespace_str(value);
    assert(views(ws@).len() == ws@.len());
    if ws.len() != 1 {
        return Err(owned("must not contain whitespace"));
    }
    Ok(owned(value))
}

/// A port answer: a `u16` as `str::parse` reads it.
pub fn parse_port(value: &str) -> (r: Result<u16, String>)
    ensures
        match parse_unsigned(value@, 65535) {
            Some(n) => r == Ok::<u16, String>(n as u16),
            None => r matches Err(m) && m@ == "not a valid port"@,
        },
{
    match parse_unsigned_str(value, 65535) {
        Some(n) => Ok(n as u16),
        None => Err(owned("not a valid port")),
    }
}

/// A line typed at a prompt: the trimmed answer, or the default when the
/// answer is blank; nothing when there is neither (the question is asked
/// again).
pub fn prompt_answer(line: &str, default: Option<&str>) -> (r: Option<String>)
    ensures
        trim(line@).len() > 0 ==> (r matches Some(a) && a@ == trim(line@)),
        trim(line@).len() == 0 ==> match default {
            Some(d) => r matches Some(a) && a@ == d@,
            None => r is None,
        },
{
    let t = trim_str(line);
    if !t.as_str().is_empty() {
        return Some(t);
    }
    match default {
        Some(d) => Some(owned(d)),
        None => None,
    }
}

pub open spec fn spec_yes_no(line: Seq<char>, default: bool) -> Option<bool> {
    let a = lower(trim(line));
    if a.len() == 0 {
        Some(default)
    } else if a == "y"@ || a == "yes"@ {
        Some(true)
    } else if a == "n"@ || a == "no"@ {
        Some(false)
    } else {
        None
    }
}

/// A yes/no answer, letters in any case: blank means the default; anything
/// else but y, yes, n, no is asked again.
pub fn yes_no(line: &str, default: bool) -> (r: Option<bool>)
    ensures
        r == spec_yes_no(line@, default),
{
    let t = trim_str(line);
    let a = lowercase_str(t.as_str());
    if a.as_str().is_empty() {
        Some(default)
    } else if str_eq(a.as_str(), "y") || str_eq(a.as_str(), "yes") {
        Some(true)
    } else if str_eq(a.as_str(), "n") || str_eq(a.as_str(), "no") {
        Some(false)
    } else {
        None
    }
}

/// What to do with an answer to "advertised address".
#[derive(Debug)]
pub enum AddrAnswer {
    /// Blank: let the server detect its address.
    Skip,
    /// This address.
    Use(String),
    /// Ask again, with this note.
    Again(String),
}

/// The menu of advertised addresses: bindable but useless ones (wildcard,
/// loopback) are left out, the order kept.
pub open spec fn advertisable(addrs: Seq<(Seq<char>, Seq<char>)>) -> Seq<(Seq<char>, Seq<char>)>
    decreases addrs.len(),
{
    if addrs.len() == 0 {
        Seq::empty()
    } else {
        let rest = advertisable(addrs.drop_last());
        if spec_unroutable(addrs.last().1) {
            rest
        } else {
            rest.push(addrs.last())
        }
    }
}

pub fn advertisable_addrs(addrs: &Vec<(String, String)>) -> (r: Vec<(String, String)>)
    ensures
        crate::net::pairs_view(r@) == advertisable(crate::net::pairs_view(addrs@)),
{
    let mut r: Vec<(String, String)> = Vec::new();
    let mut i: usize = 0;
    while i < addrs.len()
        invariant
            0 <= i <= addrs.len(),
            crate::net::pairs_view(r@) == advertisable(
                crate::net::pairs_view(addrs@).take(i as int),
            ),
        decreases addrs.len() - i,
    {
        let ghost all = crate::net::pairs_view(addrs@);
        assert(all.take(i + 1).drop_last() =~= all.take(i as int));
        assert(all.take(i + 1).last() == crate::net::pair_view(addrs@[i as int]));
        if !is_unroutable_advertised(addrs[i].1.as_str()) {
            let ghost before = r@;
            r.push((addrs[i].0.clone(), addrs[i].1.clone()));
            assert(crate::net::pairs_view(r@) =~= crate::net::pairs_view(before).push(
                crate::net::pair_view(addrs@[i as int]),
            ));
        }
        i = i + 1;
    }
    assert(crate::net::pairs_view(addrs@).take(addrs.len() as int) =~= crate::net::pairs_view(
        addrs@,
    ));
    r
}

pub open spec fn no_such_index(n: nat) -> Seq<char> {
    "(no such index; pick 0-"@ + decimal((n - 1) as nat) + ")"@
}

/// An answer (already trimmed) to "advertised address — index or literal".
/// A number outside the menu is almost certainly a mistyped index rather
/// than an address: storing it would hand hosts `http://4:8080/<token>`.
pub fn advertised_answer(raw: &str, menu: &Vec<(String, String)>) -> (r: AddrAnswer)
    ensures
        raw@.len() == 0 ==> r is Skip,
        raw@.len() > 0 ==> match parse_unsigned(raw@, usize::MAX as nat) {
            Some(i) => if i < menu@.len() {
                r matches AddrAnswer::Use(a) && a@ == menu@[i as int].1@
            } else if menu@.len() == 0 {
                r matches AddrAnswer::Again(m) && m@ == "(nothing to pick from; type an address)"@
            } else {
                r matches AddrAnswer::Again(m) && m@ == no_such_index(menu@.len())
            },
            None => r matches AddrAnswer::Use(a) && a@ == raw@,
        },
{
    if raw.is_empty() {
        proof {
            assert(raw@.len() == 0);
        }
        return AddrAnswer::Skip;
    }
    proof {
        assert(raw@.len() > 0);
    }
    match parse_unsigned_str(raw, usize::MAX as u64) {
        Some(i) => {
            if i < menu.len() as u64 {
                AddrAnswer::Use(menu[i as usize].1.clone())
            } else if menu.len() == 0 {
                AddrAnswer::Again(owned("(nothing to pick from; type an address)"))
            } else {
                let n = decimal_string((menu.len() - 1) as u64);
                AddrAnswer::Again(concat3("(no such index; pick 0-", n.as_str(), ")"))
            }
        },
        None => AddrAnswer::Use(owned(raw)),
    }
}

pub open spec fn spec_base_url_hint(
    public_url: Option<Seq<char>>,
    shown_addr: Seq<char>,
    port: u16,
    token: Option<Seq<char>>,
) -> Seq<char> {
    let host = match public_url {
        Some(u) => u,
        None => "http://"@ + shown_addr + ":"@ + decimal(port as nat),
    };
    match token {
        Some(t) => host + "/"@ + t,
        None => host,
    }
}

/// The base of the one-liners printed after an installation: the public
/// URL, else the advertised (or detected) address and the port; then the
/// token. Without an explicit address the server detects its own, so the
/// hint is given the same detected address.
pub fn base_url_hint(public_url: Option<&str>, shown_addr: &str, port: u16, token: Option<&str>) -> (r: String)
    ensures
        r@ == spec_base_url_hint(
            match public_url {
                Some(u) => Some(u@),
                None => None,
            },
            shown_addr@,
            port,
            match token {
                Some(t) => Some(t@),
                None => None,
            },
        ),
{
    let mut host = match public_url {
        Some(u) => owned(u),
        None => {
            let p = decimal_string(port as u64);
            let h = concat3("http://", shown_addr, ":");
            concat2(h.as_str(), p.as_str())
        },
    };
    match token {
        Some(t) => {
            push_str(&mut host, "/");
            push_str(&mut host, t);
            host
        },
        None => host,
    }
}


/// The printed base carries the token whenever there is one, public URL or
/// not, and it is the base the running server advertises for the same
/// settings (a public URL being given without a trailing `/`).
pub proof fn law_hint_names_the_served_base(
    public_url: Option<Seq<char>>,
    shown_addr: Seq<char>,
    port: u16,
    token: Option<Seq<char>>,
)
    ensures
        token matches Some(t) ==> spec_base_url_hint(public_url, shown_addr, port, token)
            == spec_base_url_hint(public_url, shown_addr, port, None) + "/"@ + t,
        (public_url matches Some(u) ==> trim_end_char(u, '/') == u) ==> spec_base_url_hint(
            public_url,
            shown_addr,
            port,
            token,
        ) == spec_base_url(token, public_url, shown_addr, port),
{
}

} // verus!
