//! What the desktop window's configuration form means once "Start" is
//! pressed: the settings of the run, read from the text fields as the form
//! holds them.

use vstd::prelude::*;

use crate::config::validate::spec_clouds;
use crate::scripts::{resolve_tags, spec_resolve_tags};
use crate::text::{
    opt_view, owned, parse_unsigned, parse_unsigned_str, str_eq, trim, trim_end_char,
    trim_end_char_str, trim_str, views,
};

verus! {

/// The clouds of the form's selector, in order.
pub fn cloud_option(idx: usize) -> (r: &'static str)
    requires
        idx < 5,
    ensures
        r@ == spec_clouds()[idx as int],
{
    if idx == 0 {
        "us-1"
    } else if idx == 1 {
        "us-2"
    } else if idx == 2 {
        "eu-1"
    } else if idx == 3 {
        "us-gov-1"
    } else {
        "us-gov-2"
    }
}

/// The form's selector starts at eu-1.
pub const DEFAULT_CLOUD_IDX: usize = 2;

/// The fields of the form, as typed.
#[derive(Debug)]
pub struct StartForm {
    pub client_id: String,
    pub client_secret: String,
    pub cloud_idx: usize,
    pub cid: String,
    pub port: String,
    pub custom_url_enabled: bool,
    pub custom_url: String,
    pub tags: String,
    pub timeout: String,
    pub max_downloads: String,
    pub no_default_tag: bool,
}

/// The settings of a run started from the form.
#[derive(Debug)]
pub struct StartSettings {
    pub port: u16,
    pub timeout_minutes: u64,
    pub max_downloads: u32,
    pub cloud: String,
    pub has_api_creds: bool,
    pub client_id: String,
    pub client_secret: String,
    pub public_url: Option<String>,
    pub cid_explicit: String,
    pub tags: Option<String>,
}

pub open spec fn number_or(s: Seq<char>, max: nat, default: nat) -> nat {
    match parse_unsigned(s, max) {
        Some(n) => n,
        None => default,
    }
}

/// A field that does not parse falls back to its default: port 8080, a
/// timeout of 30 minutes, no download limit. API mode needs both
/// credentials; a custom URL counts only when enabled and not blank, and
/// loses its trailing slashes.
pub fn start_settings(form: &StartForm) -> (r: StartSettings)
    requires
        form.cloud_idx < 5,
    ensures
        r.port == number_or(form.port@, 65535, 8080),
        r.timeout_minutes == number_or(form.timeout@, u64::MAX as nat, 30),
        r.max_downloads == number_or(form.max_downloads@, u32::MAX as nat, 0),
        r.cloud@ == spec_clouds()[form.cloud_idx as int],
        r.has_api_creds == (trim(form.client_id@).len() > 0 && trim(form.client_secret@).len() > 0),
        r.client_id@ == trim(form.client_id@),
        r.client_secret@ == trim(form.client_secret@),
        opt_view(r.public_url) == (if form.custom_url_enabled && trim(form.custom_url@).len() > 0 {
            Some(trim_end_char(trim(form.custom_url@), '/'))
        } else {
            None
        }),
        r.cid_explicit@ == trim(form.cid@),
        opt_view(r.tags) == spec_resolve_tags(Some(form.tags@), !form.no_default_tag),
{
    let port = match parse_unsigned_str(form.port.as_str(), 65535) {
        Some(p) => p as u16,
        None => 8080,
    };
    let timeout_minutes = match parse_unsigned_str(form.timeout.as_str(), u64::MAX) {
        Some(t) => t,
        None => 30,
    };
    let max_downloads = match parse_unsigned_str(form.max_downloads.as_str(), 0xffff_ffff) {
        Some(m) => m as u32,
        None => 0,
    };
    let cloud = owned(cloud_option(form.cloud_idx));
    let client_id = trim_str(form.client_id.as_str());
    let client_secret = trim_str(form.client_secret.as_str());
    let has_api_creds = !client_id.as_str().is_empty() && !client_secret.as_str().is_empty();
    let url = trim_str(form.custom_url.as_str());
    let public_url = if form.custom_url_enabled && !url.as_str().is_empty() {
        Some(trim_end_char_str(url.as_str(), '/'))
    } else {
        None
    };
    let cid_explicit = trim_str(form.cid.as_str());
    let tags = resolve_tags(Some(form.tags.as_str()), !form.no_default_tag);
    StartSettings {
        port,
        timeout_minutes,
        max_downloads,
        cloud,
        has_api_creds,
        client_id,
        client_secret,
        public_url,
        cid_explicit,
        tags,
    }
}

/// The CID of a run started from the form: the one typed in, else the one
/// the API gave; without either the form comes back with an error.
pub fn choose_cid(cid_explicit: &str, api_cid: Option<String>) -> (r: Result<String, String>)
    ensures
        cid_explicit@.len() > 0 ==> (r matches Ok(c) && c@ == cid_explicit@),
        cid_explicit@.len() == 0 && api_cid is Some ==> r == Ok::<String, String>(api_cid->0),
        cid_explicit@.len() == 0 && api_cid is None ==> (r matches Err(m) && m@
            == "CID is required (provide it or use API credentials)"@),
{
    if !cid_explicit.is_empty() {
        return Ok(owned(cid_explicit));
    }
    match api_cid {
        Some(c) => Ok(c),
        None => Err(owned("CID is required (provide it or use API credentials)")),
    }
}

/// The address choice to show again when the form comes back: an
/// interface may have gone away while the server ran, and an index past
/// the list would break the selector.
pub fn restored_addr_index(saved: usize, available: usize) -> (r: usize)
    ensures
        r == (if saved < available {
            saved
        } else {
            0
        }),
{
    if saved < available {
        saved
    } else {
        0
    }
}

pub open spec fn spec_start_check(form: StartForm) -> Option<Seq<char>> {
    if parse_unsigned(form.port@, 65535) is None {
        Some("Invalid port number"@)
    } else if parse_unsigned(form.timeout@, u64::MAX as nat) is None {
        Some("Invalid timeout"@)
    } else if parse_unsigned(form.max_downloads@, u32::MAX as nat) is None {
        Some("Invalid max downloads"@)
    } else {
        None
    }
}

/// Whether the Start button is enabled: API credentials, or local files
/// and a CID.
pub fn can_start(form: &StartForm, n_files: usize) -> (r: bool)
    ensures
        r == ((trim(form.client_id@).len() > 0 && trim(form.client_secret@).len() > 0) || (n_files
            > 0 && trim(form.cid@).len() > 0)),
{
    let id = trim_str(form.client_id.as_str());
    let secret = trim_str(form.client_secret.as_str());
    let cid = trim_str(form.cid.as_str());
    (!id.as_str().is_empty() && !secret.as_str().is_empty()) || (n_files > 0
        && !cid.as_str().is_empty())
}

/// What pressing Start says about the numeric fields: the first that does
/// not parse, or nothing when the server may start.
pub fn start_check(form: &StartForm) -> (r: Result<(), String>)
    ensures
        match spec_start_check(*form) {
            Some(m) => r matches Err(e) && e@ == m,
            None => r is Ok,
        },
{
    if parse_unsigned_str(form.port.as_str(), 65535).is_none() {
        return Err(owned("Invalid port number"));
    }
    if parse_unsigned_str(form.timeout.as_str(), u64::MAX).is_none() {
        return Err(owned("Invalid timeout"));
    }
    if parse_unsigned_str(form.max_downloads.as_str(), 0xffff_ffff).is_none() {
        return Err(owned("Invalid max downloads"));
    }
    Ok(())
}

/// The file list after the files just picked were added: each new path at
/// the end, in order, unless it is listed already.
pub open spec fn merged(existing: Seq<Seq<char>>, picked: Seq<Seq<char>>) -> Seq<Seq<char>>
    decreases picked.len(),
{
    if picked.len() == 0 {
        existing
    } else {
        let next = if existing.contains(picked[0]) {
            existing
        } else {
            existing.push(picked[0])
        };
        merged(next, picked.drop_first())
    }
}

fn listed(paths: &Vec<String>, p: &str) -> (r: bool)
    ensures
        r == views(paths@).contains(p@),
{
    let mut i: usize = 0;
    while i < paths.len()
        invariant
            0 <= i <= paths.len(),
            forall|k: int| 0 <= k < i ==> paths@[k]@ != p@,
        decreases paths.len() - i,
    {
        if str_eq(paths[i].as_str(), p) {
            assert(views(paths@)[i as int] == p@);
            return true;
        }
        i = i + 1;
    }
    assert forall|k: int| 0 <= k < views(paths@).len() implies views(paths@)[k] != p@ by {
        assert(views(paths@)[k] == paths@[k]@);
    }
    false
}

/// Adds the files just picked to the list, skipping those already there.
pub fn merge_paths(paths: &mut Vec<String>, picked: Vec<String>)
    ensures
        views(final(paths)@) == merged(views(old(paths)@), views(picked@)),
{
    let ghost goal = merged(views(paths@), views(picked@));
    assert(views(picked@).skip(0) =~= views(picked@));
    let mut i: usize = 0;
    while i < picked.len()
        invariant
            0 <= i <= picked.len(),
            goal == merged(views(paths@), views(picked@).skip(i as int)),
        decreases picked.len() - i,
    {
        let ghost rest = views(picked@).skip(i as int);
        assert(rest[0] == picked@[i as int]@);
        assert(rest.drop_first() =~= views(picked@).skip(i + 1));
        if !listed(paths, picked[i].as_str()) {
            let ghost before = paths@;
            paths.push(picked[i].clone());
            assert(views(paths@) =~= views(before).push(picked@[i as int]@));
        }
        i = i + 1;
    }
    assert(views(picked@).skip(picked.len() as int) =~= Seq::<Seq<char>>::empty());
}

} // verus!
