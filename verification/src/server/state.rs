//! The deployment server's state: what it announces, which hosts came by,
//! how many downloads were served.

use vstd::prelude::*;

use crate::sensors::Sensor;
use crate::text::{
    concat2, concat3, decimal, decimal_string, owned, push_str, str_eq, trim_end_char,
    trim_end_char_str,
};

verus! {

/// The host list keeps at most this many entries.
pub const MAX_HOSTS: usize = 10_000;

#[derive(Debug, Clone)]
pub enum HostStatus {
    Registered,
    SensorReady,
    Installed,
    Failed(String),
}

pub enum StatusView {
    Registered,
    SensorReady,
    Installed,
    Failed(Seq<char>),
}

impl View for HostStatus {
    type V = StatusView;

    open spec fn view(&self) -> StatusView {
        match self {
            HostStatus::Registered => StatusView::Registered,
            HostStatus::SensorReady => StatusView::SensorReady,
            HostStatus::Installed => StatusView::Installed,
            HostStatus::Failed(m) => StatusView::Failed(m@),
        }
    }
}

impl HostStatus {
    /// The glyph shown beside a host.
    pub fn icon(&self) -> (res: &'static str)
        ensures
            res@ == match self@ {
                StatusView::Registered => "\u{25cb}"@,
                StatusView::SensorReady => "\u{25d0}"@,
                StatusView::Installed => "\u{25cf}"@,
                StatusView::Failed(_) => "\u{2715}"@,
            },
    {
        match self {
            HostStatus::Registered => "\u{25cb}",
            HostStatus::SensorReady => "\u{25d0}",
            HostStatus::Installed => "\u{25cf}",
            HostStatus::Failed(_) => "\u{2715}",
        }
    }

    /// The word shown beside a host.
    pub fn text(&self) -> (res: &'static str)
        ensures
            res@ == match self@ {
                StatusView::Registered => "Registered"@,
                StatusView::SensorReady => "Ready"@,
                StatusView::Installed => "Installed"@,
                StatusView::Failed(_) => "Failed"@,
            },
    {
        match self {
            HostStatus::Registered => "Registered",
            HostStatus::SensorReady => "Ready",
            HostStatus::Installed => "Installed",
            HostStatus::Failed(_) => "Failed",
        }
    }
}

/// A host that called back. `time` is when its status last changed, in
/// milliseconds since the Unix epoch.
#[derive(Debug, Clone)]
pub struct HostEntry {
    pub hostname: String,
    pub platform: String,
    pub arch: String,
    pub ip: String,
    pub status: HostStatus,
    pub time: i64,
}

pub struct HostView {
    pub hostname: Seq<char>,
    pub platform: Seq<char>,
    pub arch: Seq<char>,
    pub ip: Seq<char>,
    pub status: StatusView,
    pub time: i64,
}

impl View for HostEntry {
    type V = HostView;

    open spec fn view(&self) -> HostView {
        HostView {
            hostname: self.hostname@,
            platform: self.platform@,
            arch: self.arch@,
            ip: self.ip@,
            status: self.status@,
            time: self.time,
        }
    }
}

pub open spec fn host_views(h: Seq<HostEntry>) -> Seq<HostView> {
    h.map_values(|e: HostEntry| e@)
}

/// The host list after adding `entry`: when full, the oldest quarter goes.
pub open spec fn spec_push_host(hosts: Seq<HostView>, entry: HostView) -> Seq<HostView> {
    if hosts.len() >= MAX_HOSTS {
        hosts.subrange((hosts.len() / 4) as int, hosts.len() as int).push(entry)
    } else {
        hosts.push(entry)
    }
}

/// The index of the most recent entry for `hostname`.
pub open spec fn last_index_of(hosts: Seq<HostView>, hostname: Seq<char>, k: int) -> Option<int>
    decreases k,
{
    if k <= 0 {
        None
    } else if hosts[k - 1].hostname == hostname {
        Some(k - 1)
    } else {
        last_index_of(hosts, hostname, k - 1)
    }
}

/// The host list after the most recent entry for `hostname` changed to
/// `status` at `now`; unchanged when there is none.
pub open spec fn spec_update_status(
    hosts: Seq<HostView>,
    hostname: Seq<char>,
    status: StatusView,
    now: i64,
) -> Seq<HostView> {
    match last_index_of(hosts, hostname, hosts.len() as int) {
        Some(j) => hosts.update(
            j,
            HostView {
                hostname: hosts[j].hostname,
                platform: hosts[j].platform,
                arch: hosts[j].arch,
                ip: hosts[j].ip,
                status,
                time: now,
            },
        ),
        None => hosts,
    }
}

/// The base URL of the one-liners.
pub open spec fn spec_base_url(
    token: Option<Seq<char>>,
    public_url: Option<Seq<char>>,
    addr: Seq<char>,
    port: u16,
) -> Seq<char> {
    match public_url {
        Some(u) => match token {
            Some(t) => trim_end_char(u, '/') + "/"@ + t,
            None => trim_end_char(u, '/'),
        },
        None => match token {
            Some(t) => "http://"@ + addr + ":"@ + decimal(port as nat) + "/"@ + t,
            None => "http://"@ + addr + ":"@ + decimal(port as nat),
        },
    }
}

pub open spec fn spec_base_url_with_host(token: Option<Seq<char>>, host: Seq<char>) -> Seq<char> {
    match token {
        Some(t) => "http://"@ + host + "/"@ + t,
        None => "http://"@ + host,
    }
}

/// The server's state. Runtime plumbing (locks, the shutdown notifier, the
/// API caches and the sensor bytes) lives with whoever runs the server;
/// `has_api` says whether the API caches exist.
pub struct AppState {
    pub token: Option<String>,
    pub cid: String,
    pub cloud: Option<String>,
    pub addr: String,
    pub port: u16,
    pub public_url: Option<String>,
    /// Explicitly supplied files. Fixed after startup: anything downloaded
    /// from the API stays out, otherwise the first downloaded version would
    /// beat fresh metadata forever.
    pub local_sensors: Vec<Sensor>,
    pub has_api: bool,
    pub download_count: u32,
    pub max_downloads: u32,
    pub hosts: Vec<HostEntry>,
    pub tags: Option<String>,
}

impl AppState {
    pub open spec fn host_list(&self) -> Seq<HostView> {
        host_views(self.hosts@)
    }

    pub open spec fn spec_base(&self) -> Seq<char> {
        spec_base_url(
            crate::text::opt_view(self.token),
            crate::text::opt_view(self.public_url),
            self.addr@,
            self.port,
        )
    }

    /// Records a host. When the list is full the oldest quarter is dropped
    /// first, so it never grows past `MAX_HOSTS`.
    pub fn push_host(&mut self, entry: HostEntry)
        ensures
            final(self).host_list() == spec_push_host(old(self).host_list(), entry@),
            final(self).token == old(self).token,
            final(self).cid == old(self).cid,
            final(self).cloud == old(self).cloud,
            final(self).addr == old(self).addr,
            final(self).port == old(self).port,
            final(self).public_url == old(self).public_url,
            final(self).local_sensors@ == old(self).local_sensors@,
            final(self).has_api == old(self).has_api,
            final(self).download_count == old(self).download_count,
            final(self).max_downloads == old(self).max_downloads,
            final(self).tags == old(self).tags,
    {
        let ghost before = self.host_list();
        if self.hosts.len() >= MAX_HOSTS {
            let drain = self.hosts.len() / 4;
            let rest = self.hosts.split_off(drain);
            self.hosts = rest;
            assert(host_views(self.hosts@) =~= before.subrange(drain as int, before.len() as int));
        }
        let ghost mid = self.host_list();
        self.hosts.push(entry);
        assert(host_views(self.hosts@) =~= mid.push(entry@));
    }

    /// Changes the status of the most recent entry for `hostname` and
    /// stamps it with `now`; does nothing when the host is unknown.
    pub fn update_host_status(&mut self, hostname: &str, status: HostStatus, now: i64)
        ensures
            final(self).host_list() == spec_update_status(
                old(self).host_list(),
                hostname@,
                status@,
                now,
            ),
            final(self).token == old(self).token,
            final(self).cid == old(self).cid,
            final(self).cloud == old(self).cloud,
            final(self).addr == old(self).addr,
            final(self).port == old(self).port,
            final(self).public_url == old(self).public_url,
            final(self).local_sensors@ == old(self).local_sensors@,
            final(self).has_api == old(self).has_api,
            final(self).download_count == old(self).download_count,
            final(self).max_downloads == old(self).max_downloads,
            final(self).tags == old(self).tags,
    {
        let ghost hs = self.host_list();
        let mut k: usize = self.hosts.len();
        while k > 0 && !str_eq(self.hosts[k - 1].hostname.as_str(), hostname)
            invariant
                0 <= k <= self.hosts.len(),
                hs == host_views(self.hosts@),
                last_index_of(hs, hostname@, hs.len() as int) == last_index_of(
                    hs,
                    hostname@,
                    k as int,
                ),
            decreases k,
        {
            k = k - 1;
        }
        if k > 0 {
            let j = k - 1;
            let e = HostEntry {
                hostname: self.hosts[j].hostname.clone(),
                platform: self.hosts[j].platform.clone(),
                arch: self.hosts[j].arch.clone(),
                ip: self.hosts[j].ip.clone(),
                status,
                time: now,
            };
            self.hosts.set(j, e);
            assert(host_views(self.hosts@) =~= spec_update_status(hs, hostname@, status@, now));
        } else {
            assert(last_index_of(hs, hostname@, 0) is None);
        }
    }

    /// The base URL of the one-liners, built from the request's `Host`.
    pub fn base_url_with_host(&self, host: &str) -> (res: String)
        ensures
            res@ == spec_base_url_with_host(crate::text::opt_view(self.token), host@),
    {
        match &self.token {
            Some(t) => {
                let mut r = concat3("http://", host, "/");
                push_str(&mut r, t.as_str());
                r
            },
            None => concat2("http://", host),
        }
    }

    /// The base URL of the one-liners, from the configuration only:
    /// `public_url` when set, otherwise the advertised address and port.
    /// It is baked into scripts that hosts run as root, so a request's
    /// `Host` header never reaches it.
    pub fn base_url(&self) -> (res: String)
        ensures
            res@ == self.spec_base(),
    {
        match &self.public_url {
            Some(url) => {
                let base = trim_end_char_str(url.as_str(), '/');
                match &self.token {
                    Some(t) => {
                        let mut r = concat2(base.as_str(), "/");
                        push_str(&mut r, t.as_str());
                        r
                    },
                    None => base,
                }
            },
            None => {
                let port = decimal_string(self.port as u64);
                let mut r = concat3("http://", self.addr.as_str(), ":");
                push_str(&mut r, port.as_str());
                match &self.token {
                    Some(t) => {
                        push_str(&mut r, "/");
                        push_str(&mut r, t.as_str());
                        r
                    },
                    None => r,
                }
            },
        }
    }
}


// ---------------------------------------------------------------------------
// Laws
// ---------------------------------------------------------------------------

/// The host list never grows past `MAX_HOSTS`: at the limit the oldest
/// quarter goes. The new entry is always the last, and what stays is the
/// newest part of the old list, in order.
pub proof fn law_host_list_is_bounded(hosts: Seq<HostView>, entry: HostView)
    requires
        hosts.len() <= MAX_HOSTS,
    ensures
        spec_push_host(hosts, entry).len() <= MAX_HOSTS,
        spec_push_host(hosts, entry).last() == entry,
        spec_push_host(hosts, entry).drop_last() == hosts.subrange(
            hosts.len() - (spec_push_host(hosts, entry).len() - 1),
            hosts.len() as int,
        ),
{
    let r = spec_push_host(hosts, entry);
    assert(r.drop_last() =~= hosts.subrange(hosts.len() - (r.len() - 1), hosts.len() as int));
}

/// A status change touches one entry, the most recent one of the host;
/// every other entry, and the length, stay as they were.
pub proof fn law_status_change_touches_latest_only(
    hosts: Seq<HostView>,
    hostname: Seq<char>,
    status: StatusView,
    now: i64,
)
    ensures
        spec_update_status(hosts, hostname, status, now).len() == hosts.len(),
        forall|i: int|
            0 <= i < hosts.len() && Some(i) != last_index_of(hosts, hostname, hosts.len() as int)
                ==> #[trigger] spec_update_status(hosts, hostname, status, now)[i] == hosts[i],
        last_index_of(hosts, hostname, hosts.len() as int) matches Some(j) ==> {
            &&& hosts[j].hostname == hostname
            &&& spec_update_status(hosts, hostname, status, now)[j].status == status
            &&& forall|k: int| j < k < hosts.len() ==> #[trigger] hosts[k].hostname != hostname
        },
{
    lemma_last_index_of(hosts, hostname, hosts.len() as int);
}

proof fn lemma_last_index_of(hosts: Seq<HostView>, hostname: Seq<char>, k: int)
    requires
        0 <= k <= hosts.len(),
    ensures
        last_index_of(hosts, hostname, k) matches Some(j) ==> 0 <= j < k && hosts[j].hostname
            == hostname && forall|m: int| j < m < k ==> #[trigger] hosts[m].hostname != hostname,
    decreases k,
{
    if k > 0 {
        lemma_last_index_of(hosts, hostname, k - 1);
    }
}

} // verus!
