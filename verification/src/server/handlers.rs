//! What the five routes answer. Each step of the deployment flow is a
//! decision over the server state: script, then a callback with facts about
//! the host, then the binary, then the report. The outside work between
//! the decisions (fetching the sensor list, downloading a binary, reading
//! the cache directory) is done by the caller, which hands the outcome back.

use vstd::prelude::*;

use crate::error::AppError;
use crate::scripts::{
    generate_linux_script, generate_windows_script, opt_str_view, spec_linux_script,
    spec_windows_script,
};
use crate::sensors::matching::{api_choice, law_api_choice_fits_host, find_best_api_sensor, find_best_local_sensor, local_choice};
use crate::sensors::{SensorMeta, SensorType};
use crate::text::{
    chars_of, concat2, concat3, decimal, decimal_string, control_char, is_control, keep, lemma_keep_push, lower, lowercase_str,
    opt_view, owned, push_char, push_str, split_n, split_n_str, str_eq, string_of, trim, trim_str, views,
};

use super::parse::{
    callback_error, callback_fields, callback_parts, hostname_ok, is_valid_hostname,
    is_valid_sha256, opt_field, parse_callback, pkg_type_of, sha256_ok, CallbackInfo,
};
use super::state::{
    spec_push_host, spec_update_status, AppState, HostEntry, HostStatus, HostView, StatusView,
};

verus! {

/// The longest error message a host report may leave.
pub const MAX_MESSAGE_LEN: usize = 200;

/// An HTTP answer: status code and text body.
#[derive(Debug)]
pub struct Reply {
    pub status: u16,
    pub body: String,
}

pub open spec fn reply_is(r: Reply, status: u16, body: Seq<char>) -> bool {
    r.status == status && r.body@ == body
}

fn reply(status: u16, body: &str) -> (r: Reply)
    ensures
        reply_is(r, status, body@),
{
    Reply { status, body: owned(body) }
}

fn empty_reply(status: u16) -> (r: Reply)
    ensures
        reply_is(r, status, Seq::<char>::empty()),
{
    Reply { status, body: String::new() }
}

/// Everything but the host list and the download counter is unchanged.
pub open spec fn same_setup(a: AppState, b: AppState) -> bool {
    &&& a.token == b.token
    &&& a.cid == b.cid
    &&& a.cloud == b.cloud
    &&& a.addr == b.addr
    &&& a.port == b.port
    &&& a.public_url == b.public_url
    &&& a.local_sensors@ == b.local_sensors@
    &&& a.has_api == b.has_api
    &&& a.max_downloads == b.max_downloads
    &&& a.tags == b.tags
}

// ---------------------------------------------------------------------------
// /lin and /win
// ---------------------------------------------------------------------------

#[derive(Debug, Clone, Copy, PartialEq, Eq, Structural)]
pub enum Platform {
    Linux,
    Windows,
}

impl Platform {
    pub fn label(self) -> (res: &'static str)
        ensures
            res@ == match self {
                Platform::Linux => "linux"@,
                Platform::Windows => "windows"@,
            },
    {
        match self {
            Platform::Linux => "linux",
            Platform::Windows => "windows",
        }
    }
}

// ---------------------------------------------------------------------------
// /done
// ---------------------------------------------------------------------------

pub open spec fn first_chars(s: Seq<char>, n: nat) -> Seq<char> {
    if s.len() > n {
        s.subrange(0, n as int)
    } else {
        s
    }
}

/// Control characters (newlines above all, which could forge a log line)
/// are dropped, the rest cut to `MAX_MESSAGE_LEN` characters and trimmed;
/// nothing left means "unknown error".
pub open spec fn spec_sanitize_message(raw: Seq<char>) -> Seq<char> {
    let t = trim(first_chars(keep(raw, |c: char| !is_control(c)), 200));
    if t.len() == 0 {
        "unknown error"@
    } else {
        t
    }
}

pub open spec fn done_parts(body: Seq<char>) -> Seq<Seq<char>> {
    split_n(trim(body), '|', 3)
}

/// The status a well-formed report sets.
pub open spec fn done_status(parts: Seq<Seq<char>>) -> StatusView {
    if parts[1] == "ok"@ {
        StatusView::Installed
    } else {
        StatusView::Failed(
            spec_sanitize_message(
                if parts.len() > 2 {
                    parts[2]
                } else {
                    "unknown error"@
                },
            ),
        )
    }
}

/// A report is well formed: at least two fields and a valid host name.
pub open spec fn done_accepted(body: Seq<char>) -> bool {
    done_parts(body).len() >= 2 && hostname_ok(done_parts(body)[0])
}

pub fn sanitize_message(raw: &str) -> (res: String)
    ensures
        res@ == spec_sanitize_message(raw@),
{
    let v = chars_of(raw);
    let ghost p = |c: char| !is_control(c);
    let mut kept: Vec<char> = Vec::new();
    let mut i: usize = 0;
    while i < v.len()
        invariant
            0 <= i <= v.len(),
            p == (|c: char| !is_control(c)),
            kept@ == first_chars(keep(v@.subrange(0, i as int), p), 200),
            kept@.len() <= 200,
        decreases v.len() - i,
    {
        let c = v[i];
        proof {
            assert(v@.subrange(0, i + 1) =~= v@.subrange(0, i as int).push(c));
            lemma_keep_push(v@.subrange(0, i as int), c, p);
            let k = keep(v@.subrange(0, i as int), p);
            if k.len() >= 200 && !is_control(c) {
                assert(k.push(c).subrange(0, 200) =~= first_chars(k, 200));
            }
        }
        if !control_char(c) && kept.len() < MAX_MESSAGE_LEN {
            kept.push(c);
        }
        i = i + 1;
    }
    assert(v@.subrange(0, v.len() as int) =~= v@);
    let cleaned = string_of(&kept, 0, kept.len());
    assert(kept@.subrange(0, kept.len() as int) =~= kept@);
    let t = trim_str(cleaned.as_str());
    if t.as_str().is_empty() {
        owned("unknown error")
    } else {
        t
    }
}

impl AppState {
    /// `/done`. Body: `hostname|ok` or `hostname|error|message`. The host
    /// name follows the `/cb` rules: it and the message end up in the log,
    /// and a newline there would let a caller forge someone else's line.
    pub fn serve_done(&mut self, body: &str, now: i64) -> (r: Reply)
        ensures
            same_setup(*final(self), *old(self)),
            final(self).download_count == old(self).download_count,
            done_accepted(body@) ==> reply_is(r, 200, Seq::<char>::empty()) && final(self).host_list()
                == spec_update_status(
                old(self).host_list(),
                done_parts(body@)[0],
                done_status(done_parts(body@)),
                now,
            ),
            !done_accepted(body@) ==> reply_is(r, 400, Seq::<char>::empty()) && final(self).host_list()
                == old(self).host_list(),
    {
        let trimmed = trim_str(body);
        let parts = split_n_str(trimmed.as_str(), '|', 3);
        let ghost ps = done_parts(body@);
        assert(views(parts@) == ps);
        if parts.len() < 2 {
            return empty_reply(400);
        }
        assert(parts[0]@ == ps[0] && parts[1]@ == ps[1]);
        let hostname = &parts[0];
        if !is_valid_hostname(hostname.as_str()) {
            return empty_reply(400);
        }
        if str_eq(parts[1].as_str(), "ok") {
            self.update_host_status(hostname.as_str(), HostStatus::Installed, now);
        } else {
            let raw: &str = if parts.len() > 2 {
                assert(parts[2]@ == ps[2]);
                parts[2].as_str()
            } else {
                "unknown error"
            };
            let msg = sanitize_message(raw);
            self.update_host_status(hostname.as_str(), HostStatus::Failed(msg), now);
        }
        empty_reply(200)
    }
}

// ---------------------------------------------------------------------------
// /cb
// ---------------------------------------------------------------------------

/// After a callback was parsed and the host registered: either the answer,
/// or the sensor list for a platform is needed first.
#[derive(Debug)]
pub enum CallbackStep {
    Answer(Reply),
    NeedList(CallbackInfo),
}

/// After the sensor list came: either the answer, or the chosen installer
/// must be in the cache first.
#[derive(Debug)]
pub enum ListStep {
    Answer(Reply),
    NeedBinary { name: String, sha256: String, file_size: u64 },
}

/// The API platform whose list covers a package type.
pub open spec fn spec_list_platform(t: SensorType) -> Seq<char> {
    match t {
        SensorType::Deb | SensorType::Rpm => "linux"@,
        SensorType::WindowsExe => "windows"@,
    }
}

/// The API `file_type` of a package type.
pub open spec fn spec_file_type(t: SensorType) -> Seq<char> {
    match t {
        SensorType::Deb => "deb"@,
        SensorType::Rpm => "rpm"@,
        SensorType::WindowsExe => "exe"@,
    }
}

pub fn list_platform(t: SensorType) -> (res: &'static str)
    ensures
        res@ == spec_list_platform(t),
{
    match t {
        SensorType::Deb | SensorType::Rpm => "linux",
        SensorType::WindowsExe => "windows",
    }
}

pub fn file_type_of(t: SensorType) -> (res: &'static str)
    ensures
        res@ == spec_file_type(t),
{
    match t {
        SensorType::Deb => "deb",
        SensorType::Rpm => "rpm",
        SensorType::WindowsExe => "exe",
    }
}

/// The host list entry a callback creates.
pub open spec fn registration(body: Seq<char>, remote: Seq<char>, now: i64) -> HostView {
    let parts = callback_parts(body);
    HostView {
        hostname: parts[0],
        platform: parts[1],
        arch: parts[2],
        ip: remote,
        status: StatusView::Registered,
        time: now,
    }
}

pub open spec fn failed(msg: Seq<char>) -> StatusView {
    StatusView::Failed(msg)
}

impl AppState {
    /// The first step of `/cb`: parse the body, register the host, and
    /// answer from the local files when one matches. Explicitly supplied
    /// files win: that is a deliberate version pin. Without a local match
    /// and without the API the answer is 404; with the API the sensor list
    /// of the host's platform is needed next.
    pub fn callback_begin(&mut self, body: &str, remote: &str, now: i64) -> (r: CallbackStep)
        ensures
            same_setup(*final(self), *old(self)),
            final(self).download_count == old(self).download_count,
            callback_error(body@) is Some ==> r is Answer && reply_is(
                r->Answer_0,
                400,
                Seq::<char>::empty(),
            ) && final(self).host_list() == old(self).host_list(),
            callback_error(body@) is None ==> {
                let parts = callback_parts(body@);
                let registered = spec_push_host(
                    old(self).host_list(),
                    registration(body@, remote@, now),
                );
                let t = crate::server::parse::pkg_type_of(parts[1]).unwrap();
                let choice = local_choice(
                    old(self).local_sensors@,
                    t,
                    parts[2],
                    opt_field(parts, 3),
                    opt_field(parts, 4),
                );
                match choice {
                    Some(i) => {
                        &&& r is Answer
                        &&& reply_is(
                            r->Answer_0,
                            200,
                            old(self).local_sensors@[i].filename@ + "|"@
                                + old(self).local_sensors@[i].sha256@,
                        )
                        &&& final(self).host_list() == spec_update_status(
                            registered,
                            parts[0],
                            StatusView::SensorReady,
                            now,
                        )
                    },
                    None => if !old(self).has_api {
                        &&& r is Answer
                        &&& reply_is(r->Answer_0, 404, "no matching sensor available"@)
                        &&& final(self).host_list() == spec_update_status(
                            registered,
                            parts[0],
                            failed("no matching sensor"@),
                            now,
                        )
                    } else {
                        &&& r is NeedList
                        &&& callback_fields(r->NeedList_0, body@)
                        &&& final(self).host_list() == registered
                    },
                }
            },
    {
        let info = match parse_callback(body) {
            Ok(i) => i,
            Err(_) => {
                return CallbackStep::Answer(empty_reply(400));
            },
        };
        self.push_host(
            HostEntry {
                hostname: info.hostname.clone(),
                platform: info.pkg_type.clone(),
                arch: info.arch.clone(),
                ip: owned(remote),
                status: HostStatus::Registered,
                time: now,
            },
        );
        let found = find_best_local_sensor(
            self.local_sensors.as_slice(),
            info.target_type,
            info.arch.as_str(),
            info.distro_id.as_str(),
            info.distro_version.as_str(),
        );
        match found {
            Some(sensor) => {
                let body = concat3(sensor.filename.as_str(), "|", sensor.sha256.as_str());
                self.update_host_status(info.hostname.as_str(), HostStatus::SensorReady, now);
                CallbackStep::Answer(Reply { status: 200, body })
            },
            None => {
                if !self.has_api {
                    self.update_host_status(
                        info.hostname.as_str(),
                        HostStatus::Failed(owned("no matching sensor")),
                        now,
                    );
                    CallbackStep::Answer(reply(404, "no matching sensor available"))
                } else {
                    CallbackStep::NeedList(info)
                }
            },
        }
    }

    /// The second step of `/cb`, once the sensor list of the host's
    /// platform came back (or did not). The chosen entry's sha256 is
    /// normalised to lowercase here, at the metadata boundary, because the
    /// `/s/{sha256}` route accepts only that: the answer and the cached file
    /// name must agree.
    pub fn callback_with_list(
        &mut self,
        info: &CallbackInfo,
        list: Result<Vec<SensorMeta>, AppError>,
        now: i64,
    ) -> (r: ListStep)
        ensures
            same_setup(*final(self), *old(self)),
            final(self).download_count == old(self).download_count,
            list is Err ==> {
                &&& r is Answer
                &&& reply_is(
                    r->Answer_0,
                    503,
                    "sensor list unavailable \u{2014} CrowdStrike API unreachable"@,
                )
                &&& final(self).host_list() == spec_update_status(
                    old(self).host_list(),
                    info.hostname@,
                    failed("sensor list unavailable"@),
                    now,
                )
            },
            list matches Ok(metas) ==> match api_choice(
                metas@,
                spec_file_type(info.target_type),
                info.arch@,
                info.distro_id@,
                info.distro_version@,
            ) {
                Some(i) => {
                    &&& r is NeedBinary
                    &&& r->name@ == metas@[i].name@
                    &&& r->sha256@ == lower(metas@[i].sha256@)
                    &&& r->file_size == metas@[i].file_size
                    &&& final(self).host_list() == old(self).host_list()
                },
                None => {
                    &&& r is Answer
                    &&& reply_is(r->Answer_0, 404, "no matching sensor available"@)
                    &&& final(self).host_list() == spec_update_status(
                        old(self).host_list(),
                        info.hostname@,
                        failed("no matching sensor"@),
                        now,
                    )
                },
            },
    {
        match list {
            Err(_) => {
                self.update_host_status(
                    info.hostname.as_str(),
                    HostStatus::Failed(owned("sensor list unavailable")),
                    now,
                );
                ListStep::Answer(
                    reply(503, "sensor list unavailable \u{2014} CrowdStrike API unreachable"),
                )
            },
            Ok(metas) => {
                let ft = file_type_of(info.target_type);
                let found = find_best_api_sensor(
                    metas.as_slice(),
                    ft,
                    info.arch.as_str(),
                    info.distro_id.as_str(),
                    info.distro_version.as_str(),
                );
                match found {
                    Some(meta) => ListStep::NeedBinary {
                        name: meta.name.clone(),
                        sha256: lowercase_str(meta.sha256.as_str()),
                        file_size: meta.file_size,
                    },
                    None => {
                        self.update_host_status(
                            info.hostname.as_str(),
                            HostStatus::Failed(owned("no matching sensor")),
                            now,
                        );
                        ListStep::Answer(reply(404, "no matching sensor available"))
                    },
                }
            },
        }
    }

    /// The last step of `/cb`, once the chosen installer is in the cache
    /// (or could not be put there).
    pub fn callback_with_binary(
        &mut self,
        info: &CallbackInfo,
        name: &str,
        sha256: &str,
        fetched: Result<(), AppError>,
        now: i64,
    ) -> (r: Reply)
        ensures
            same_setup(*final(self), *old(self)),
            final(self).download_count == old(self).download_count,
            fetched is Err ==> reply_is(r, 502, "sensor download failed"@)
                && final(self).host_list() == spec_update_status(
                old(self).host_list(),
                info.hostname@,
                failed("sensor unavailable"@),
                now,
            ),
            fetched is Ok ==> reply_is(r, 200, name@ + "|"@ + sha256@) && final(self).host_list()
                == spec_update_status(
                old(self).host_list(),
                info.hostname@,
                StatusView::SensorReady,
                now,
            ),
    {
        match fetched {
            Err(_) => {
                self.update_host_status(
                    info.hostname.as_str(),
                    HostStatus::Failed(owned("sensor unavailable")),
                    now,
                );
                reply(502, "sensor download failed")
            },
            Ok(()) => {
                self.update_host_status(info.hostname.as_str(), HostStatus::SensorReady, now);
                Reply { status: 200, body: concat3(name, "|", sha256) }
            },
        }
    }
}

// ---------------------------------------------------------------------------
// /lin, /win and /s/{sha256}
// ---------------------------------------------------------------------------

/// Where the bytes for `/s/{sha256}` come from.
#[derive(Debug)]
pub enum SensorSource {
    /// Not a well-formed sha256.
    BadRequest,
    /// The local file at this index.
    Local(usize),
    /// The cache file of this name, if it is there.
    Cached(String),
    /// Nowhere.
    NotFound,
}

pub open spec fn local_by_sha(s: Seq<crate::sensors::Sensor>, sha: Seq<char>, k: int) -> Option<int>
    decreases s.len() - k,
{
    if k < 0 || k >= s.len() {
        None
    } else if s[k].sha256@ == sha {
        Some(k)
    } else {
        local_by_sha(s, sha, k + 1)
    }
}

impl AppState {
    /// `/lin` and `/win`: the install script, or 404 while no CID is known.
    /// The URL baked into it comes from the configuration only: deriving it
    /// from the `Host` header let a single poisoned request through a
    /// caching proxy point every later host at an attacker's binary.
    pub fn serve_script(&self, platform: Platform) -> (r: Reply)
        ensures
            self.cid@.len() == 0 ==> reply_is(r, 404, Seq::<char>::empty()),
            self.cid@.len() > 0 ==> reply_is(
                r,
                200,
                match platform {
                    Platform::Linux => spec_linux_script(
                        self.spec_base(),
                        self.cid@,
                        opt_view(self.cloud),
                        opt_view(self.tags),
                    ),
                    Platform::Windows => spec_windows_script(
                        self.spec_base(),
                        self.cid@,
                        opt_view(self.cloud),
                        opt_view(self.tags),
                    ),
                },
            ),
    {
        if self.cid.as_str().is_empty() {
            return empty_reply(404);
        }
        let base_url = self.base_url();
        let cloud: Option<&str> = match &self.cloud {
            Some(c) => Some(c.as_str()),
            None => None,
        };
        let tags: Option<&str> = match &self.tags {
            Some(t) => Some(t.as_str()),
            None => None,
        };
        assert(opt_str_view(cloud) == opt_view(self.cloud));
        assert(opt_str_view(tags) == opt_view(self.tags));
        let script = match platform {
            Platform::Linux => generate_linux_script(base_url.as_str(), self.cid.as_str(), cloud, tags),
            Platform::Windows => generate_windows_script(
                base_url.as_str(),
                self.cid.as_str(),
                cloud,
                tags,
            ),
        };
        Reply { status: 200, body: script }
    }

    /// `/s/{sha256}`: where the bytes would come from. Local files win; the
    /// cache is only looked at, never filled from here (otherwise any 404
    /// on valid hex would trigger an API download, turning the route into
    /// an amplifier of outbound traffic).
    pub fn sensor_source(&self, sha256: &str) -> (r: SensorSource)
        ensures
            !sha256_ok(sha256@) ==> r is BadRequest,
            sha256_ok(sha256@) ==> match local_by_sha(self.local_sensors@, sha256@, 0) {
                Some(i) => r == SensorSource::Local(i as usize),
                None => if self.has_api {
                    r is Cached && r->Cached_0@ == lower(sha256@)
                } else {
                    r is NotFound
                },
            },
    {
        if !is_valid_sha256(sha256) {
            return SensorSource::BadRequest;
        }
        let mut i: usize = 0;
        while i < self.local_sensors.len()
            invariant
                0 <= i <= self.local_sensors.len(),
                sha256_ok(sha256@),
                local_by_sha(self.local_sensors@, sha256@, 0) == local_by_sha(
                    self.local_sensors@,
                    sha256@,
                    i as int,
                ),
            decreases self.local_sensors.len() - i,
        {
            if str_eq(self.local_sensors[i].sha256.as_str(), sha256) {
                return SensorSource::Local(i);
            }
            i = i + 1;
        }
        if self.has_api {
            SensorSource::Cached(lowercase_str(sha256))
        } else {
            SensorSource::NotFound
        }
    }

    /// Counts one download actually served; returns its number and the
    /// note for the request log. Only real files count: a run of 404s must
    /// not eat the `--max-downloads` budget.
    pub fn count_download(&mut self) -> (r: (u32, String))
        requires
            old(self).download_count < u32::MAX,
        ensures
            r.0 == old(self).download_count + 1,
            final(self).download_count == r.0,
            r.1@ == download_note(r.0, old(self).max_downloads),
            same_setup(*final(self), *old(self)),
            final(self).host_list() == old(self).host_list(),
    {
        self.download_count = self.download_count + 1;
        let count = self.download_count;
        let n = decimal_string(count as u64);
        let note = if self.max_downloads > 0 {
            let m = decimal_string(self.max_downloads as u64);
            let head = concat3("download ", n.as_str(), "/");
            concat2(head.as_str(), m.as_str())
        } else {
            concat2("download ", n.as_str())
        };
        (count, note)
    }

    /// Whether the server stops after the download numbered `count`: only
    /// with a limit (0 means none), once it is reached.
    pub fn limit_reached(&self, count: u32) -> (r: bool)
        ensures
            r == (self.max_downloads > 0 && count >= self.max_downloads),
    {
        self.max_downloads > 0 && count >= self.max_downloads
    }
}

pub open spec fn spec_log_line(
    time: Seq<char>,
    method: Seq<char>,
    path: Seq<char>,
    remote: Seq<char>,
    status: u16,
    extra: Seq<char>,
) -> Seq<char> {
    let base = "["@ + time + "] "@ + method + " "@ + path + " from "@ + remote + " \u{2014} "@
        + decimal(status as nat);
    if extra.len() == 0 {
        base
    } else {
        base + " ("@ + extra + ")"@
    }
}

/// One line of the request log; `time` is the wall-clock time as shown.
pub fn request_log_line(
    time: &str,
    method: &str,
    path: &str,
    remote: &str,
    status: u16,
    extra: &str,
) -> (r: String)
    ensures
        r@ == spec_log_line(time@, method@, path@, remote@, status, extra@),
{
    let mut r = concat3("[", time, "] ");
    push_str(&mut r, method);
    push_str(&mut r, " ");
    push_str(&mut r, path);
    push_str(&mut r, " from ");
    push_str(&mut r, remote);
    push_str(&mut r, " \u{2014} ");
    let st = decimal_string(status as u64);
    push_str(&mut r, st.as_str());
    if !extra.is_empty() {
        push_str(&mut r, " (");
        push_str(&mut r, extra);
        push_str(&mut r, ")");
    }
    r
}

/// Where the five routes are mounted: under `/<token>` when there is one.
pub fn route_prefix(token: Option<&str>) -> (r: String)
    ensures
        r@ == match token {
            Some(t) => "/"@ + t@,
            None => Seq::<char>::empty(),
        },
{
    match token {
        Some(t) => concat2("/", t),
        None => String::new(),
    }
}

pub open spec fn download_note(count: u32, max: u32) -> Seq<char> {
    if max > 0 {
        "download "@ + decimal(count as nat) + "/"@ + decimal(max as nat)
    } else {
        "download "@ + decimal(count as nat)
    }
}

// ---------------------------------------------------------------------------
// Laws
// ---------------------------------------------------------------------------

/// A reported error message never carries a control character (no forged
/// log lines) and never exceeds `MAX_MESSAGE_LEN` characters.
pub proof fn law_report_message_is_clean(raw: Seq<char>)
    ensures
        spec_sanitize_message(raw).len() <= MAX_MESSAGE_LEN,
        forall|i: int|
            0 <= i < spec_sanitize_message(raw).len() ==> !is_control(
                #[trigger] spec_sanitize_message(raw)[i],
            ),
{
    let k = keep(raw, |c: char| !is_control(c));
    crate::text::lemma_keep_all(raw, |c: char| !is_control(c));
    let f = first_chars(k, 200);
    assert forall|i: int| 0 <= i < f.len() implies !is_control(#[trigger] f[i]) by {
        if k.len() > 200 {
            assert(f[i] == k[i]);
        }
    }
    let a = crate::text::lemma_trim_inside(f);
    let t = trim(f);
    assert forall|i: int| 0 <= i < t.len() implies !is_control(#[trigger] t[i]) by {
        assert(t[i] == f[a + i]);
    }
    reveal_strlit("unknown error");
    let u = "unknown error"@;
    assert forall|i: int| 0 <= i < u.len() implies !is_control(#[trigger] u[i]) by {}
}

/// The sha256 a callback announces names the cache file the download is
/// placed under: lowercasing twice changes nothing.
pub proof fn law_announced_sha_names_the_cache_file(sha: Seq<char>)
    ensures
        lower(lower(sha)) == lower(sha),
{
    assert(lower(lower(sha)) =~= lower(sha));
}


/// A callback is matched against the API entries of the host's own package
/// type: the file type looked up reads back as that type, and the entry
/// handed out has it.
pub proof fn law_api_lookup_uses_the_hosts_package_type(
    t: SensorType,
    metas: Seq<SensorMeta>,
    arch: Seq<char>,
    id: Seq<char>,
    version: Seq<char>,
)
    ensures
        pkg_type_of(spec_file_type(t)) == Some(t),
        api_choice(metas, spec_file_type(t), arch, id, version) matches Some(i) ==> pkg_type_of(
            metas[i].file_type@,
        ) == Some(t),
{
    reveal_strlit("deb");
    reveal_strlit("rpm");
    reveal_strlit("exe");
    assert("deb"@ != "rpm"@ && "deb"@ != "exe"@ && "rpm"@ != "exe"@) by {
        assert("deb"@[0] != "rpm"@[0] && "deb"@[0] != "exe"@[0] && "rpm"@[0] != "exe"@[0]);
    }
    law_api_choice_fits_host(metas, spec_file_type(t), arch, id, version);
}

} // verus!
