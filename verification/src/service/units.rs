//! The systemd units of a service installation.

use vstd::prelude::*;

use crate::text::{has_substr, occurs_at, owned, push_str};

verus! {

/// What the main unit needs to know.
#[derive(Debug)]
pub struct UnitParams {
    pub exec_path: String,
    pub config_path: String,
    pub cache_dir: String,
    pub user: String,
    pub port: u16,
}

pub const UNIT_HEAD: &'static str = "[Unit]\nDescription=Pike \u{2014} CrowdStrike sensor deployment server\nDocumentation=https://github.com/ih3xcode/pike\nAfter=network-online.target\nWants=network-online.target\n\n[Service]\nType=exec\nUser=";

pub const UNIT_HARDENING: &'static str = "\nRestart=always\nRestartSec=5\nNoNewPrivileges=true\nProtectSystem=strict\nProtectHome=true\nPrivateTmp=true\nPrivateDevices=true\nProtectKernelTunables=true\nProtectControlGroups=true\nRestrictAddressFamilies=AF_INET AF_INET6\nRestrictNamespaces=true\nLockPersonality=true\nSystemCallFilter=@system-service\nSystemCallArchitectures=native\n";

/// Without this capability a service user cannot bind a port below 1024,
/// and the service would simply not come up.
pub const UNIT_CAPS: &'static str = "AmbientCapabilities=CAP_NET_BIND_SERVICE\nCapabilityBoundingSet=CAP_NET_BIND_SERVICE\n";

pub const UNIT_TAIL: &'static str = "\n\n[Install]\nWantedBy=multi-user.target\n";

pub const UPDATE_UNIT_HEAD: &'static str = "[Unit]\nDescription=Pike self-update\nAfter=network-online.target\nWants=network-online.target\n\n[Service]\nType=oneshot\nUser=root\nExecStart=";

pub const UPDATE_UNIT_TAIL: &'static str = " update --apply\nExecStartPost=/bin/systemctl try-restart pike.service\n";

pub const UPDATE_TIMER: &'static str = "[Unit]\nDescription=Weekly pike update check\n\n[Timer]\nOnCalendar=Sun 04:00\nRandomizedDelaySec=1h\nPersistent=true\n\n[Install]\nWantedBy=timers.target\n";

pub open spec fn caps_for(port: u16) -> Seq<char> {
    if port < 1024 {
        UNIT_CAPS@
    } else {
        Seq::empty()
    }
}

pub open spec fn spec_main_unit(p: UnitParams) -> Seq<char> {
    UNIT_HEAD@ + p.user@ + "\nGroup="@ + p.user@ + "\nExecStart="@ + p.exec_path@
        + " serve --config "@ + p.config_path@ + UNIT_HARDENING@ + caps_for(p.port)
        + "ReadWritePaths="@ + p.cache_dir@ + UNIT_TAIL@
}

/// The main service unit: hardened, running as `user`, allowed to write
/// the cache directory and nothing else (it may not rewrite its own binary).
pub fn main_unit(p: &UnitParams) -> (r: String)
    ensures
        r@ == spec_main_unit(*p),
{
    let mut r = owned(UNIT_HEAD);
    push_str(&mut r, p.user.as_str());
    push_str(&mut r, "\nGroup=");
    push_str(&mut r, p.user.as_str());
    push_str(&mut r, "\nExecStart=");
    push_str(&mut r, p.exec_path.as_str());
    push_str(&mut r, " serve --config ");
    push_str(&mut r, p.config_path.as_str());
    push_str(&mut r, UNIT_HARDENING);
    if p.port < 1024 {
        push_str(&mut r, UNIT_CAPS);
    }
    push_str(&mut r, "ReadWritePaths=");
    push_str(&mut r, p.cache_dir.as_str());
    push_str(&mut r, UNIT_TAIL);
    proof {
        assert(r@ =~= spec_main_unit(*p));
    }
    r
}

pub open spec fn spec_update_unit(exec_path: Seq<char>) -> Seq<char> {
    UPDATE_UNIT_HEAD@ + exec_path + UPDATE_UNIT_TAIL@
}

/// The one-shot unit of the self-update: runs as root and restarts the
/// service afterwards.
pub fn update_unit(exec_path: &str) -> (r: String)
    ensures
        r@ == spec_update_unit(exec_path@),
{
    let mut r = owned(UPDATE_UNIT_HEAD);
    push_str(&mut r, exec_path);
    push_str(&mut r, UPDATE_UNIT_TAIL);
    r
}

/// The weekly timer of the self-update, with an hour of jitter.
pub fn update_timer() -> (r: String)
    ensures
        r@ == UPDATE_TIMER@,
{
    owned(UPDATE_TIMER)
}


/// A port below 1024 gets the capability to bind it; and the cache
/// directory is the path the unit may write.
pub proof fn law_unit_grants_what_the_service_needs(p: UnitParams)
    ensures
        p.port < 1024 ==> has_substr(spec_main_unit(p), UNIT_CAPS@),
        has_substr(spec_main_unit(p), "ReadWritePaths="@ + p.cache_dir@),
{
    let s = spec_main_unit(p);
    let pre = UNIT_HEAD@ + p.user@ + "\nGroup="@ + p.user@ + "\nExecStart="@ + p.exec_path@
        + " serve --config "@ + p.config_path@ + UNIT_HARDENING@;
    let rw = "ReadWritePaths="@ + p.cache_dir@;
    if p.port < 1024 {
        assert(s == pre + UNIT_CAPS@ + rw + UNIT_TAIL@);
        assert(s.subrange(pre.len() as int, pre.len() + UNIT_CAPS@.len() as int) =~= UNIT_CAPS@);
        assert(occurs_at(s, UNIT_CAPS@, pre.len() as int));
    }
    let k: int = (pre.len() + caps_for(p.port).len()) as int;
    assert(s == pre + caps_for(p.port) + rw + UNIT_TAIL@);
    assert(s.subrange(k, k + rw.len() as int) =~= rw);
    assert(occurs_at(s, rw, k));
}

} // verus!
