//! Matching a host (package type, architecture, distribution) against the
//! available sensor installers, judged by their file names.

use vstd::prelude::*;

use crate::text::{
    before_char, before_char_str, concat2, concat3, contains, has_substr, opt_index, opt_view,
    owned, parse_u32, parse_u32_str, str_eq,
};

use super::types::{Sensor, SensorMeta, SensorType};

verus! {

// ---------------------------------------------------------------------------
// Specification
// ---------------------------------------------------------------------------

/// The Debian spelling of a host architecture.
pub open spec fn deb_arch(arch: Seq<char>) -> Seq<char> {
    if arch == "x86_64"@ {
        "amd64"@
    } else if arch == "aarch64"@ {
        "arm64"@
    } else {
        arch
    }
}

/// A DEB file name carries the host architecture: `_amd64.deb`.
pub open spec fn deb_matches(filename: Seq<char>, arch: Seq<char>) -> bool {
    has_substr(filename, "_"@ + deb_arch(arch) + ".deb"@)
}

/// An RPM file name carries the distro tag and the architecture:
/// `.el9.` and `.x86_64.rpm`.
pub open spec fn rpm_matches(filename: Seq<char>, tag: Seq<char>, arch: Seq<char>) -> bool {
    has_substr(filename, "."@ + tag + "."@) && has_substr(filename, "."@ + arch + ".rpm"@)
}

/// Distributions built from RHEL sources, Fedora excluded.
pub open spec fn is_el_clone(id: Seq<char>) -> bool {
    id == "rhel"@ || id == "centos"@ || id == "rocky"@ || id == "almalinux"@ || id == "ol"@
}

pub open spec fn is_rhel(id: Seq<char>) -> bool {
    id == "fedora"@ || is_el_clone(id)
}

pub open spec fn is_suse(id: Seq<char>) -> bool {
    id == "sles"@ || id == "opensuse-leap"@ || id == "opensuse"@ || id == "opensuse-tumbleweed"@
}

/// The CrowdStrike distro tag for an `/etc/os-release` ID and version.
pub open spec fn spec_distro_tag(id: Seq<char>, version: Seq<char>) -> Option<Seq<char>> {
    if id == "fedora"@ {
        let ver: u32 = match parse_u32(version) {
            Some(v) => v,
            None => 0,
        };
        if ver >= 41 {
            Some("el10"@)
        } else {
            Some("el9"@)
        }
    } else if is_el_clone(id) {
        Some("el"@ + before_char(version, '.'))
    } else if id == "amzn"@ {
        Some("amzn"@ + version)
    } else if is_suse(id) {
        Some("suse"@ + before_char(version, '.'))
    } else if id == "photon"@ {
        Some("ph"@ + version)
    } else {
        None
    }
}

/// The RHEL fallback chain for a tag.
pub open spec fn spec_fallback_tags(tag: Seq<char>) -> Seq<Seq<char>> {
    if tag == "el10"@ {
        seq!["el10"@, "el9"@]
    } else if tag == "el9"@ {
        seq!["el9"@, "el8"@]
    } else if tag == "el8"@ {
        seq!["el8"@, "el9"@]
    } else if tag == "el7"@ {
        seq!["el7"@, "el8"@]
    } else {
        seq![tag]
    }
}

/// The tags tried for a host, in order of preference.
pub open spec fn candidate_tags(id: Seq<char>, tag: Seq<char>) -> Seq<Seq<char>> {
    if is_rhel(id) {
        spec_fallback_tags(tag)
    } else {
        seq![tag]
    }
}

/// Index of the first element at or after `k` that satisfies `p`.
pub open spec fn first_from<T>(s: Seq<T>, p: spec_fn(T) -> bool, k: int) -> Option<int>
    decreases s.len() - k,
{
    if k < 0 || k >= s.len() {
        None
    } else if p(s[k]) {
        Some(k)
    } else {
        first_from(s, p, k + 1)
    }
}

pub open spec fn local_is_deb_for(arch: Seq<char>) -> spec_fn(Sensor) -> bool {
    |s: Sensor| s.sensor_type == SensorType::Deb && deb_matches(s.filename@, arch)
}

pub open spec fn local_is_rpm_for(tag: Seq<char>, arch: Seq<char>) -> spec_fn(Sensor) -> bool {
    |s: Sensor| s.sensor_type == SensorType::Rpm && rpm_matches(s.filename@, tag, arch)
}

pub open spec fn local_is_type(t: SensorType) -> spec_fn(Sensor) -> bool {
    |s: Sensor| s.sensor_type == t
}

/// The first local RPM matching the earliest tag (from `k` on) that has one.
pub open spec fn local_over_tags(
    sensors: Seq<Sensor>,
    tags: Seq<Seq<char>>,
    arch: Seq<char>,
    k: int,
) -> Option<int>
    decreases tags.len() - k,
{
    if k < 0 || k >= tags.len() {
        None
    } else {
        match first_from(sensors, local_is_rpm_for(tags[k], arch), 0) {
            Some(i) => Some(i),
            None => local_over_tags(sensors, tags, arch, k + 1),
        }
    }
}

/// Which local sensor a host gets, as an index into `sensors`.
pub open spec fn local_choice(
    sensors: Seq<Sensor>,
    t: SensorType,
    arch: Seq<char>,
    id: Seq<char>,
    version: Seq<char>,
) -> Option<int> {
    match t {
        SensorType::Deb => first_from(sensors, local_is_deb_for(arch), 0),
        SensorType::Rpm => match spec_distro_tag(id, version) {
            Some(tag) => local_over_tags(sensors, candidate_tags(id, tag), arch, 0),
            None => None,
        },
        SensorType::WindowsExe => first_from(sensors, local_is_type(SensorType::WindowsExe), 0),
    }
}

pub open spec fn api_is_deb_for(ft: Seq<char>, arch: Seq<char>) -> spec_fn(SensorMeta) -> bool {
    |m: SensorMeta| m.file_type@ == ft && deb_matches(m.name@, arch)
}

pub open spec fn api_is_rpm_for(ft: Seq<char>, tag: Seq<char>, arch: Seq<char>) -> spec_fn(
    SensorMeta,
) -> bool {
    |m: SensorMeta| m.file_type@ == ft && rpm_matches(m.name@, tag, arch)
}

pub open spec fn api_is_type(ft: Seq<char>) -> spec_fn(SensorMeta) -> bool {
    |m: SensorMeta| m.file_type@ == ft
}

pub open spec fn api_over_tags(
    metas: Seq<SensorMeta>,
    ft: Seq<char>,
    tags: Seq<Seq<char>>,
    arch: Seq<char>,
    k: int,
) -> Option<int>
    decreases tags.len() - k,
{
    if k < 0 || k >= tags.len() {
        None
    } else {
        match first_from(metas, api_is_rpm_for(ft, tags[k], arch), 0) {
            Some(i) => Some(i),
            None => api_over_tags(metas, ft, tags, arch, k + 1),
        }
    }
}

/// Which entry of the API list a host gets. The API lists the newest
/// release first, so the first match is the latest version.
pub open spec fn api_choice(
    metas: Seq<SensorMeta>,
    ft: Seq<char>,
    arch: Seq<char>,
    id: Seq<char>,
    version: Seq<char>,
) -> Option<int> {
    if ft == "deb"@ {
        first_from(metas, api_is_deb_for(ft, arch), 0)
    } else if ft == "rpm"@ {
        match spec_distro_tag(id, version) {
            Some(tag) => api_over_tags(metas, ft, candidate_tags(id, tag), arch, 0),
            None => None,
        }
    } else if ft == "exe"@ {
        first_from(metas, api_is_type(ft), 0)
    } else {
        None
    }
}

pub open spec fn has_rpm_tag(f: Seq<char>, tag: Seq<char>) -> bool {
    has_substr(f, "."@ + tag + "."@)
}

pub open spec fn has_rpm_arch(f: Seq<char>, arch: Seq<char>) -> bool {
    has_substr(f, "."@ + arch + ".rpm"@)
}

pub open spec fn has_deb_arch(f: Seq<char>, arch: Seq<char>) -> bool {
    has_substr(f, "_"@ + arch + ".deb"@)
}

/// The file name carries one of the known RPM distro tags and one of the
/// known RPM architectures.
pub open spec fn spec_rpm_has_tags(f: Seq<char>) -> bool {
    &&& (has_rpm_tag(f, "el7"@) || has_rpm_tag(f, "el8"@) || has_rpm_tag(f, "el9"@)
        || has_rpm_tag(f, "el10"@) || has_rpm_tag(f, "amzn2"@) || has_rpm_tag(f, "amzn2023"@)
        || has_rpm_tag(f, "suse11"@) || has_rpm_tag(f, "suse12"@) || has_rpm_tag(f, "suse15"@)
        || has_rpm_tag(f, "ph3"@) || has_rpm_tag(f, "ph4"@))
    &&& (has_rpm_arch(f, "x86_64"@) || has_rpm_arch(f, "aarch64"@) || has_rpm_arch(f, "s390x"@))
}

/// The file name carries one of the known DEB architectures.
pub open spec fn spec_deb_has_arch(f: Seq<char>) -> bool {
    has_deb_arch(f, "amd64"@) || has_deb_arch(f, "arm64"@) || has_deb_arch(f, "s390x"@)
}

pub open spec fn rpm_warning(f: Seq<char>) -> Seq<char> {
    "RPM '"@ + f
        + "': filename lacks distro/arch tags (expected e.g. '.el9.x86_64.rpm'). Pike cannot match this sensor to the correct host \u{2014} expect installation failures if it is incompatible."@
}

pub open spec fn deb_warning(f: Seq<char>) -> Seq<char> {
    "DEB '"@ + f
        + "': filename lacks arch tag (expected e.g. '_amd64.deb'). Pike cannot match this sensor to the correct host \u{2014} expect installation failures if it is incompatible."@
}

/// The warning for a sensor file whose name cannot be matched to a host.
pub open spec fn spec_check_filename(f: Seq<char>, t: SensorType) -> Option<Seq<char>> {
    match t {
        SensorType::Rpm => if spec_rpm_has_tags(f) {
            None
        } else {
            Some(rpm_warning(f))
        },
        SensorType::Deb => if spec_deb_has_arch(f) {
            None
        } else {
            Some(deb_warning(f))
        },
        SensorType::WindowsExe => None,
    }
}

/// The warnings for a list of sensors, in order.
pub open spec fn warnings_of(s: Seq<Sensor>) -> Seq<Seq<char>>
    decreases s.len(),
{
    if s.len() == 0 {
        seq![]
    } else {
        let rest = warnings_of(s.drop_last());
        match spec_check_filename(s.last().filename@, s.last().sensor_type) {
            Some(w) => rest.push(w),
            None => rest,
        }
    }
}

// ---------------------------------------------------------------------------
// Implementation
// ---------------------------------------------------------------------------

fn deb_arch_str(arch: &str) -> (res: String)
    ensures
        res@ == deb_arch(arch@),
{
    if str_eq(arch, "x86_64") {
        owned("amd64")
    } else if str_eq(arch, "aarch64") {
        owned("arm64")
    } else {
        owned(arch)
    }
}

/// A DEB file name matches the host architecture:
/// `falcon-sensor_7.33.0-18606_amd64.deb` for `x86_64`.
pub fn deb_filename_matches(filename: &str, host_arch: &str) -> (res: bool)
    ensures
        res == deb_matches(filename@, host_arch@),
{
    let a = deb_arch_str(host_arch);
    let pat = concat3("_", a.as_str(), ".deb");
    contains(filename, pat.as_str())
}

/// An RPM file name carries the distro tag and the host architecture:
/// `falcon-sensor-7.33.0-18606.el9.x86_64.rpm` for `el9`, `x86_64`.
pub fn rpm_filename_matches(filename: &str, tag: &str, host_arch: &str) -> (res: bool)
    ensures
        res == rpm_matches(filename@, tag@, host_arch@),
{
    let t = concat3(".", tag, ".");
    let a = concat3(".", host_arch, ".rpm");
    contains(filename, t.as_str()) && contains(filename, a.as_str())
}

fn el_clone(id: &str) -> (res: bool)
    ensures
        res == is_el_clone(id@),
{
    str_eq(id, "rhel") || str_eq(id, "centos") || str_eq(id, "rocky") || str_eq(id, "almalinux")
        || str_eq(id, "ol")
}

fn suse(id: &str) -> (res: bool)
    ensures
        res == is_suse(id@),
{
    str_eq(id, "sles") || str_eq(id, "opensuse-leap") || str_eq(id, "opensuse") || str_eq(
        id,
        "opensuse-tumbleweed",
    )
}

pub fn is_rhel_family(distro_id: &str) -> (res: bool)
    ensures
        res == is_rhel(distro_id@),
{
    str_eq(distro_id, "fedora") || el_clone(distro_id)
}

/// Maps the host distro (the `ID` of `/etc/os-release`) and its version to
/// the CrowdStrike tag used in RPM file names (`el9`, `suse15`, `amzn2023`).
pub fn distro_tag(distro_id: &str, version: &str) -> (res: Option<String>)
    ensures
        opt_view(res) == spec_distro_tag(distro_id@, version@),
{
    if str_eq(distro_id, "fedora") {
        let ver: u32 = match parse_u32_str(version) {
            Some(v) => v,
            None => 0,
        };
        // Fedora 41+ targets the same ABI as RHEL 10
        if ver >= 41 {
            Some(owned("el10"))
        } else {
            Some(owned("el9"))
        }
    } else if el_clone(distro_id) {
        let major = before_char_str(version, '.');
        Some(concat2("el", major.as_str()))
    } else if str_eq(distro_id, "amzn") {
        Some(concat2("amzn", version))
    } else if suse(distro_id) {
        let major = before_char_str(version, '.');
        Some(concat2("suse", major.as_str()))
    } else if str_eq(distro_id, "photon") {
        Some(concat2("ph", version))
    } else {
        None
    }
}

/// The RHEL fallback chain: when the exact `el` version is missing, try its
/// neighbour.
pub fn rhel_fallback_tags(tag: &str) -> (res: Vec<String>)
    ensures
        crate::text::views(res@) == spec_fallback_tags(tag@),
{
    let mut v: Vec<String> = Vec::new();
    if str_eq(tag, "el10") {
        v.push(owned("el10"));
        v.push(owned("el9"));
    } else if str_eq(tag, "el9") {
        v.push(owned("el9"));
        v.push(owned("el8"));
    } else if str_eq(tag, "el8") {
        v.push(owned("el8"));
        v.push(owned("el9"));
    } else if str_eq(tag, "el7") {
        v.push(owned("el7"));
        v.push(owned("el8"));
    } else {
        v.push(owned(tag));
    }
    assert(crate::text::views(v@) =~= spec_fallback_tags(tag@));
    v
}

fn candidate_tags_vec(distro_id: &str, tag: String) -> (res: Vec<String>)
    ensures
        crate::text::views(res@) == candidate_tags(distro_id@, tag@),
{
    if is_rhel_family(distro_id) {
        rhel_fallback_tags(tag.as_str())
    } else {
        let mut v: Vec<String> = Vec::new();
        let ghost t = tag@;
        v.push(tag);
        assert(crate::text::views(v@) =~= seq![t]);
        v
    }
}

fn has_tag(f: &str, tag: &str) -> (res: bool)
    ensures
        res == has_rpm_tag(f@, tag@),
{
    let p = concat3(".", tag, ".");
    contains(f, p.as_str())
}

fn has_arch_rpm(f: &str, arch: &str) -> (res: bool)
    ensures
        res == has_rpm_arch(f@, arch@),
{
    let p = concat3(".", arch, ".rpm");
    contains(f, p.as_str())
}

fn has_arch_deb(f: &str, arch: &str) -> (res: bool)
    ensures
        res == has_deb_arch(f@, arch@),
{
    let p = concat3("_", arch, ".deb");
    contains(f, p.as_str())
}

/// Does an RPM file name carry a recognisable distro tag and architecture?
pub fn rpm_has_tags(filename: &str) -> (res: bool)
    ensures
        res == spec_rpm_has_tags(filename@),
{
    let has_distro = has_tag(filename, "el7") || has_tag(filename, "el8") || has_tag(filename, "el9")
        || has_tag(filename, "el10") || has_tag(filename, "amzn2") || has_tag(filename, "amzn2023")
        || has_tag(filename, "suse11") || has_tag(filename, "suse12") || has_tag(
        filename,
        "suse15",
    ) || has_tag(filename, "ph3") || has_tag(filename, "ph4");
    let has_arch = has_arch_rpm(filename, "x86_64") || has_arch_rpm(filename, "aarch64")
        || has_arch_rpm(filename, "s390x");
    has_distro && has_arch
}

/// Does a DEB file name carry a recognisable architecture?
pub fn deb_has_arch(filename: &str) -> (res: bool)
    ensures
        res == spec_deb_has_arch(filename@),
{
    has_arch_deb(filename, "amd64") || has_arch_deb(filename, "arm64") || has_arch_deb(
        filename,
        "s390x",
    )
}

/// The warning for a sensor file name that lacks recognisable distro or
/// architecture tags, or `None` when it looks matchable.
pub fn check_sensor_filename(filename: &str, sensor_type: SensorType) -> (res: Option<String>)
    ensures
        opt_view(res) == spec_check_filename(filename@, sensor_type),
{
    match sensor_type {
        SensorType::Rpm => {
            if !rpm_has_tags(filename) {
                Some(
                    concat3(
                        "RPM '",
                        filename,
                        "': filename lacks distro/arch tags (expected e.g. '.el9.x86_64.rpm'). Pike cannot match this sensor to the correct host \u{2014} expect installation failures if it is incompatible.",
                    ),
                )
            } else {
                None
            }
        },
        SensorType::Deb => {
            if !deb_has_arch(filename) {
                Some(
                    concat3(
                        "DEB '",
                        filename,
                        "': filename lacks arch tag (expected e.g. '_amd64.deb'). Pike cannot match this sensor to the correct host \u{2014} expect installation failures if it is incompatible.",
                    ),
                )
            } else {
                None
            }
        },
        SensorType::WindowsExe => None,
    }
}

/// The warnings for local sensor files whose names lack recognisable tags.
pub fn validate_sensor_filenames(sensors: &[Sensor]) -> (res: Vec<String>)
    ensures
        crate::text::views(res@) == warnings_of(sensors@),
{
    let mut res: Vec<String> = Vec::new();
    let mut i: usize = 0;
    while i < sensors.len()
        invariant
            0 <= i <= sensors.len(),
            crate::text::views(res@) == warnings_of(sensors@.subrange(0, i as int)),
        decreases sensors.len() - i,
    {
        let w = check_sensor_filename(sensors[i].filename.as_str(), sensors[i].sensor_type);
        assert(sensors@.subrange(0, i + 1).drop_last() =~= sensors@.subrange(0, i as int));
        match w {
            Some(msg) => {
                res.push(msg);
                assert(crate::text::views(res@) =~= warnings_of(sensors@.subrange(0, i as int)).push(
                    res@.last()@,
                ));
            },
            None => {},
        }
        i = i + 1;
    }
    assert(sensors@.subrange(0, sensors.len() as int) =~= sensors@);
    res
}

fn first_local_deb(sensors: &[Sensor], host_arch: &str) -> (res: Option<usize>)
    ensures
        opt_index(res) == first_from(sensors@, local_is_deb_for(host_arch@), 0),
        res matches Some(i) ==> i < sensors.len(),
{
    let ghost p = local_is_deb_for(host_arch@);
    let mut i: usize = 0;
    while i < sensors.len()
        invariant
            0 <= i <= sensors.len(),
            p == local_is_deb_for(host_arch@),
            first_from(sensors@, p, 0) == first_from(sensors@, p, i as int),
        decreases sensors.len() - i,
    {
        if sensors[i].sensor_type == SensorType::Deb && deb_filename_matches(
            sensors[i].filename.as_str(),
            host_arch,
        ) {
            return Some(i);
        }
        i = i + 1;
    }
    None
}

fn first_local_rpm(sensors: &[Sensor], tag: &str, host_arch: &str) -> (res: Option<usize>)
    ensures
        opt_index(res) == first_from(sensors@, local_is_rpm_for(tag@, host_arch@), 0),
        res matches Some(i) ==> i < sensors.len(),
{
    let ghost p = local_is_rpm_for(tag@, host_arch@);
    let mut i: usize = 0;
    while i < sensors.len()
        invariant
            0 <= i <= sensors.len(),
            p == local_is_rpm_for(tag@, host_arch@),
            first_from(sensors@, p, 0) == first_from(sensors@, p, i as int),
        decreases sensors.len() - i,
    {
        if sensors[i].sensor_type == SensorType::Rpm && rpm_filename_matches(
            sensors[i].filename.as_str(),
            tag,
            host_arch,
        ) {
            return Some(i);
        }
        i = i + 1;
    }
    None
}

fn first_local_of_type(sensors: &[Sensor], t: SensorType) -> (res: Option<usize>)
    ensures
        opt_index(res) == first_from(sensors@, local_is_type(t), 0),
        res matches Some(i) ==> i < sensors.len(),
{
    let ghost p = local_is_type(t);
    let mut i: usize = 0;
    while i < sensors.len()
        invariant
            0 <= i <= sensors.len(),
            p == local_is_type(t),
            first_from(sensors@, p, 0) == first_from(sensors@, p, i as int),
        decreases sensors.len() - i,
    {
        if sensors[i].sensor_type == t {
            return Some(i);
        }
        i = i + 1;
    }
    None
}

fn local_over_tags_exec(sensors: &[Sensor], tags: &Vec<String>, host_arch: &str) -> (res: Option<
    usize,
>)
    ensures
        opt_index(res) == local_over_tags(sensors@, crate::text::views(tags@), host_arch@, 0),
        res matches Some(i) ==> i < sensors.len(),
{
    let ghost ts = crate::text::views(tags@);
    let mut k: usize = 0;
    while k < tags.len()
        invariant
            0 <= k <= tags.len(),
            ts == crate::text::views(tags@),
            local_over_tags(sensors@, ts, host_arch@, 0) == local_over_tags(
                sensors@,
                ts,
                host_arch@,
                k as int,
            ),
        decreases tags.len() - k,
    {
        assert(ts[k as int] == tags@[k as int]@);
        match first_local_rpm(sensors, tags[k].as_str(), host_arch) {
            Some(i) => {
                return Some(i);
            },
            None => {},
        }
        k = k + 1;
    }
    None
}

/// The best matching sensor among the local files.
///
/// DEB: the first file whose name carries the host architecture. RPM: for
/// each tag of the host's distro (with the RHEL fallback chain), in order,
/// the first file carrying that tag and the architecture; there is
/// deliberately no fallback to "any RPM", which used to hand out packages of
/// other distributions. Windows: the first installer.
pub fn find_best_local_sensor<'a>(
    sensors: &'a [Sensor],
    target_type: SensorType,
    host_arch: &str,
    distro_id: &str,
    distro_version: &str,
) -> (res: Option<&'a Sensor>)
    ensures
        res is Some <==> local_choice(
            sensors@,
            target_type,
            host_arch@,
            distro_id@,
            distro_version@,
        ) is Some,
        res is Some ==> *res.unwrap() == sensors@[local_choice(
            sensors@,
            target_type,
            host_arch@,
            distro_id@,
            distro_version@,
        ).unwrap()],
{
    let found = match target_type {
        SensorType::Deb => first_local_deb(sensors, host_arch),
        SensorType::Rpm => {
            match distro_tag(distro_id, distro_version) {
                Some(tag) => {
                    let tags = candidate_tags_vec(distro_id, tag);
                    local_over_tags_exec(sensors, &tags, host_arch)
                },
                None => None,
            }
        },
        SensorType::WindowsExe => first_local_of_type(sensors, SensorType::WindowsExe),
    };
    match found {
        Some(i) => Some(&sensors[i]),
        None => None,
    }
}

fn first_api_deb(metas: &[SensorMeta], file_type: &str, host_arch: &str) -> (res: Option<usize>)
    ensures
        opt_index(res) == first_from(metas@, api_is_deb_for(file_type@, host_arch@), 0),
        res matches Some(i) ==> i < metas.len(),
{
    let ghost p = api_is_deb_for(file_type@, host_arch@);
    let mut i: usize = 0;
    while i < metas.len()
        invariant
            0 <= i <= metas.len(),
            p == api_is_deb_for(file_type@, host_arch@),
            first_from(metas@, p, 0) == first_from(metas@, p, i as int),
        decreases metas.len() - i,
    {
        if str_eq(metas[i].file_type.as_str(), file_type) && deb_filename_matches(
            metas[i].name.as_str(),
            host_arch,
        ) {
            return Some(i);
        }
        i = i + 1;
    }
    None
}

fn first_api_rpm(metas: &[SensorMeta], file_type: &str, tag: &str, host_arch: &str) -> (res:
    Option<usize>)
    ensures
        opt_index(res) == first_from(metas@, api_is_rpm_for(file_type@, tag@, host_arch@), 0),
        res matches Some(i) ==> i < metas.len(),
{
    let ghost p = api_is_rpm_for(file_type@, tag@, host_arch@);
    let mut i: usize = 0;
    while i < metas.len()
        invariant
            0 <= i <= metas.len(),
            p == api_is_rpm_for(file_type@, tag@, host_arch@),
            first_from(metas@, p, 0) == first_from(metas@, p, i as int),
        decreases metas.len() - i,
    {
        if str_eq(metas[i].file_type.as_str(), file_type) && rpm_filename_matches(
            metas[i].name.as_str(),
            tag,
            host_arch,
        ) {
            return Some(i);
        }
        i = i + 1;
    }
    None
}

fn first_api_of_type(metas: &[SensorMeta], file_type: &str) -> (res: Option<usize>)
    ensures
        opt_index(res) == first_from(metas@, api_is_type(file_type@), 0),
        res matches Some(i) ==> i < metas.len(),
{
    let ghost p = api_is_type(file_type@);
    let mut i: usize = 0;
    while i < metas.len()
        invariant
            0 <= i <= metas.len(),
            p == api_is_type(file_type@),
            first_from(metas@, p, 0) == first_from(metas@, p, i as int),
        decreases metas.len() - i,
    {
        if str_eq(metas[i].file_type.as_str(), file_type) {
            return Some(i);
        }
        i = i + 1;
    }
    None
}

fn api_over_tags_exec(
    metas: &[SensorMeta],
    file_type: &str,
    tags: &Vec<String>,
    host_arch: &str,
) -> (res: Option<usize>)
    ensures
        opt_index(res) == api_over_tags(
            metas@,
            file_type@,
            crate::text::views(tags@),
            host_arch@,
            0,
        ),
        res matches Some(i) ==> i < metas.len(),
{
    let ghost ts = crate::text::views(tags@);
    let mut k: usize = 0;
    while k < tags.len()
        invariant
            0 <= k <= tags.len(),
            ts == crate::text::views(tags@),
            api_over_tags(metas@, file_type@, ts, host_arch@, 0) == api_over_tags(
                metas@,
                file_type@,
                ts,
                host_arch@,
                k as int,
            ),
        decreases tags.len() - k,
    {
        assert(ts[k as int] == tags@[k as int]@);
        match first_api_rpm(metas, file_type, tags[k].as_str(), host_arch) {
            Some(i) => {
                return Some(i);
            },
            None => {},
        }
        k = k + 1;
    }
    None
}

/// The best matching entry of the API sensor list. The list comes sorted by
/// release date, newest first, so the first match is the latest version.
/// Unknown file types and unknown RPM distributions match nothing.
pub fn find_best_api_sensor<'a>(
    metas: &'a [SensorMeta],
    file_type: &str,
    host_arch: &str,
    distro_id: &str,
    distro_version: &str,
) -> (res: Option<&'a SensorMeta>)
    ensures
        res is Some <==> api_choice(
            metas@,
            file_type@,
            host_arch@,
            distro_id@,
            distro_version@,
        ) is Some,
        res is Some ==> *res.unwrap() == metas@[api_choice(
            metas@,
            file_type@,
            host_arch@,
            distro_id@,
            distro_version@,
        ).unwrap()],
{
    let found = if str_eq(file_type, "deb") {
        first_api_deb(metas, file_type, host_arch)
    } else if str_eq(file_type, "rpm") {
        match distro_tag(distro_id, distro_version) {
            Some(tag) => {
                let tags = candidate_tags_vec(distro_id, tag);
                api_over_tags_exec(metas, file_type, &tags, host_arch)
            },
            None => None,
        }
    } else if str_eq(file_type, "exe") {
        first_api_of_type(metas, file_type)
    } else {
        None
    };
    match found {
        Some(i) => Some(&metas[i]),
        None => None,
    }
}

// ---------------------------------------------------------------------------
// Laws
// ---------------------------------------------------------------------------

proof fn lemma_first_from<T>(s: Seq<T>, p: spec_fn(T) -> bool, k: int)
    requires
        0 <= k,
    ensures
        first_from(s, p, k) matches Some(i) ==> k <= i < s.len() && p(s[i]),
    decreases s.len() - k,
{
    if k < s.len() && !p(s[k]) {
        lemma_first_from(s, p, k + 1);
    }
}

proof fn lemma_local_over_tags(sensors: Seq<Sensor>, tags: Seq<Seq<char>>, arch: Seq<char>, k: int)
    requires
        0 <= k,
    ensures
        local_over_tags(sensors, tags, arch, k) matches Some(i) ==> 0 <= i < sensors.len()
            && exists|j: int|
            k <= j < tags.len() && #[trigger] local_is_rpm_for(tags[j], arch)(sensors[i]),
    decreases tags.len() - k,
{
    if 0 <= k < tags.len() {
        lemma_first_from(sensors, local_is_rpm_for(tags[k], arch), 0);
        lemma_local_over_tags(sensors, tags, arch, k + 1);
    }
}

proof fn lemma_api_over_tags(
    metas: Seq<SensorMeta>,
    ft: Seq<char>,
    tags: Seq<Seq<char>>,
    arch: Seq<char>,
    k: int,
)
    requires
        0 <= k,
    ensures
        api_over_tags(metas, ft, tags, arch, k) matches Some(i) ==> 0 <= i < metas.len()
            && exists|j: int|
            k <= j < tags.len() && #[trigger] api_is_rpm_for(ft, tags[j], arch)(metas[i]),
    decreases tags.len() - k,
{
    if 0 <= k < tags.len() {
        lemma_first_from(metas, api_is_rpm_for(ft, tags[k], arch), 0);
        lemma_api_over_tags(metas, ft, tags, arch, k + 1);
    }
}

/// A local file handed to a host always fits it: the package type asked
/// for, the host's architecture in the name, and for RPM one of the tags of
/// the host's distribution (with its fallback chain). A host whose
/// distribution is unknown gets no RPM at all.
pub proof fn law_local_choice_fits_host(
    sensors: Seq<Sensor>,
    t: SensorType,
    arch: Seq<char>,
    id: Seq<char>,
    version: Seq<char>,
)
    ensures
        local_choice(sensors, t, arch, id, version) matches Some(i) ==> {
            &&& 0 <= i < sensors.len()
            &&& sensors[i].sensor_type == t
            &&& t == SensorType::Deb ==> deb_matches(sensors[i].filename@, arch)
            &&& t == SensorType::Rpm ==> exists|j: int|
                0 <= j < candidate_tags(id, spec_distro_tag(id, version)->0).len() && rpm_matches(
                    sensors[i].filename@,
                    #[trigger] candidate_tags(id, spec_distro_tag(id, version)->0)[j],
                    arch,
                )
        },
        t == SensorType::Rpm && spec_distro_tag(id, version) is None ==> local_choice(
            sensors,
            t,
            arch,
            id,
            version,
        ) is None,
{
    match t {
        SensorType::Deb => lemma_first_from(sensors, local_is_deb_for(arch), 0),
        SensorType::Rpm => {
            if let Some(tag) = spec_distro_tag(id, version) {
                let tags = candidate_tags(id, tag);
                lemma_local_over_tags(sensors, tags, arch, 0);
                if let Some(i) = local_choice(sensors, t, arch, id, version) {
                    let j = choose|j: int|
                        0 <= j < tags.len() && #[trigger] local_is_rpm_for(tags[j], arch)(
                            sensors[i],
                        );
                    assert(rpm_matches(sensors[i].filename@, tags[j], arch));
                }
            }
        },
        SensorType::WindowsExe => lemma_first_from(
            sensors,
            local_is_type(SensorType::WindowsExe),
            0,
        ),
    }
}

/// An API entry handed to a host always fits it in the same way: the file
/// type asked for, the architecture in the name (DEB, RPM), one of the
/// host's distribution tags (RPM); unknown file types get nothing.
pub proof fn law_api_choice_fits_host(
    metas: Seq<SensorMeta>,
    ft: Seq<char>,
    arch: Seq<char>,
    id: Seq<char>,
    version: Seq<char>,
)
    ensures
        api_choice(metas, ft, arch, id, version) matches Some(i) ==> {
            &&& 0 <= i < metas.len()
            &&& metas[i].file_type@ == ft
            &&& ft == "deb"@ ==> deb_matches(metas[i].name@, arch)
            &&& ft == "rpm"@ ==> exists|j: int|
                0 <= j < candidate_tags(id, spec_distro_tag(id, version)->0).len() && rpm_matches(
                    metas[i].name@,
                    #[trigger] candidate_tags(id, spec_distro_tag(id, version)->0)[j],
                    arch,
                )
        },
        ft != "deb"@ && ft != "rpm"@ && ft != "exe"@ ==> api_choice(metas, ft, arch, id, version)
            is None,
{
    reveal_strlit("deb");
    reveal_strlit("rpm");
    if ft == "deb"@ {
        assert("deb"@ != "rpm"@) by {
            assert("deb"@[0] != "rpm"@[0]);
        }
        lemma_first_from(metas, api_is_deb_for(ft, arch), 0);
    } else if ft == "rpm"@ {
        if let Some(tag) = spec_distro_tag(id, version) {
            let tags = candidate_tags(id, tag);
            lemma_api_over_tags(metas, ft, tags, arch, 0);
            if let Some(i) = api_choice(metas, ft, arch, id, version) {
                let j = choose|j: int|
                    0 <= j < tags.len() && #[trigger] api_is_rpm_for(ft, tags[j], arch)(metas[i]);
                assert(rpm_matches(metas[i].name@, tags[j], arch));
            }
        }
    } else if ft == "exe"@ {
        lemma_first_from(metas, api_is_type(ft), 0);
    }
}


/// Fedora 41 and every later release take the RHEL 10 packages; an earlier
/// release, or a version that is not a number, the RHEL 9 ones.
pub proof fn law_fedora_release_picks_rhel_abi(version: Seq<char>)
    ensures
        parse_u32(version) is Some && parse_u32(version)->0 >= 41 ==> spec_distro_tag(
            "fedora"@,
            version,
        ) == Some("el10"@),
        !(parse_u32(version) is Some && parse_u32(version)->0 >= 41) ==> spec_distro_tag(
            "fedora"@,
            version,
        ) == Some("el9"@),
{
}


/// RHEL rebuilds take `el` and the major version (the part before the
/// first `.`), SUSE flavours `suse` and the major version, Amazon Linux
/// `amzn` and Photon `ph` with the whole version; any other distribution
/// but Fedora has no tag. Every RHEL-family host tries its own tag first,
/// other hosts that tag alone.
pub proof fn law_distro_tags(id: Seq<char>, version: Seq<char>, tag: Seq<char>)
    ensures
        id == "rhel"@ || id == "centos"@ || id == "rocky"@ || id == "almalinux"@ || id == "ol"@
            ==> spec_distro_tag(id, version) == Some("el"@ + before_char(version, '.')),
        id == "sles"@ || id == "opensuse-leap"@ || id == "opensuse"@ || id
            == "opensuse-tumbleweed"@ ==> spec_distro_tag(id, version) == Some(
            "suse"@ + before_char(version, '.'),
        ),
        id == "amzn"@ ==> spec_distro_tag(id, version) == Some("amzn"@ + version),
        id == "photon"@ ==> spec_distro_tag(id, version) == Some("ph"@ + version),
        !(id == "fedora"@ || id == "rhel"@ || id == "centos"@ || id == "rocky"@ || id
            == "almalinux"@ || id == "ol"@ || id == "sles"@ || id == "opensuse-leap"@ || id
            == "opensuse"@ || id == "opensuse-tumbleweed"@ || id == "amzn"@ || id == "photon"@)
            ==> spec_distro_tag(id, version) is None,
        candidate_tags(id, tag).len() >= 1 && candidate_tags(id, tag)[0] == tag,
        !(id == "fedora"@ || id == "rhel"@ || id == "centos"@ || id == "rocky"@ || id
            == "almalinux"@ || id == "ol"@) ==> candidate_tags(id, tag) == seq![tag],
{
    reveal_strlit("el10");
    reveal_strlit("el9");
    reveal_strlit("el8");
    reveal_strlit("el7");
    reveal_strlit("fedora");
    reveal_strlit("rhel");
    reveal_strlit("centos");
    reveal_strlit("rocky");
    reveal_strlit("almalinux");
    reveal_strlit("ol");
    reveal_strlit("sles");
    reveal_strlit("opensuse-leap");
    reveal_strlit("opensuse");
    reveal_strlit("opensuse-tumbleweed");
    reveal_strlit("amzn");
    reveal_strlit("photon");
    assert("fedora"@.len() == 6 && "fedora"@[0] == 'f');
    assert("rhel"@.len() == 4 && "rhel"@[0] == 'r');
    assert("centos"@.len() == 6 && "centos"@[0] == 'c');
    assert("rocky"@.len() == 5 && "rocky"@[0] == 'r');
    assert("almalinux"@.len() == 9 && "almalinux"@[0] == 'a');
    assert("ol"@.len() == 2 && "ol"@[0] == 'o');
    assert("sles"@.len() == 4 && "sles"@[0] == 's');
    assert("opensuse-leap"@.len() == 13 && "opensuse-leap"@[0] == 'o');
    assert("opensuse"@.len() == 8 && "opensuse"@[0] == 'o');
    assert("opensuse-tumbleweed"@.len() == 19 && "opensuse-tumbleweed"@[0] == 'o');
    assert("amzn"@.len() == 4 && "amzn"@[0] == 'a');
    assert("photon"@.len() == 6 && "photon"@[0] == 'p');
}


/// A RHEL-family host whose exact `el` release is missing falls back to its
/// neighbour: el10 to el9, el9 to el8, el8 to el9, el7 to el8; any other
/// tag has no fallback.
pub proof fn law_rhel_fallback_chain(id: Seq<char>, tag: Seq<char>)
    requires
        id == "fedora"@ || id == "rhel"@ || id == "centos"@ || id == "rocky"@ || id
            == "almalinux"@ || id == "ol"@,
    ensures
        candidate_tags(id, "el10"@) == seq!["el10"@, "el9"@],
        candidate_tags(id, "el9"@) == seq!["el9"@, "el8"@],
        candidate_tags(id, "el8"@) == seq!["el8"@, "el9"@],
        candidate_tags(id, "el7"@) == seq!["el7"@, "el8"@],
        tag != "el10"@ && tag != "el9"@ && tag != "el8"@ && tag != "el7"@ ==> candidate_tags(
            id,
            tag,
        ) == seq![tag],
{
    reveal_strlit("el10");
    reveal_strlit("el9");
    reveal_strlit("el8");
    reveal_strlit("el7");
    assert("el10"@.len() == 4 && "el9"@.len() == 3 && "el8"@[2] == '8' && "el9"@[2] == '9'
        && "el7"@[2] == '7');
}

} // verus!
