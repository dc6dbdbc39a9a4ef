//! The install scripts that hosts fetch and run, and the sanitising of
//! everything that is spliced into them.

use vstd::prelude::*;

use crate::text::{
    chars_of, concat2, concat3, hexdigit_char, alphanumeric_char, is_alphanumeric, is_hexdigit,
    keep, lemma_keep_all, lemma_keep_everything, lemma_keep_push, opt_view, owned, push_char, replace_all, replace_str,
    str_eq, trim, trim_str,
};

verus! {

/// The tag every sensor gets unless the operator opts out.
pub const DEFAULT_TAG: &'static str = "deployment/pike";

/// The Linux installer. Placeholders: `{{BASE_URL}}`, `{{CID}}`,
/// `{{CLOUD_FLAG}}`, `{{TAGS_FLAG}}`.
pub const LINUX_TEMPLATE: &'static str = "#!/usr/bin/env bash
# pike: CrowdStrike Falcon sensor installer for Linux
set -euo pipefail

BASE_URL=\"{{BASE_URL}}\"
CID=\"{{CID}}\"

HOST=\"$(hostname -s 2>/dev/null || hostname)\"

report() {
    curl -fsS -X POST --data-binary \"$1\" \"$BASE_URL/done\" >/dev/null 2>&1 || true
}

fail() {
    echo \"pike: $1\" >&2
    report \"$HOST|error|$1\"
    exit 1
}

[ \"$(id -u)\" -eq 0 ] || fail \"must run as root\"

if command -v dpkg >/dev/null 2>&1; then
    PKG=deb
elif command -v rpm >/dev/null 2>&1; then
    PKG=rpm
else
    fail \"neither dpkg nor rpm found\"
fi

ARCH=\"$(uname -m)\"
DISTRO_ID=\"\"
DISTRO_VERSION=\"\"
if [ -r /etc/os-release ]; then
    . /etc/os-release
    DISTRO_ID=\"${ID:-}\"
    DISTRO_VERSION=\"${VERSION_ID:-}\"
fi

ANSWER=\"$(curl -fsS -X POST --data-binary \"$HOST|$PKG|$ARCH|$DISTRO_ID|$DISTRO_VERSION\" \"$BASE_URL/cb\")\" \\
    || fail \"no matching sensor for $PKG/$ARCH $DISTRO_ID $DISTRO_VERSION\"
FILE=\"${ANSWER%%|*}\"
SHA256=\"${ANSWER##*|}\"

TMP=\"$(mktemp -d)\"
trap 'rm -rf \"$TMP\"' EXIT
curl -fsS -o \"$TMP/$FILE\" \"$BASE_URL/s/$SHA256\" || fail \"download failed\"
echo \"$SHA256  $TMP/$FILE\" | sha256sum -c --quiet - || fail \"checksum mismatch\"

if [ \"$PKG\" = deb ]; then
    apt-get install -y \"$TMP/$FILE\" >/dev/null || dpkg -i \"$TMP/$FILE\" || fail \"dpkg failed\"
else
    if command -v dnf >/dev/null 2>&1; then
        dnf install -y \"$TMP/$FILE\" >/dev/null || fail \"dnf failed\"
    elif command -v yum >/dev/null 2>&1; then
        yum install -y \"$TMP/$FILE\" >/dev/null || fail \"yum failed\"
    elif command -v zypper >/dev/null 2>&1; then
        zypper --non-interactive install \"$TMP/$FILE\" >/dev/null || fail \"zypper failed\"
    else
        rpm -i \"$TMP/$FILE\" || fail \"rpm failed\"
    fi
fi

/opt/CrowdStrike/falconctl -s -f --cid=\"$CID\" {{CLOUD_FLAG}} {{TAGS_FLAG}} || fail \"falconctl failed\"
systemctl enable --now falcon-sensor >/dev/null 2>&1 || service falcon-sensor start || fail \"cannot start falcon-sensor\"

report \"$HOST|ok\"
echo \"pike: Falcon sensor installed on $HOST\"
";

/// The Windows installer. Placeholders: `{{BASE_URL}}`, `{{CID}}`,
/// `{{CLOUD_PARAM}}`, `{{TAGS_PARAM}}`.
pub const WINDOWS_TEMPLATE: &'static str = "# pike: CrowdStrike Falcon sensor installer for Windows
$ErrorActionPreference = 'Stop'
$ProgressPreference = 'SilentlyContinue'

$BaseUrl = '{{BASE_URL}}'
$Cid = '{{CID}}'
$HostName = $env:COMPUTERNAME

function Send-Report([string]$Body) {
    try { Invoke-RestMethod -Method Post -Uri \"$BaseUrl/done\" -Body $Body | Out-Null } catch { }
}

function Fail([string]$Message) {
    Write-Host \"pike: $Message\" -ForegroundColor Red
    Send-Report \"$HostName|error|$Message\"
    exit 1
}

$Arch = $env:PROCESSOR_ARCHITECTURE
try {
    $Answer = Invoke-RestMethod -Method Post -Uri \"$BaseUrl/cb\" -Body \"$HostName|exe|$Arch\"
} catch {
    Fail \"no matching sensor for exe/$Arch\"
}

$Parts = \"$Answer\".Trim().Split('|')
$File = $Parts[0]
$Sha256 = $Parts[1]
$Path = Join-Path $env:TEMP $File

try {
    Invoke-WebRequest -Uri \"$BaseUrl/s/$Sha256\" -OutFile $Path -UseBasicParsing
} catch {
    Fail 'download failed'
}

$Actual = (Get-FileHash -Algorithm SHA256 -Path $Path).Hash.ToLower()
if ($Actual -ne $Sha256) {
    Remove-Item $Path -Force
    Fail 'checksum mismatch'
}

$Arguments = \"/install /quiet /norestart CID=$Cid {{CLOUD_PARAM}} {{TAGS_PARAM}}\"
$Process = Start-Process -FilePath $Path -ArgumentList $Arguments -Wait -PassThru
Remove-Item $Path -Force
if ($Process.ExitCode -ne 0) {
    Fail \"installer exited with $($Process.ExitCode)\"
}

Send-Report \"$HostName|ok\"
Write-Host \"pike: Falcon sensor installed on $HostName\"
";

// ---------------------------------------------------------------------------
// Specification
// ---------------------------------------------------------------------------

pub open spec fn cid_char(c: char) -> bool {
    is_hexdigit(c) || c == '-'
}

pub open spec fn tag_char(c: char) -> bool {
    is_alphanumeric(c) || c == ',' || c == '-' || c == '_' || c == '/' || c == '.' || c == '@'
}

pub open spec fn spec_sanitize_cid(cid: Seq<char>) -> Seq<char> {
    keep(cid, |c: char| cid_char(c))
}

pub open spec fn known_cloud(c: Seq<char>) -> bool {
    c == "us-1"@ || c == "us-2"@ || c == "eu-1"@ || c == "us-gov-1"@ || c == "us-gov-2"@
}

pub open spec fn spec_sanitize_tags(tags: Seq<char>) -> Option<Seq<char>> {
    let s = keep(tags, |c: char| tag_char(c));
    if s.len() == 0 || s.len() > 256 {
        None
    } else {
        Some(s)
    }
}

/// The tag string sensors get: the default tag first, then the operator's
/// tags (trimmed, ignored when blank).
pub open spec fn spec_resolve_tags(user: Option<Seq<char>>, include_default: bool) -> Option<
    Seq<char>,
> {
    let u = match user {
        Some(t) => if trim(t).len() == 0 {
            None
        } else {
            Some(trim(t))
        },
        None => None,
    };
    match (include_default, u) {
        (true, Some(t)) => Some("deployment/pike,"@ + t),
        (true, None) => Some("deployment/pike"@),
        (false, Some(t)) => Some(t),
        (false, None) => None,
    }
}

pub open spec fn cloud_flag(cloud: Option<Seq<char>>) -> Seq<char> {
    match cloud {
        Some(c) if known_cloud(c) => "--cloud="@ + c,
        _ => seq![],
    }
}

pub open spec fn tags_flag(tags: Option<Seq<char>>) -> Seq<char> {
    match tags {
        Some(t) => match spec_sanitize_tags(t) {
            Some(s) => "--tags='"@ + s + "'"@,
            None => seq![],
        },
        None => seq![],
    }
}

pub open spec fn cloud_param(cloud: Option<Seq<char>>) -> Seq<char> {
    match cloud {
        Some(c) if known_cloud(c) => "CLOUD="@ + c,
        _ => seq![],
    }
}

pub open spec fn tags_param(tags: Option<Seq<char>>) -> Seq<char> {
    match tags {
        Some(t) => match spec_sanitize_tags(t) {
            Some(s) => "GROUPING_TAGS="@ + s,
            None => seq![],
        },
        None => seq![],
    }
}

pub open spec fn spec_linux_script(
    base_url: Seq<char>,
    cid: Seq<char>,
    cloud: Option<Seq<char>>,
    tags: Option<Seq<char>>,
) -> Seq<char> {
    replace_all(
        replace_all(
            replace_all(
                replace_all(LINUX_TEMPLATE@, "{{BASE_URL}}"@, base_url),
                "{{CID}}"@,
                spec_sanitize_cid(cid),
            ),
            "{{CLOUD_FLAG}}"@,
            cloud_flag(cloud),
        ),
        "{{TAGS_FLAG}}"@,
        tags_flag(tags),
    )
}

pub open spec fn spec_windows_script(
    base_url: Seq<char>,
    cid: Seq<char>,
    cloud: Option<Seq<char>>,
    tags: Option<Seq<char>>,
) -> Seq<char> {
    replace_all(
        replace_all(
            replace_all(
                replace_all(WINDOWS_TEMPLATE@, "{{BASE_URL}}"@, base_url),
                "{{CID}}"@,
                spec_sanitize_cid(cid),
            ),
            "{{CLOUD_PARAM}}"@,
            cloud_param(cloud),
        ),
        "{{TAGS_PARAM}}"@,
        tags_param(tags),
    )
}

pub open spec fn opt_str_view(o: Option<&str>) -> Option<Seq<char>> {
    match o {
        Some(s) => Some(s@),
        None => None,
    }
}

// ---------------------------------------------------------------------------
// Implementation
// ---------------------------------------------------------------------------

/// The tags sensors are grouped by.
pub fn resolve_tags(user_tags: Option<&str>, include_default: bool) -> (res: Option<String>)
    ensures
        opt_view(res) == spec_resolve_tags(opt_str_view(user_tags), include_default),
{
    let user: Option<String> = match user_tags {
        Some(t) => {
            let s = trim_str(t);
            if s.as_str().is_empty() {
                None
            } else {
                Some(s)
            }
        },
        None => None,
    };
    proof {
        reveal_strlit("deployment/pike");
        reveal_strlit("deployment/pike,");
        reveal_strlit(",");
    }
    match (include_default, user) {
        (true, Some(t)) => Some(concat3(DEFAULT_TAG, ",", t.as_str())),
        (true, None) => Some(owned(DEFAULT_TAG)),
        (false, Some(t)) => Some(t),
        (false, None) => None,
    }
}

/// Only hex digits and `-` survive: the CID is spliced into a shell command.
pub fn sanitize_cid(cid: &str) -> (res: String)
    ensures
        res@ == spec_sanitize_cid(cid@),
{
    let v = chars_of(cid);
    let ghost p = |c: char| cid_char(c);
    let mut res = String::new();
    let mut i: usize = 0;
    while i < v.len()
        invariant
            0 <= i <= v.len(),
            p == (|c: char| cid_char(c)),
            res@ == keep(v@.subrange(0, i as int), p),
        decreases v.len() - i,
    {
        let c = v[i];
        proof {
            assert(v@.subrange(0, i + 1) =~= v@.subrange(0, i as int).push(c));
            lemma_keep_push(v@.subrange(0, i as int), c, p);
        }
        if hexdigit_char(c) || c == '-' {
            push_char(&mut res, c);
        }
        i = i + 1;
    }
    assert(v@.subrange(0, v.len() as int) =~= v@);
    res
}

/// A cloud name is passed on only when it is one of the known regions.
pub fn sanitize_cloud(cloud: &str) -> (res: Option<&str>)
    ensures
        res is Some <==> known_cloud(cloud@),
        res matches Some(c) ==> c@ == cloud@,
{
    if str_eq(cloud, "us-1") || str_eq(cloud, "us-2") || str_eq(cloud, "eu-1") || str_eq(
        cloud,
        "us-gov-1",
    ) || str_eq(cloud, "us-gov-2") {
        Some(cloud)
    } else {
        None
    }
}

/// Keeps `[A-Za-z0-9,-_/.@]`; nothing left, or more than 256 characters
/// left, means no tags.
pub fn sanitize_tags(tags: &str) -> (res: Option<String>)
    ensures
        opt_view(res) == spec_sanitize_tags(tags@),
{
    let v = chars_of(tags);
    let ghost p = |c: char| tag_char(c);
    let mut res = String::new();
    let mut n: usize = 0;
    let mut i: usize = 0;
    while i < v.len()
        invariant
            0 <= i <= v.len(),
            p == (|c: char| tag_char(c)),
            res@ == keep(v@.subrange(0, i as int), p),
            n == res@.len(),
            n <= i,
        decreases v.len() - i,
    {
        let c = v[i];
        proof {
            assert(v@.subrange(0, i + 1) =~= v@.subrange(0, i as int).push(c));
            lemma_keep_push(v@.subrange(0, i as int), c, p);
        }
        if alphanumeric_char(c) || c == ',' || c == '-' || c == '_' || c == '/' || c == '.' || c
            == '@' {
            push_char(&mut res, c);
            n = n + 1;
        }
        i = i + 1;
    }
    assert(v@.subrange(0, v.len() as int) =~= v@);
    if n == 0 || n > 256 {
        None
    } else {
        Some(res)
    }
}

fn cloud_flag_str(cloud: Option<&str>, prefix: &str) -> (res: String)
    ensures
        res@ == match opt_str_view(cloud) {
            Some(c) if known_cloud(c) => prefix@ + c,
            _ => seq![],
        },
{
    match cloud {
        Some(c) => match sanitize_cloud(c) {
            Some(k) => concat2(prefix, k),
            None => String::new(),
        },
        None => String::new(),
    }
}

/// Renders the Linux installer for a host to run.
pub fn generate_linux_script(base_url: &str, cid: &str, cloud: Option<&str>, tags: Option<&str>) -> (res:
    String)
    ensures
        res@ == spec_linux_script(base_url@, cid@, opt_str_view(cloud), opt_str_view(tags)),
{
    let safe_cid = sanitize_cid(cid);
    let cloud_flag = cloud_flag_str(cloud, "--cloud=");
    let tags_flag = match tags {
        Some(t) => match sanitize_tags(t) {
            Some(s) => concat3("--tags='", s.as_str(), "'"),
            None => String::new(),
        },
        None => String::new(),
    };
    proof {
        reveal_strlit("{{BASE_URL}}");
        reveal_strlit("{{CID}}");
        reveal_strlit("{{CLOUD_FLAG}}");
        reveal_strlit("{{TAGS_FLAG}}");
    }
    let s1 = replace_str(LINUX_TEMPLATE, "{{BASE_URL}}", base_url);
    let s2 = replace_str(s1.as_str(), "{{CID}}", safe_cid.as_str());
    let s3 = replace_str(s2.as_str(), "{{CLOUD_FLAG}}", cloud_flag.as_str());
    replace_str(s3.as_str(), "{{TAGS_FLAG}}", tags_flag.as_str())
}

/// Renders the Windows installer for a host to run.
pub fn generate_windows_script(
    base_url: &str,
    cid: &str,
    cloud: Option<&str>,
    tags: Option<&str>,
) -> (res: String)
    ensures
        res@ == spec_windows_script(base_url@, cid@, opt_str_view(cloud), opt_str_view(tags)),
{
    let safe_cid = sanitize_cid(cid);
    let cloud_param = cloud_flag_str(cloud, "CLOUD=");
    let tags_param = match tags {
        Some(t) => match sanitize_tags(t) {
            Some(s) => concat2("GROUPING_TAGS=", s.as_str()),
            None => String::new(),
        },
        None => String::new(),
    };
    proof {
        reveal_strlit("{{BASE_URL}}");
        reveal_strlit("{{CID}}");
        reveal_strlit("{{CLOUD_PARAM}}");
        reveal_strlit("{{TAGS_PARAM}}");
    }
    let s1 = replace_str(WINDOWS_TEMPLATE, "{{BASE_URL}}", base_url);
    let s2 = replace_str(s1.as_str(), "{{CID}}", safe_cid.as_str());
    let s3 = replace_str(s2.as_str(), "{{CLOUD_PARAM}}", cloud_param.as_str());
    replace_str(s3.as_str(), "{{TAGS_PARAM}}", tags_param.as_str())
}


// ---------------------------------------------------------------------------
// Laws
// ---------------------------------------------------------------------------

/// Whatever a CID holds, only hex digits and `-` reach a script: the CID
/// cannot break out of its quoting.
pub proof fn law_sanitized_cid_is_inert(cid: Seq<char>)
    ensures
        forall|i: int|
            0 <= i < spec_sanitize_cid(cid).len() ==> cid_char(#[trigger] spec_sanitize_cid(cid)[i]),
        spec_sanitize_cid(cid).len() <= cid.len(),
{
    crate::text::lemma_keep_all(cid, |c: char| cid_char(c));
}

/// Sanitized tags are never empty, at most 256 characters, and made of
/// the allowed characters only.
pub proof fn law_sanitized_tags_are_inert(tags: Seq<char>)
    ensures
        spec_sanitize_tags(tags) matches Some(s) ==> 0 < s.len() <= 256 && forall|i: int|
            0 <= i < s.len() ==> tag_char(#[trigger] s[i]),
{
    crate::text::lemma_keep_all(tags, |c: char| tag_char(c));
}


/// Grouping tags made only of ASCII letters and digits and `,` `-` `_`
/// `/` `.` `@`, 1 to 256 of them, pass unchanged; whatever passes is made
/// of those characters only, 1 to 256 of them.
pub proof fn law_tag_characters(tags: Seq<char>)
    ensures
        (forall|i: int|
            0 <= i < tags.len() ==> {
                let c = #[trigger] tags[i];
                ||| ('0' <= c && c <= '9')
                ||| ('a' <= c && c <= 'z')
                ||| ('A' <= c && c <= 'Z')
                ||| c == ','
                ||| c == '-'
                ||| c == '_'
                ||| c == '/'
                ||| c == '.'
                ||| c == '@'
            }) && 0 < tags.len() <= 256 ==> spec_sanitize_tags(tags) == Some(tags),
        spec_sanitize_tags(tags) matches Some(s) ==> 0 < s.len() <= 256 && forall|i: int|
            0 <= i < s.len() ==> {
                let c = #[trigger] s[i];
                ||| ('0' <= c && c <= '9')
                ||| ('a' <= c && c <= 'z')
                ||| ('A' <= c && c <= 'Z')
                ||| c == ','
                ||| c == '-'
                ||| c == '_'
                ||| c == '/'
                ||| c == '.'
                ||| c == '@'
            },
{
    lemma_keep_all(tags, |c: char| tag_char(c));
    if forall|i: int| 0 <= i < tags.len() ==> tag_char(#[trigger] tags[i]) {
        lemma_keep_everything(tags, |c: char| tag_char(c));
    }
}


/// A CID made of hex digits (either case) and `-` passes unchanged; what
/// comes out of any CID is made of those characters only.
pub proof fn law_cid_characters(cid: Seq<char>)
    ensures
        (forall|i: int|
            0 <= i < cid.len() ==> {
                let c = #[trigger] cid[i];
                ||| ('0' <= c && c <= '9')
                ||| ('a' <= c && c <= 'f')
                ||| ('A' <= c && c <= 'F')
                ||| c == '-'
            }) ==> spec_sanitize_cid(cid) == cid,
        forall|i: int|
            0 <= i < spec_sanitize_cid(cid).len() ==> {
                let c = #[trigger] spec_sanitize_cid(cid)[i];
                ||| ('0' <= c && c <= '9')
                ||| ('a' <= c && c <= 'f')
                ||| ('A' <= c && c <= 'F')
                ||| c == '-'
            },
{
    lemma_keep_all(cid, |c: char| cid_char(c));
    if forall|i: int| 0 <= i < cid.len() ==> cid_char(#[trigger] cid[i]) {
        lemma_keep_everything(cid, |c: char| cid_char(c));
    }
}

} // verus!
