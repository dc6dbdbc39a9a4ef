//! Validation of what hosts send to the server.

use vstd::prelude::*;

use crate::sensors::SensorType;
use crate::text::{
    alphanumeric_char, chars_of, is_alphanumeric, is_digit, split_n, split_n_str, str_eq, trim,
    trim_str, views,
};

verus! {

/// A parsed callback: `hostname|pkg_type|arch|distro_id|distro_version`.
/// The last two fields are optional: Windows does not send them.
#[derive(Debug)]
pub struct CallbackInfo {
    pub hostname: String,
    pub pkg_type: String,
    pub arch: String,
    pub distro_id: String,
    pub distro_version: String,
    pub target_type: SensorType,
}

pub open spec fn hostname_char(c: char) -> bool {
    is_alphanumeric(c) || c == '.' || c == '-' || c == '_'
}

/// 1 to 253 characters from `[A-Za-z0-9._-]`. Such a name is ASCII, so its
/// character count is its length in bytes.
pub open spec fn hostname_ok(s: Seq<char>) -> bool {
    1 <= s.len() <= 253 && forall|i: int| 0 <= i < s.len() ==> hostname_char(#[trigger] s[i])
}

pub open spec fn arch_ok(s: Seq<char>) -> bool {
    s == "x86_64"@ || s == "amd64"@ || s == "AMD64"@ || s == "aarch64"@ || s == "arm64"@ || s
        == "s390x"@ || s == "ppc64le"@
}

pub open spec fn distro_char(c: char) -> bool {
    is_alphanumeric(c) || c == '-' || c == '_' || c == '.'
}

/// At most 64 characters from `[A-Za-z0-9._-]`; empty is fine.
pub open spec fn distro_field_ok(s: Seq<char>) -> bool {
    s.len() <= 64 && forall|i: int| 0 <= i < s.len() ==> distro_char(#[trigger] s[i])
}

pub open spec fn sha256_char(c: char) -> bool {
    is_digit(c) || ('a' <= c && c <= 'f')
}

/// Exactly 64 lowercase hex digits.
pub open spec fn sha256_ok(s: Seq<char>) -> bool {
    s.len() == 64 && forall|i: int| 0 <= i < s.len() ==> sha256_char(#[trigger] s[i])
}

pub open spec fn pkg_type_of(s: Seq<char>) -> Option<SensorType> {
    if s == "deb"@ {
        Some(SensorType::Deb)
    } else if s == "rpm"@ {
        Some(SensorType::Rpm)
    } else if s == "exe"@ {
        Some(SensorType::WindowsExe)
    } else {
        None
    }
}

/// The fields of a callback body.
pub open spec fn callback_parts(body: Seq<char>) -> Seq<Seq<char>> {
    split_n(trim(body), '|', 5)
}

pub open spec fn opt_field(parts: Seq<Seq<char>>, i: int) -> Seq<char> {
    if parts.len() > i {
        parts[i]
    } else {
        seq![]
    }
}

/// Why a callback body is rejected, if it is.
pub open spec fn callback_error(body: Seq<char>) -> Option<Seq<char>> {
    let parts = callback_parts(body);
    if parts.len() < 3 {
        Some("invalid callback format"@)
    } else if !hostname_ok(parts[0]) {
        Some("invalid hostname"@)
    } else if !arch_ok(parts[2]) {
        Some("unsupported architecture"@)
    } else if pkg_type_of(parts[1]) is None {
        Some("unsupported package type"@)
    } else if !distro_field_ok(opt_field(parts, 3)) || !distro_field_ok(opt_field(parts, 4)) {
        Some("invalid distro field"@)
    } else {
        None
    }
}

/// `info` holds the fields of an accepted callback body.
pub open spec fn callback_fields(info: CallbackInfo, body: Seq<char>) -> bool {
    let parts = callback_parts(body);
    &&& parts.len() >= 3
    &&& info.hostname@ == parts[0]
    &&& info.pkg_type@ == parts[1]
    &&& info.arch@ == parts[2]
    &&& info.distro_id@ == opt_field(parts, 3)
    &&& info.distro_version@ == opt_field(parts, 4)
    &&& pkg_type_of(parts[1]) == Some(info.target_type)
}

pub fn is_valid_hostname(s: &str) -> (res: bool)
    ensures
        res == hostname_ok(s@),
{
    let v = chars_of(s);
    if v.len() < 1 || v.len() > 253 {
        return false;
    }
    let mut i: usize = 0;
    while i < v.len()
        invariant
            0 <= i <= v.len(),
            v@ == s@,
            forall|j: int| 0 <= j < i ==> hostname_char(#[trigger] v@[j]),
        decreases v.len() - i,
    {
        let c = v[i];
        if !(alphanumeric_char(c) || c == '.' || c == '-' || c == '_') {
            assert(!hostname_char(v@[i as int]));
            return false;
        }
        i = i + 1;
    }
    true
}

pub fn is_valid_arch(s: &str) -> (res: bool)
    ensures
        res == arch_ok(s@),
{
    str_eq(s, "x86_64") || str_eq(s, "amd64") || str_eq(s, "AMD64") || str_eq(s, "aarch64")
        || str_eq(s, "arm64") || str_eq(s, "s390x") || str_eq(s, "ppc64le")
}

pub fn is_valid_distro_field(s: &str) -> (res: bool)
    ensures
        res == distro_field_ok(s@),
{
    let v = chars_of(s);
    if v.len() > 64 {
        return false;
    }
    let mut i: usize = 0;
    while i < v.len()
        invariant
            0 <= i <= v.len(),
            v@ == s@,
            forall|j: int| 0 <= j < i ==> distro_char(#[trigger] v@[j]),
        decreases v.len() - i,
    {
        let c = v[i];
        if !(alphanumeric_char(c) || c == '-' || c == '_' || c == '.') {
            assert(!distro_char(v@[i as int]));
            return false;
        }
        i = i + 1;
    }
    true
}

/// The `/s/{sha256}` route takes exactly 64 lowercase hex digits; anything
/// else (a path traversal above all) is refused before any lookup.
pub fn is_valid_sha256(s: &str) -> (res: bool)
    ensures
        res == sha256_ok(s@),
{
    let v = chars_of(s);
    if v.len() != 64 {
        return false;
    }
    let mut i: usize = 0;
    while i < v.len()
        invariant
            0 <= i <= v.len(),
            v@ == s@,
            forall|j: int| 0 <= j < i ==> sha256_char(#[trigger] v@[j]),
        decreases v.len() - i,
    {
        let c = v[i];
        if !(('0' <= c && c <= '9') || ('a' <= c && c <= 'f')) {
            assert(!sha256_char(v@[i as int]));
            return false;
        }
        i = i + 1;
    }
    true
}

fn pkg_type(s: &str) -> (res: Option<SensorType>)
    ensures
        res == pkg_type_of(s@),
{
    if str_eq(s, "deb") {
        Some(SensorType::Deb)
    } else if str_eq(s, "rpm") {
        Some(SensorType::Rpm)
    } else if str_eq(s, "exe") {
        Some(SensorType::WindowsExe)
    } else {
        None
    }
}

/// Parses a callback body. The reasons for a refusal are the ones logged.
pub fn parse_callback(body: &str) -> (res: Result<CallbackInfo, &'static str>)
    ensures
        res is Ok <==> callback_error(body@) is None,
        res matches Err(e) ==> callback_error(body@) == Some(e@),
        res matches Ok(info) ==> callback_fields(info, body@),
{
    let trimmed = trim_str(body);
    let parts = split_n_str(trimmed.as_str(), '|', 5);
    let ghost ps = callback_parts(body@);
    assert(views(parts@) == ps);
    if parts.len() < 3 {
        return Err("invalid callback format");
    }
    assert(parts[0]@ == ps[0] && parts[1]@ == ps[1] && parts[2]@ == ps[2]);
    let hostname = &parts[0];
    if !is_valid_hostname(hostname.as_str()) {
        return Err("invalid hostname");
    }
    let arch = &parts[2];
    if !is_valid_arch(arch.as_str()) {
        return Err("unsupported architecture");
    }
    let pkg = &parts[1];
    let target_type = match pkg_type(pkg.as_str()) {
        Some(t) => t,
        None => {
            return Err("unsupported package type");
        },
    };
    let distro_id: String = if parts.len() > 3 {
        assert(parts[3]@ == ps[3]);
        parts[3].clone()
    } else {
        String::new()
    };
    let distro_version: String = if parts.len() > 4 {
        assert(parts[4]@ == ps[4]);
        parts[4].clone()
    } else {
        String::new()
    };
    if !is_valid_distro_field(distro_id.as_str()) || !is_valid_distro_field(
        distro_version.as_str(),
    ) {
        return Err("invalid distro field");
    }
    Ok(
        CallbackInfo {
            hostname: hostname.clone(),
            pkg_type: pkg.clone(),
            arch: arch.clone(),
            distro_id,
            distro_version,
            target_type,
        },
    )
}

} // verus!
