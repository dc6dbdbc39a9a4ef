//! Local sensor files: their type, their name and their digest. The caller
//! reads the bytes; what is computed from them is here.

use vstd::prelude::*;

use crate::digest::{hex_lower, sha256_hex, sha256_of};
use crate::error::AppError;
use crate::text::{concat3, opt_view, owned, str_eq, string_of, chars_of};

use super::types::{Sensor, SensorType};

verus! {

/// The final component of a path, as `std::path::Path::file_name` reads it.
pub uninterp spec fn file_name_of(path: Seq<char>) -> Option<Seq<char>>;

/// `std::path::Path::file_name`, taken as text.
#[verifier::external_body]
fn path_file_name(path: &str) -> (r: Option<String>)
    ensures
        opt_view(r) == file_name_of(path@),
{
    match std::path::Path::new(path).file_name() {
        Some(n) => Some(n.to_string_lossy().into_owned()),
        None => None,
    }
}

/// The last `.` of `f` below `k`.
pub open spec fn last_dot(f: Seq<char>, k: int) -> Option<int>
    decreases k,
{
    if k <= 0 {
        None
    } else if f[k - 1] == '.' {
        Some(k - 1)
    } else {
        last_dot(f, k - 1)
    }
}

/// The extension of a file name, as `Path::extension` documents it: what
/// follows the last `.`; nothing when there is no `.`, or when the only one
/// starts the name (a hidden file), or for `..`.
pub open spec fn extension_of_name(f: Seq<char>) -> Option<Seq<char>> {
    if f == ".."@ {
        None
    } else {
        match last_dot(f, f.len() as int) {
            Some(k) if k > 0 => Some(f.subrange(k + 1, f.len() as int)),
            _ => None,
        }
    }
}

pub open spec fn type_for_extension(e: Option<Seq<char>>) -> Option<SensorType> {
    match e {
        Some(e) => if e == "deb"@ {
            Some(SensorType::Deb)
        } else if e == "rpm"@ {
            Some(SensorType::Rpm)
        } else if e == "exe"@ {
            Some(SensorType::WindowsExe)
        } else {
            None
        },
        None => None,
    }
}

pub open spec fn spec_sensor_type(path: Seq<char>) -> Option<SensorType> {
    match file_name_of(path) {
        Some(f) => type_for_extension(extension_of_name(f)),
        None => None,
    }
}

pub open spec fn unknown_type_message(path: Seq<char>) -> Seq<char> {
    "Unknown sensor type for '"@ + path + "'. Supported: .deb, .rpm, .exe"@
}

/// `Path::extension` of a file name.
pub fn extension(name: &str) -> (r: Option<String>)
    ensures
        opt_view(r) == extension_of_name(name@),
{
    let v = chars_of(name);
    proof {
        reveal_strlit("..");
    }
    if str_eq(name, "..") {
        return None;
    }
    let mut k: usize = v.len();
    while k > 0
        invariant
            0 <= k <= v.len(),
            v@ == name@,
            name@ != ".."@,
            last_dot(v@, v.len() as int) == last_dot(v@, k as int),
        decreases k,
    {
        if v[k - 1] == '.' {
            if k - 1 == 0 {
                return None;
            }
            return Some(string_of(&v, k, v.len()));
        }
        k = k - 1;
    }
    None
}

/// The package type a file name stands for, by its extension.
pub fn sensor_type_of_name(name: &str) -> (r: Option<SensorType>)
    ensures
        r == type_for_extension(extension_of_name(name@)),
{
    proof {
        reveal_strlit("deb");
        reveal_strlit("rpm");
        reveal_strlit("exe");
    }
    match extension(name) {
        Some(e) => if str_eq(e.as_str(), "deb") {
            Some(SensorType::Deb)
        } else if str_eq(e.as_str(), "rpm") {
            Some(SensorType::Rpm)
        } else if str_eq(e.as_str(), "exe") {
            Some(SensorType::WindowsExe)
        } else {
            None
        },
        None => None,
    }
}

/// The package type of the file at `path`: `.deb`, `.rpm` or `.exe`.
pub fn detect_sensor_type(path: &str) -> (r: Option<SensorType>)
    ensures
        r == spec_sensor_type(path@),
{
    match path_file_name(path) {
        Some(f) => sensor_type_of_name(f.as_str()),
        None => None,
    }
}

/// The sensor of the file at `path` holding `data`: its type by extension,
/// its file name and the lowercase hex sha256 of its bytes.
pub fn make_sensor(path: &str, data: &[u8]) -> (r: Result<Sensor, AppError>)
    ensures
        r is Ok <==> spec_sensor_type(path@) is Some,
        r matches Ok(s) ==> {
            &&& Some(s.sensor_type) == spec_sensor_type(path@)
            &&& s.sha256@ == hex_lower(sha256_of(data@))
            &&& s.filename@ == match file_name_of(path@) {
                Some(f) => f,
                None => Seq::<char>::empty(),
            }
        },
        r matches Err(e) ==> e matches AppError::Other(m) && m@ == unknown_type_message(path@),
{
    let sensor_type = match detect_sensor_type(path) {
        Some(t) => t,
        None => {
            let msg = concat3("Unknown sensor type for '", path, "'. Supported: .deb, .rpm, .exe");
            return Err(AppError::Other(msg));
        },
    };
    let filename = match path_file_name(path) {
        Some(f) => f,
        None => String::new(),
    };
    let sha256 = sha256_hex(data);
    Ok(Sensor { filename, sha256, sensor_type })
}

} // verus!
