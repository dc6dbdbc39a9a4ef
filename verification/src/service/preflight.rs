//! The checks before an installation writes anything.

use vstd::prelude::*;

use crate::text::{
    before_char, chars_of, find_char_from, owned, str_eq, has_char, lemma_before_char, split_whitespace_str,
    starts_with, starts_with_str, string_of, views, words,
};

verus! {

/// The first line of `s` that starts with `prefix`.
pub open spec fn first_line_starting(s: Seq<char>, prefix: Seq<char>) -> Option<Seq<char>>
    decreases s.len(),
{
    let line = before_char(s, '\n');
    if starts_with(line, prefix) {
        Some(line)
    } else if has_char(s, '\n') {
        proof {
            lemma_before_char(s, '\n');
        }
        first_line_starting(s.subrange(line.len() as int + 1, s.len() as int), prefix)
    } else {
        None
    }
}

/// The effective uid in the text of `/proc/self/status`: the third field
/// of the `Uid:` line, which reads `Uid:\t<real>\t<effective>\t<saved>\t<fs>`.
/// Permissions are checked against the effective one.
pub open spec fn spec_effective_uid(status: Seq<char>) -> Option<Seq<char>> {
    match first_line_starting(status, "Uid:"@) {
        Some(line) => if words(line).len() > 2 {
            Some(words(line)[2])
        } else {
            None
        },
        None => None,
    }
}

/// The effective uid, read from the text of `/proc/self/status`.
pub fn parse_effective_uid(status: &str) -> (r: Option<String>)
    ensures
        match spec_effective_uid(status@) {
            Some(u) => r matches Some(s) && s@ == u,
            None => r is None,
        },
{
    let v = chars_of(status);
    let mut lo: usize = 0;
    assert(v@.subrange(0, v.len() as int) =~= v@);
    while lo <= v.len()
        invariant
            0 <= lo <= v.len(),
            v@ == status@,
            first_line_starting(status@, "Uid:"@) == first_line_starting(
                v@.subrange(lo as int, v.len() as int),
                "Uid:"@,
            ),
        decreases v.len() + 1 - lo,
    {
        let ghost rest = v@.subrange(lo as int, v.len() as int);
        let k = find_char_from(&v, lo, '\n');
        proof {
            lemma_before_char(rest, '\n');
        }
        let line = string_of(&v, lo, k);
        assert(line@ =~= before_char(rest, '\n'));
        if starts_with_str(line.as_str(), "Uid:") {
            let ws = split_whitespace_str(line.as_str());
            if ws.len() > 2 {
                assert(views(ws@)[2] == ws@[2]@);
                return Some(ws[2].clone());
            }
            return None;
        }
        if k == v.len() {
            return None;
        }
        assert(has_char(rest, '\n'));
        assert(rest.subrange(line@.len() as int + 1, rest.len() as int) =~= v@.subrange(
            k + 1,
            v.len() as int,
        ));
        lo = k + 1;
    }
    None
}

pub open spec fn spec_preflight(systemd_present: bool, proc_status: Option<Seq<char>>) -> Option<
    Seq<char>,
> {
    if !systemd_present {
        Some("systemd not detected (/run/systemd/system is missing)"@)
    } else if !(proc_status matches Some(st) && spec_effective_uid(st) == Some("0"@)) {
        Some("must be run as root (try: sudo pike service-install)"@)
    } else {
        None
    }
}

/// Whether installing makes sense at all, checked before any write: there
/// must be systemd, and the effective uid (read from `proc_status`, the
/// text of `/proc/self/status` when it could be read) must be root's.
pub fn preflight_error(systemd_present: bool, proc_status: Option<&str>) -> (r: Result<(), String>)
    ensures
        match spec_preflight(
            systemd_present,
            match proc_status {
                Some(s) => Some(s@),
                None => None,
            },
        ) {
            Some(m) => r matches Err(e) && e@ == m,
            None => r is Ok,
        },
{
    if !systemd_present {
        return Err(owned("systemd not detected (/run/systemd/system is missing)"));
    }
    let root = match proc_status {
        Some(st) => match parse_effective_uid(st) {
            Some(u) => str_eq(u.as_str(), "0"),
            None => false,
        },
        None => false,
    };
    if !root {
        return Err(owned("must be run as root (try: sudo pike service-install)"));
    }
    Ok(())
}

} // verus!
