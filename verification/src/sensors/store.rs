//! The disk cache of sensor installers. A file's name is the sha256 of its
//! content, so the directory describes itself and survives a restart
//! without an index. Downloads are written under `tmp/` and renamed into
//! place only once their digest checked out.

use vstd::prelude::*;

use crate::config::defaults::{join_path, path_join};
use super::eviction::{eviction_plan, gc_budget, gc_kept, plan_gc, sum_of, without_path, CacheEntry, GcPlan};
use crate::digest::{all_lower_hex, hex16_of, hex_lower, random_u64, sha256_hex, sha256_of, spec_hex16};
use crate::error::AppError;
use crate::text::{concat2, concat3, lower, lowercase_str, str_eq};

verus! {

/// The cache directory and its size limit in bytes. Fetching, writing and
/// deleting files is the caller's; where they go and which ones leave is
/// decided here.
#[derive(Debug)]
pub struct BinaryStore {
    pub dir: String,
    pub max_bytes: u64,
}

impl BinaryStore {
    pub fn new(dir: String, max_bytes: u64) -> (r: Self)
        ensures
            r.dir == dir,
            r.max_bytes == max_bytes,
    {
        BinaryStore { dir, max_bytes }
    }

    /// Where the installer with this sha256 lives. The name is always
    /// lowercase: the `/s/{sha256}` route accepts only that, and the API may
    /// send either case.
    pub fn path_for(&self, sha256: &str) -> (r: String)
        ensures
            r@ == path_join(self.dir@, lower(sha256@)),
    {
        let name = lowercase_str(sha256);
        join_path(self.dir.as_str(), name.as_str())
    }

    /// The directory of unfinished downloads.
    pub fn tmp_dir(&self) -> (r: String)
        ensures
            r@ == path_join(self.dir@, "tmp"@),
    {
        join_path(self.dir.as_str(), "tmp")
    }

    /// A fresh path for an unfinished download of `sha256`, inside the
    /// directory of unfinished downloads.
    pub fn tmp_path(&self, sha256: &str) -> (r: String)
        ensures
            exists|name: Seq<char>|
                r@ == path_join(path_join(self.dir@, "tmp"@), name) && name.len() == sha256@.len()
                    + 17 && name.subrange(0, sha256@.len() as int) == sha256@,
    {
        let dir = self.tmp_dir();
        let name = tmp_name(sha256);
        join_path(dir.as_str(), name.as_str())
    }

    /// The collection after `keep` was published: what to delete so that
    /// the cache, with `in_flight` bytes still being written, fits the limit.
    pub fn plan_gc(&self, entries: Vec<CacheEntry>, keep: &str, in_flight: u64) -> (r: GcPlan)
        requires
            sum_of(entries@) + in_flight <= u64::MAX,
        ensures
            ({
                let c = without_path(entries@, keep@);
                let plan = eviction_plan(c, gc_budget(entries@, keep@, in_flight, self.max_bytes));
                &&& r.victims@.len() == plan.len()
                &&& forall|a: int| 0 <= a < plan.len() ==> #[trigger] r.victims@[a] == c[plan[a]].path
            }),
            r.oversized == (if sum_of(entries@) + in_flight > self.max_bytes && gc_kept(
                entries@,
                keep@,
                in_flight,
            ) > self.max_bytes {
                Some(gc_kept(entries@, keep@, in_flight) as u64)
            } else {
                None
            }),
    {
        plan_gc(entries, keep, in_flight, self.max_bytes)
    }
}

pub open spec fn spec_tmp_name(sha256: Seq<char>, x: u64) -> Seq<char> {
    sha256 + "."@ + spec_hex16(x)
}

/// The name of an unfinished download of `sha256` with suffix number `x`:
/// the sha256, a dot and the sixteen hex digits of `x`.
pub fn tmp_name_from(sha256: &str, x: u64) -> (r: String)
    ensures
        r@ == spec_tmp_name(sha256@, x),
        r@.len() == sha256@.len() + 17,
{
    let suffix = hex16_of(x);
    proof {
        reveal_strlit(".");
    }
    concat3(sha256, ".", suffix.as_str())
}

/// A fresh name for an unfinished download of `sha256`, with a random
/// suffix, so two downloads never share a file.
pub fn tmp_name(sha256: &str) -> (r: String)
    ensures
        exists|x: u64| r@ == spec_tmp_name(sha256@, x),
        r@.len() == sha256@.len() + 17,
        r@.subrange(0, sha256@.len() as int) == sha256@,
        r@[sha256@.len() as int] == '.',
        all_lower_hex(r@.subrange(sha256@.len() as int + 1, r@.len() as int)),
{
    let x = random_u64();
    let r = tmp_name_from(sha256, x);
    proof {
        reveal_strlit(".");
        assert(r@.subrange(0, sha256@.len() as int) =~= sha256@);
        assert(r@.subrange(sha256@.len() as int + 1, r@.len() as int) =~= spec_hex16(x));
        crate::digest::lemma_hex_lower(crate::digest::le_bytes(x));
    }
    r
}

/// `str::eq_ignore_ascii_case`.
pub fn eq_ignore_ascii_case(a: &str, b: &str) -> (r: bool)
    ensures
        r == (lower(a@) == lower(b@)),
{
    let x = lowercase_str(a);
    let y = lowercase_str(b);
    str_eq(x.as_str(), y.as_str())
}

pub open spec fn integrity_message(expected: Seq<char>, actual: Seq<char>) -> Seq<char> {
    "sensor integrity check failed: expected sha256 "@ + expected + ", got "@ + actual
}

/// What the integrity check says of a download whose digest came out as
/// `actual` (lowercase hex) when `expected` was promised. Case does not
/// matter.
pub fn integrity_verdict(actual: &str, expected: &str) -> (r: Result<(), AppError>)
    ensures
        r is Ok <==> lower(actual@) == lower(expected@),
        r matches Err(AppError::Other(m)) ==> m@ == integrity_message(expected@, actual@),
        r is Err ==> r->Err_0 is Other,
{
    if eq_ignore_ascii_case(actual, expected) {
        Ok(())
    } else {
        let head = concat2("sensor integrity check failed: expected sha256 ", expected);
        let msg = concat3(head.as_str(), ", got ", actual);
        Err(AppError::Other(msg))
    }
}

/// Checks downloaded bytes against the sha256 they were fetched under. A
/// mismatch means the bytes are not what was promised: nothing is placed in
/// the cache.
pub fn check_integrity(data: &[u8], expected: &str) -> (r: Result<(), AppError>)
    ensures
        r is Ok <==> lower(hex_lower(sha256_of(data@))) == lower(expected@),
        r matches Err(AppError::Other(m)) ==> m@ == integrity_message(
            expected@,
            hex_lower(sha256_of(data@)),
        ),
        r is Err ==> r->Err_0 is Other,
{
    let actual = sha256_hex(data);
    integrity_verdict(actual.as_str(), expected)
}

} // verus!
