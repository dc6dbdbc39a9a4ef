//! The sensor list of each platform, kept for a while.
//!
//! Freshness here is the main guard against versions freezing: matching
//! always runs against the current list, not against whatever once landed in
//! the cache. The caller asks `lookup` first; only on `Lookup::Fetch` does it
//! call the API, and it hands the outcome to `record`. Times are milliseconds
//! on one monotonic clock.

use vstd::prelude::*;

use crate::error::AppError;
use crate::text::{concat3, owned, str_eq};

use super::types::{clone_metas, same_metas, SensorMeta};

verus! {

/// Minimum pause between attempts after a failure. Without it, every `/cb`
/// request would pay the full network timeout while the API is unreachable.
pub const RETRY_AFTER_FAILURE_MS: u64 = 60_000;

pub struct Snapshot {
    pub metas: Vec<SensorMeta>,
    pub fetched_at: u64,
}

pub struct SnapshotView {
    pub metas: Seq<SensorMeta>,
    pub fetched_at: u64,
}

/// What is known of one platform: its last good list, and when the last
/// request for it failed. The two are kept apart on purpose: on a cold start
/// there is no list yet, and that is exactly when the pause matters most.
pub struct EntryView {
    pub snapshot: Option<SnapshotView>,
    pub failed_at: Option<u64>,
}

/// What to do with a request for a platform's list.
pub enum Decision {
    /// The list is younger than the time to live.
    Fresh,
    /// The last request failed less than the retry pause ago.
    Paused,
    /// Ask the API.
    Fetch,
}

/// The answer of `lookup`.
#[derive(Debug)]
pub enum Lookup {
    Serve(Vec<SensorMeta>),
    Refuse(AppError),
    Fetch,
}

/// Time from `then` to `now`; zero when the clock reads earlier.
pub open spec fn elapsed(now: u64, then: u64) -> int {
    if now >= then {
        now - then
    } else {
        0
    }
}

pub open spec fn decide(e: EntryView, now: u64, ttl: u64) -> Decision {
    if e.snapshot matches Some(s) && elapsed(now, s.fetched_at) < ttl {
        Decision::Fresh
    } else if e.failed_at matches Some(f) && elapsed(now, f) < RETRY_AFTER_FAILURE_MS {
        Decision::Paused
    } else {
        Decision::Fetch
    }
}

/// What a request for a platform's list gets, in view.
pub enum Answer {
    /// This list, without asking the API.
    Serve(Seq<SensorMeta>),
    /// An error, without asking the API.
    Refuse,
    /// Ask the API.
    Fetch,
}

/// A fresh list is served; during the pause after a failure the old list
/// is served, or the request refused when there is none; otherwise the API
/// is asked.
pub open spec fn answer(e: EntryView, now: u64, ttl: u64) -> Answer {
    match decide(e, now, ttl) {
        Decision::Fresh => Answer::Serve(e.snapshot.unwrap().metas),
        Decision::Paused => match e.snapshot {
            Some(s) => Answer::Serve(s.metas),
            None => Answer::Refuse,
        },
        Decision::Fetch => Answer::Fetch,
    }
}

/// What is known of a platform nobody asked for yet.
pub open spec fn unknown_entry() -> EntryView {
    EntryView { snapshot: None, failed_at: None }
}

/// A platform after a successful request: the new list, no failure.
pub open spec fn after_success(metas: Seq<SensorMeta>, now: u64) -> EntryView {
    EntryView { snapshot: Some(SnapshotView { metas, fetched_at: now }), failed_at: None }
}

/// A platform after a failed request: the old list, if any, stays.
pub open spec fn after_failure(e: EntryView, now: u64) -> EntryView {
    EntryView { snapshot: e.snapshot, failed_at: Some(now) }
}

pub open spec fn refused_message(platform: Seq<char>) -> Seq<char> {
    "sensor list for '"@ + platform
        + "' unavailable; the last API call failed and the retry window has not elapsed"@
}

pub open spec fn snapshot_view(s: Option<Snapshot>) -> Option<SnapshotView> {
    match s {
        Some(s) => Some(SnapshotView { metas: s.metas@, fetched_at: s.fetched_at }),
        None => None,
    }
}

/// The first position at or after `k` that holds `p`.
pub open spec fn position(platforms: Seq<String>, p: Seq<char>, k: int) -> Option<int>
    decreases platforms.len() - k,
{
    if k < 0 || k >= platforms.len() {
        None
    } else if platforms[k]@ == p {
        Some(k)
    } else {
        position(platforms, p, k + 1)
    }
}

proof fn lemma_position(platforms: Seq<String>, p: Seq<char>, k: int)
    requires
        0 <= k,
    ensures
        position(platforms, p, k) matches Some(j) ==> k <= j < platforms.len()
            && platforms[j]@ == p,
        position(platforms, p, k) is None ==> forall|m: int|
            k <= m < platforms.len() ==> #[trigger] platforms[m]@ != p,
    decreases platforms.len() - k,
{
    if k < platforms.len() && platforms[k]@ != p {
        lemma_position(platforms, p, k + 1);
    }
}

proof fn lemma_position_push(platforms: Seq<String>, x: String, p: Seq<char>, k: int)
    requires
        0 <= k <= platforms.len(),
    ensures
        position(platforms, p, k) is Some ==> position(platforms.push(x), p, k) == position(
            platforms,
            p,
            k,
        ),
        position(platforms, p, k) is None ==> position(platforms.push(x), p, k) == (if x@ == p {
            Some(platforms.len() as int)
        } else {
            None
        }),
    decreases platforms.len() - k,
{
    let q = platforms.push(x);
    if k < platforms.len() {
        assert(q[k] == platforms[k]);
        if platforms[k]@ != p {
            lemma_position_push(platforms, x, p, k + 1);
        }
    } else {
        assert(q[k] == x);
        assert(position(q, p, k + 1) is None);
    }
}

/// The sensor-list cache. `ttl` is the time to live of a list.
pub struct MetadataCache {
    platforms: Vec<String>,
    snapshots: Vec<Option<Snapshot>>,
    failures: Vec<Option<u64>>,
    ttl: u64,
}

impl MetadataCache {
    /// The three lists run in step, and no platform occurs twice.
    pub closed spec fn wf(self) -> bool {
        &&& self.platforms.len() == self.snapshots.len()
        &&& self.platforms.len() == self.failures.len()
        &&& forall|a: int, b: int|
            0 <= a < b < self.platforms.len() ==> #[trigger] self.platforms@[a]@
                != #[trigger] self.platforms@[b]@
    }

    pub closed spec fn ttl_ms(self) -> u64 {
        self.ttl
    }

    /// What is known of platform `p`.
    pub closed spec fn entry(self, p: Seq<char>) -> EntryView {
        match position(self.platforms@, p, 0) {
            Some(i) => EntryView {
                snapshot: snapshot_view(self.snapshots@[i]),
                failed_at: self.failures@[i],
            },
            None => EntryView { snapshot: None, failed_at: None },
        }
    }

    pub fn new(ttl_ms: u64) -> (r: Self)
        ensures
            r.wf(),
            r.ttl_ms() == ttl_ms,
            forall|p: Seq<char>| (#[trigger] r.entry(p)) == unknown_entry(),
    {
        MetadataCache {
            platforms: Vec::new(),
            snapshots: Vec::new(),
            failures: Vec::new(),
            ttl: ttl_ms,
        }
    }

    pub fn ttl(&self) -> (r: u64)
        ensures
            r == self.ttl_ms(),
    {
        self.ttl
    }

    fn find(&self, platform: &str) -> (r: Option<usize>)
        requires
            self.wf(),
        ensures
            r matches Some(i) ==> position(self.platforms@, platform@, 0) == Some(i as int)
                && i < self.platforms.len(),
            r is None ==> position(self.platforms@, platform@, 0) is None,
    {
        let mut i: usize = 0;
        while i < self.platforms.len()
            invariant
                0 <= i <= self.platforms.len(),
                position(self.platforms@, platform@, 0) == position(
                    self.platforms@,
                    platform@,
                    i as int,
                ),
            decreases self.platforms.len() - i,
        {
            if str_eq(self.platforms[i].as_str(), platform) {
                return Some(i);
            }
            i = i + 1;
        }
        None
    }

    /// What to do with a request for `platform`'s list at `now`: serve a
    /// fresh list; while the retry pause runs, serve the old list or refuse
    /// when there is none; otherwise ask the API.
    pub fn lookup(&self, platform: &str, now: u64) -> (r: Lookup)
        requires
            self.wf(),
        ensures
            match answer(self.entry(platform@), now, self.ttl_ms()) {
                Answer::Serve(m) => r is Serve && same_metas(r->Serve_0@, m),
                Answer::Refuse => r matches Lookup::Refuse(AppError::Other(m)) && m@
                    == refused_message(platform@),
                Answer::Fetch => r is Fetch,
            },
    {
        let found = self.find(platform);
        let i = match found {
            Some(i) => i,
            None => {
                return Lookup::Fetch;
            },
        };
        if let Some(s) = &self.snapshots[i] {
            if now.saturating_sub(s.fetched_at) < self.ttl {
                return Lookup::Serve(clone_metas(&s.metas));
            }
        }
        if let Some(failed_at) = self.failures[i] {
            if now.saturating_sub(failed_at) < RETRY_AFTER_FAILURE_MS {
                return match &self.snapshots[i] {
                    Some(s) => Lookup::Serve(clone_metas(&s.metas)),
                    None => {
                        let head = concat3("sensor list for '", platform, "' unavailable; ");
                        let msg = concat3(
                            head.as_str(),
                            "the last API call failed and the retry window ",
                            "has not elapsed",
                        );
                        proof {
                            reveal_strlit("sensor list for '");
                            reveal_strlit("' unavailable; ");
                            reveal_strlit("the last API call failed and the retry window ");
                            reveal_strlit("has not elapsed");
                            reveal_strlit(
                                "' unavailable; the last API call failed and the retry window has not elapsed",
                            );
                            assert(msg@ =~= refused_message(platform@));
                        }
                        Lookup::Refuse(AppError::Other(msg))
                    },
                };
            }
        }
        Lookup::Fetch
    }

    /// Position of `platform`, added when it was not there yet.
    fn slot(&mut self, platform: &str) -> (i: usize)
        requires
            old(self).wf(),
        ensures
            final(self).wf(),
            final(self).ttl == old(self).ttl,
            i < final(self).platforms.len(),
            position(final(self).platforms@, platform@, 0) == Some(i as int),
            forall|q: Seq<char>| (#[trigger] final(self).entry(q)) == old(self).entry(q),
    {
        match self.find(platform) {
            Some(i) => i,
            None => {
                let ghost before = *self;
                let n = self.platforms.len();
                self.platforms.push(owned(platform));
                self.snapshots.push(None);
                self.failures.push(None);
                proof {
                    assert(self.platforms@ == before.platforms@.push(self.platforms@[n as int]));
                    lemma_position(before.platforms@, platform@, 0);
                    assert(self.platforms@[n as int]@ == platform@);
                    assert forall|a: int, b: int|
                        0 <= a < b < self.platforms.len() implies #[trigger] self.platforms@[a]@
                            != #[trigger] self.platforms@[b]@ by {
                        if b < n {
                            assert(self.platforms@[a] == before.platforms@[a]);
                            assert(self.platforms@[b] == before.platforms@[b]);
                        } else {
                            assert(self.platforms@[a] == before.platforms@[a]);
                        }
                    }
                    lemma_position_push(before.platforms@, self.platforms@[n as int], platform@, 0);
                    assert forall|q: Seq<char>| (#[trigger] self.entry(q)) == before.entry(q) by {
                        lemma_position_push(before.platforms@, self.platforms@[n as int], q, 0);
                        lemma_position(before.platforms@, q, 0);
                        if position(before.platforms@, q, 0) is Some {
                            let j = position(before.platforms@, q, 0)->0;
                            assert(self.snapshots@[j] == before.snapshots@[j]);
                            assert(self.failures@[j] == before.failures@[j]);
                        }
                    }
                }
                n
            },
        }
    }

    /// Takes in the outcome of the API request for `platform`, made after
    /// `lookup` said `Fetch`, at `now`. A success replaces the list and
    /// clears the failure; a failure is remembered, and the old list, if
    /// any, is served instead of the error.
    pub fn record(
        &mut self,
        platform: &str,
        now: u64,
        outcome: Result<Vec<SensorMeta>, AppError>,
    ) -> (r: Result<Vec<SensorMeta>, AppError>)
        requires
            old(self).wf(),
        ensures
            final(self).wf(),
            final(self).ttl_ms() == old(self).ttl_ms(),
            forall|q: Seq<char>| q != platform@ ==> (#[trigger] final(self).entry(q)) == old(self).entry(q),
            match outcome {
                Ok(metas) => final(self).entry(platform@) == after_success(metas@, now)
                    && r is Ok && same_metas(r->Ok_0@, metas@),
                Err(e) => final(self).entry(platform@) == after_failure(
                    old(self).entry(platform@),
                    now,
                ) && match old(self).entry(platform@).snapshot {
                    Some(s) => r is Ok && same_metas(r->Ok_0@, s.metas),
                    None => r == Err::<Vec<SensorMeta>, AppError>(e),
                },
            },
    {
        let ghost before = *self;
        let i = self.slot(platform);
        let ghost mid = *self;
        proof {
            lemma_position(mid.platforms@, platform@, 0);
        }
        match outcome {
            Ok(metas) => {
                let result = clone_metas(&metas);
                self.snapshots.set(i, Some(Snapshot { metas, fetched_at: now }));
                self.failures.set(i, None);
                proof {
                    assert forall|q: Seq<char>| q != platform@ implies (#[trigger] self.entry(q))
                        == before.entry(q) by {
                        assert(mid.entry(q) == before.entry(q));
                        lemma_position(mid.platforms@, q, 0);
                    }
                }
                Ok(result)
            },
            Err(e) => {
                self.failures.set(i, Some(now));
                proof {
                    assert(mid.entry(platform@) == before.entry(platform@));
                    assert forall|q: Seq<char>| q != platform@ implies (#[trigger] self.entry(q))
                        == before.entry(q) by {
                        assert(mid.entry(q) == before.entry(q));
                        lemma_position(mid.platforms@, q, 0);
                    }
                }
                match &self.snapshots[i] {
                    Some(s) => Ok(clone_metas(&s.metas)),
                    None => Err(e),
                }
            },
        }
    }
}

// ---------------------------------------------------------------------------
// Laws: what `lookup` answers after `record`
// ---------------------------------------------------------------------------

/// After a successful request for `p` stored `metas` at `stored_at`,
/// `lookup` serves `metas` without asking the API again at every time
/// younger than the time to live; once that has passed it asks again.
pub proof fn law_stored_list_is_served_while_fresh(
    c: MetadataCache,
    p: Seq<char>,
    metas: Seq<SensorMeta>,
    stored_at: u64,
    now: u64,
)
    requires
        c.entry(p) == after_success(metas, stored_at),
    ensures
        elapsed(now, stored_at) < c.ttl_ms() ==> answer(c.entry(p), now, c.ttl_ms())
            == Answer::Serve(metas),
        elapsed(now, stored_at) >= c.ttl_ms() ==> answer(c.entry(p), now, c.ttl_ms())
            == Answer::Fetch,
{
}

/// Platforms are cached independently: a `record` for `p` leaves what
/// `lookup` answers for any other platform `q` as it was; in particular a
/// platform never asked for is still fetched.
pub proof fn law_platforms_are_independent(
    before: MetadataCache,
    after: MetadataCache,
    p: Seq<char>,
    q: Seq<char>,
    now: u64,
)
    requires
        q != p,
        after.ttl_ms() == before.ttl_ms(),
        forall|x: Seq<char>| x != p ==> (#[trigger] after.entry(x)) == before.entry(x),
    ensures
        answer(after.entry(q), now, after.ttl_ms()) == answer(before.entry(q), now, before.ttl_ms()),
        before.entry(q) == unknown_entry() ==> answer(after.entry(q), now, after.ttl_ms())
            == Answer::Fetch,
{
    assert(after.entry(q) == before.entry(q));
}

/// When a refresh of a stale list fails at `failed_at`, the stale list is
/// what `lookup` serves, without asking the API, at every time within the
/// retry pause.
pub proof fn law_failed_refresh_serves_the_stale_list(
    c: MetadataCache,
    p: Seq<char>,
    metas: Seq<SensorMeta>,
    stored_at: u64,
    failed_at: u64,
    now: u64,
)
    requires
        c.entry(p) == after_failure(after_success(metas, stored_at), failed_at),
        elapsed(now, failed_at) < RETRY_AFTER_FAILURE_MS,
    ensures
        answer(c.entry(p), now, c.ttl_ms()) == Answer::Serve(metas),
{
}

/// When the very first request for `p` failed, `lookup` refuses without
/// asking the API at every time within the retry pause.
pub proof fn law_failure_without_a_list_is_refused(
    c: MetadataCache,
    p: Seq<char>,
    failed_at: u64,
    now: u64,
)
    requires
        c.entry(p) == after_failure(unknown_entry(), failed_at),
        elapsed(now, failed_at) < RETRY_AFTER_FAILURE_MS,
    ensures
        answer(c.entry(p), now, c.ttl_ms()) == Answer::Refuse,
{
}

/// Once the retry pause has passed, and the list, if any, is stale, the
/// API is asked again.
pub proof fn law_retry_after_pause(
    c: MetadataCache,
    p: Seq<char>,
    e: EntryView,
    failed_at: u64,
    now: u64,
)
    requires
        c.entry(p) == after_failure(e, failed_at),
        elapsed(now, failed_at) >= RETRY_AFTER_FAILURE_MS,
        e.snapshot matches Some(s) ==> elapsed(now, s.fetched_at) >= c.ttl_ms(),
    ensures
        answer(c.entry(p), now, c.ttl_ms()) == Answer::Fetch,
{
}

} // verus!
