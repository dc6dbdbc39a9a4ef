//! Which cached installers to delete so that the cache fits its limit.
//!
//! The earliest downloaded go first (serving a file does not touch its
//! modification time); among files of the same age, the one listed first.

use vstd::prelude::*;

use crate::path::{same_path, same_path_str};

verus! {

/// A file of the cache directory: its path, its size in bytes and its
/// modification time (nanoseconds from the Unix epoch, negative before it).
#[derive(Debug)]
pub struct CacheEntry {
    pub path: String,
    pub size: u64,
    pub modified: i128,
}

impl Clone for CacheEntry {
    fn clone(&self) -> (res: Self)
        ensures
            res == *self,
    {
        CacheEntry { path: self.path.clone(), size: self.size, modified: self.modified }
    }
}

/// Entry `i` goes before entry `j`: it is older, or as old and listed first.
pub open spec fn goes_before(es: Seq<CacheEntry>, i: int, j: int) -> bool {
    es[i].modified < es[j].modified || (es[i].modified == es[j].modified && i < j)
}

/// Total size of the entries below `k` that are not marked gone.
pub open spec fn remaining_size(es: Seq<CacheEntry>, gone: Seq<bool>, k: int) -> int
    decreases k,
{
    if k <= 0 {
        0
    } else {
        remaining_size(es, gone, k - 1) + if gone[k - 1] {
            0int
        } else {
            es[k - 1].size as int
        }
    }
}

/// How many of the entries below `k` are not marked gone.
pub open spec fn remaining_count(gone: Seq<bool>, k: int) -> int
    decreases k,
{
    if k <= 0 {
        0
    } else {
        remaining_count(gone, k - 1) + if gone[k - 1] {
            0int
        } else {
            1int
        }
    }
}

pub open spec fn none_gone(n: nat) -> Seq<bool> {
    Seq::new(n, |i: int| false)
}

pub open spec fn total_size(es: Seq<CacheEntry>) -> int {
    remaining_size(es, none_gone(es.len()), es.len() as int)
}

/// The entry that goes first among those below `k` not marked gone.
pub open spec fn first_remaining(es: Seq<CacheEntry>, gone: Seq<bool>, k: int) -> Option<int>
    decreases k,
{
    if k <= 0 {
        None
    } else {
        let b = first_remaining(es, gone, k - 1);
        if gone[k - 1] {
            b
        } else if b is None || es[k - 1].modified < es[b->0].modified {
            Some(k - 1)
        } else {
            b
        }
    }
}

/// The eviction order from a state with some entries already gone: while
/// the rest exceeds `max`, the entry that goes first leaves.
pub open spec fn plan_from(es: Seq<CacheEntry>, max: u64, gone: Seq<bool>, fuel: nat) -> Seq<int>
    decreases fuel,
{
    if fuel == 0 || remaining_size(es, gone, es.len() as int) <= max {
        Seq::empty()
    } else {
        match first_remaining(es, gone, es.len() as int) {
            None => Seq::empty(),
            Some(i) => seq![i] + plan_from(es, max, gone.update(i, true), (fuel - 1) as nat),
        }
    }
}

/// The positions of the entries to delete, in the order they go.
pub open spec fn eviction_plan(es: Seq<CacheEntry>, max: u64) -> Seq<int> {
    plan_from(es, max, none_gone(es.len()), es.len())
}

/// The entries at the given positions marked gone.
pub open spec fn marked(n: nat, idx: Seq<int>) -> Seq<bool> {
    Seq::new(n, |i: int| idx.contains(i))
}

// ---------------------------------------------------------------------------
// Lemmas
// ---------------------------------------------------------------------------

proof fn lemma_remaining_bounds(es: Seq<CacheEntry>, gone: Seq<bool>, k: int)
    requires
        0 <= k <= es.len(),
        gone.len() == es.len(),
    ensures
        0 <= remaining_size(es, gone, k),
        0 <= remaining_count(gone, k) <= k,
    decreases k,
{
    if k > 0 {
        lemma_remaining_bounds(es, gone, k - 1);
    }
}

/// Marking entry `i` gone takes its size and one from the count.
proof fn lemma_remaining_mark(es: Seq<CacheEntry>, gone: Seq<bool>, i: int, k: int)
    requires
        0 <= i < es.len(),
        0 <= k <= es.len(),
        gone.len() == es.len(),
        !gone[i],
    ensures
        remaining_size(es, gone.update(i, true), k) == remaining_size(es, gone, k) - if i < k {
            es[i].size as int
        } else {
            0
        },
        remaining_count(gone.update(i, true), k) == remaining_count(gone, k) - if i < k {
            1int
        } else {
            0
        },
    decreases k,
{
    if k > 0 {
        lemma_remaining_mark(es, gone, i, k - 1);
    }
}

/// Sizes of entries not gone: no more than what remains in all.
proof fn lemma_remaining_has(es: Seq<CacheEntry>, gone: Seq<bool>, i: int, k: int)
    requires
        0 <= i < k <= es.len(),
        gone.len() == es.len(),
        !gone[i],
    ensures
        remaining_size(es, gone, k) >= es[i].size,
        remaining_count(gone, k) >= 1,
    decreases k,
{
    lemma_remaining_bounds(es, gone, k - 1);
    if i < k - 1 {
        lemma_remaining_has(es, gone, i, k - 1);
    }
}

/// Nothing remains at all: the size left is zero.
proof fn lemma_remaining_none(es: Seq<CacheEntry>, gone: Seq<bool>, k: int)
    requires
        0 <= k <= es.len(),
        gone.len() == es.len(),
        forall|j: int| 0 <= j < k ==> gone[j],
    ensures
        remaining_size(es, gone, k) == 0,
        remaining_count(gone, k) == 0,
    decreases k,
{
    if k > 0 {
        lemma_remaining_none(es, gone, k - 1);
    }
}

proof fn lemma_first_remaining(es: Seq<CacheEntry>, gone: Seq<bool>, k: int)
    requires
        0 <= k <= es.len(),
        gone.len() == es.len(),
    ensures
        first_remaining(es, gone, k) matches Some(i) ==> {
            &&& 0 <= i < k
            &&& !gone[i]
            &&& forall|j: int|
                0 <= j < k && !gone[j] && j != i ==> #[trigger] goes_before(es, i, j)
        },
        first_remaining(es, gone, k) is None ==> forall|j: int| 0 <= j < k ==> gone[j],
    decreases k,
{
    if k > 0 {
        lemma_first_remaining(es, gone, k - 1);
        let b = first_remaining(es, gone, k - 1);
        if !gone[k - 1] {
            if b is None {
                assert forall|j: int| 0 <= j < k && !gone[j] && j != k - 1 implies #[trigger] goes_before(
                    es,
                    k - 1,
                    j,
                ) by {
                    assert(gone[j]);
                }
            } else if es[k - 1].modified < es[b->0].modified {
                assert forall|j: int| 0 <= j < k && !gone[j] && j != k - 1 implies #[trigger] goes_before(
                    es,
                    k - 1,
                    j,
                ) by {
                    if j != b->0 {
                        assert(goes_before(es, b->0, j));
                    }
                }
            } else {
                assert(goes_before(es, b->0, k - 1));
            }
        }
    }
}

proof fn lemma_none_gone(es: Seq<CacheEntry>, k: int)
    requires
        0 <= k <= es.len(),
    ensures
        remaining_count(none_gone(es.len()), k) == k,
    decreases k,
{
    if k > 0 {
        lemma_none_gone(es, k - 1);
    }
}

/// What `plan_from` yields: entries not yet gone, each going before the
/// later ones and before every entry left; the rest then fits.
proof fn lemma_plan_from(es: Seq<CacheEntry>, max: u64, gone: Seq<bool>, fuel: nat)
    requires
        gone.len() == es.len(),
        remaining_count(gone, es.len() as int) <= fuel,
    ensures
        ({
            let p = plan_from(es, max, gone, fuel);
            let after = gone_after(gone, p);
            &&& forall|a: int| 0 <= a < p.len() ==> 0 <= #[trigger] p[a] < es.len() && !gone[p[a]]
            &&& forall|a: int, b: int| 0 <= a < b < p.len() ==> goes_before(es, #[trigger] p[a], #[trigger] p[b])
            &&& forall|a: int, j: int|
                0 <= a < p.len() && 0 <= j < es.len() && !(#[trigger] after[j]) ==> goes_before(
                    es,
                    #[trigger] p[a],
                    j,
                )
            &&& after.len() == es.len()
            &&& remaining_size(es, after, es.len() as int) <= max
            &&& p.len() > 0 ==> remaining_size(es, gone_after(gone, p.drop_last()), es.len() as int) > max
        }),
    decreases fuel,
{
    let n = es.len() as int;
    let p = plan_from(es, max, gone, fuel);
    lemma_remaining_bounds(es, gone, n);
    if fuel == 0 || remaining_size(es, gone, n) <= max {
        assert(p =~= Seq::<int>::empty());
        if remaining_size(es, gone, n) > max {
            // no fuel left although something remains: impossible
            assert(remaining_count(gone, n) == 0);
            assert forall|j: int| 0 <= j < n implies gone[j] by {
                if !gone[j] {
                    lemma_remaining_has(es, gone, j, n);
                }
            }
            lemma_remaining_none(es, gone, n);
        }
        assert(gone_after(gone, p) =~= gone);
    } else {
        lemma_first_remaining(es, gone, n);
        match first_remaining(es, gone, n) {
            None => {
                lemma_remaining_none(es, gone, n);
            },
            Some(i) => {
                let g2 = gone.update(i, true);
                lemma_remaining_mark(es, gone, i, n);
                lemma_remaining_bounds(es, g2, n);
                let rest = plan_from(es, max, g2, (fuel - 1) as nat);
                lemma_plan_from(es, max, g2, (fuel - 1) as nat);
                assert(p == seq![i] + rest);
                lemma_gone_after_cons(gone, i, rest);
                let after = gone_after(gone, p);
                assert(after == gone_after(g2, rest));
                assert forall|a: int| 0 <= a < p.len() implies 0 <= #[trigger] p[a] < es.len()
                    && !gone[p[a]] by {
                    if a > 0 {
                        assert(p[a] == rest[a - 1]);
                    }
                }
                assert forall|a: int, b: int| 0 <= a < b < p.len() implies goes_before(
                    es,
                    #[trigger] p[a],
                    #[trigger] p[b],
                ) by {
                    assert(p[b] == rest[b - 1]);
                    if a > 0 {
                        assert(p[a] == rest[a - 1]);
                    } else {
                        assert(!g2[rest[b - 1]]);
                    }
                }
                assert forall|a: int, j: int|
                    0 <= a < p.len() && 0 <= j < es.len() && !(#[trigger] after[j]) implies goes_before(
                    es,
                    #[trigger] p[a],
                    j,
                ) by {
                    if a > 0 {
                        assert(p[a] == rest[a - 1]);
                    } else {
                        if j == i {
                            lemma_gone_after_monotone(g2, rest, j);
                        }
                        assert(j != i);
                        assert(!gone[j]);
                    }
                }
                if rest.len() > 0 {
                    assert(p.drop_last() == seq![i] + rest.drop_last());
                    lemma_gone_after_cons(gone, i, rest.drop_last());
                } else {
                    assert(p.drop_last() =~= Seq::<int>::empty());
                    assert(gone_after(gone, p.drop_last()) =~= gone);
                }
            },
        }
    }
}

/// `gone` with the given positions marked too.
pub open spec fn gone_after(gone: Seq<bool>, idx: Seq<int>) -> Seq<bool> {
    Seq::new(gone.len(), |j: int| gone[j] || idx.contains(j))
}

proof fn lemma_gone_after_cons(gone: Seq<bool>, i: int, rest: Seq<int>)
    requires
        0 <= i < gone.len(),
    ensures
        gone_after(gone, seq![i] + rest) == gone_after(gone.update(i, true), rest),
{
    let l = gone_after(gone, seq![i] + rest);
    let r = gone_after(gone.update(i, true), rest);
    assert forall|j: int| 0 <= j < gone.len() implies l[j] == r[j] by {
        let s = seq![i] + rest;
        if rest.contains(j) {
            let k = choose|k: int| 0 <= k < rest.len() && rest[k] == j;
            assert(s[k + 1] == j);
        }
        if s.contains(j) {
            let k = choose|k: int| 0 <= k < s.len() && s[k] == j;
            if k > 0 {
                assert(rest[k - 1] == j);
            }
        }
        if j == i {
            assert(s[0] == j);
        }
    }
    assert(l =~= r);
}

proof fn lemma_gone_after_monotone(gone: Seq<bool>, idx: Seq<int>, j: int)
    requires
        0 <= j < gone.len(),
        gone[j],
    ensures
        gone_after(gone, idx)[j],
{
}

// ---------------------------------------------------------------------------
// Laws
// ---------------------------------------------------------------------------

/// A cache within its limit loses nothing.
pub proof fn law_nothing_evicted_within_limit(es: Seq<CacheEntry>, max: u64)
    requires
        total_size(es) <= max,
    ensures
        eviction_plan(es, max).len() == 0,
{
}

/// What is left after the plan fits the limit; and the plan stops as soon
/// as it does, so no file is deleted needlessly.
pub proof fn law_eviction_fits_limit(es: Seq<CacheEntry>, max: u64)
    ensures
        remaining_size(
            es,
            marked(es.len(), eviction_plan(es, max)),
            es.len() as int,
        ) <= max,
        eviction_plan(es, max).len() > 0 ==> remaining_size(
            es,
            marked(es.len(), eviction_plan(es, max).drop_last()),
            es.len() as int,
        ) > max,
{
    let g = none_gone(es.len());
    lemma_none_gone(es, es.len() as int);
    lemma_plan_from(es, max, g, es.len());
    let p = eviction_plan(es, max);
    assert(gone_after(g, p) =~= marked(es.len(), p));
    assert(gone_after(g, p.drop_last()) =~= marked(es.len(), p.drop_last()));
}

/// The oldest go first: every deleted file goes before the files deleted
/// after it and before every file kept.
pub proof fn law_eviction_oldest_first(es: Seq<CacheEntry>, max: u64)
    ensures
        forall|a: int| 0 <= a < eviction_plan(es, max).len() ==> 0 <= #[trigger] eviction_plan(es, max)[a] < es.len(),
        forall|a: int, b: int|
            0 <= a < b < eviction_plan(es, max).len() ==> goes_before(
                es,
                #[trigger] eviction_plan(es, max)[a],
                #[trigger] eviction_plan(es, max)[b],
            ),
        forall|a: int, j: int|
            0 <= a < eviction_plan(es, max).len() && 0 <= j < es.len() && !eviction_plan(
                es,
                max,
            ).contains(j) ==> #[trigger] goes_before(es, eviction_plan(es, max)[a], j),
{
    let g = none_gone(es.len());
    lemma_none_gone(es, es.len() as int);
    lemma_plan_from(es, max, g, es.len());
    let p = eviction_plan(es, max);
    let after = gone_after(g, p);
    assert forall|a: int, j: int|
        0 <= a < p.len() && 0 <= j < es.len() && !p.contains(j) implies #[trigger] goes_before(
        es,
        p[a],
        j,
    ) by {
        assert(!after[j]);
    }
}

// ---------------------------------------------------------------------------
// Code
// ---------------------------------------------------------------------------

fn sum_sizes(es: &Vec<CacheEntry>) -> (r: u64)
    requires
        total_size(es@) <= u64::MAX,
    ensures
        r == total_size(es@),
{
    let ghost g = none_gone(es@.len());
    let mut total: u64 = 0;
    let mut i: usize = 0;
    while i < es.len()
        invariant
            0 <= i <= es.len(),
            g == none_gone(es@.len()),
            total == remaining_size(es@, g, i as int),
            total_size(es@) <= u64::MAX,
        decreases es.len() - i,
    {
        proof {
            lemma_remaining_prefix(es@, g, i as int + 1, es.len() as int);
        }
        total = total + es[i].size;
        i = i + 1;
    }
    total
}

proof fn lemma_remaining_prefix(es: Seq<CacheEntry>, gone: Seq<bool>, k: int, n: int)
    requires
        0 <= k <= n <= es.len(),
        gone.len() == es.len(),
    ensures
        remaining_size(es, gone, k) <= remaining_size(es, gone, n),
    decreases n - k,
{
    if k < n {
        lemma_remaining_prefix(es, gone, k, n - 1);
    }
}

fn first_remaining_exec(es: &Vec<CacheEntry>, gone: &Vec<bool>) -> (r: Option<usize>)
    requires
        gone.len() == es.len(),
    ensures
        r matches Some(i) ==> first_remaining(es@, gone@, es.len() as int) == Some(i as int),
        r is None ==> first_remaining(es@, gone@, es.len() as int) is None,
{
    let mut best: Option<usize> = None;
    let mut k: usize = 0;
    while k < es.len()
        invariant
            0 <= k <= es.len(),
            gone.len() == es.len(),
            best matches Some(b) ==> first_remaining(es@, gone@, k as int) == Some(b as int),
            best is None ==> first_remaining(es@, gone@, k as int) is None,
        decreases es.len() - k,
    {
        proof {
            lemma_first_remaining(es@, gone@, k as int);
        }
        if !gone[k] {
            match best {
                None => {
                    best = Some(k);
                },
                Some(b) => {
                    if es[k].modified < es[b].modified {
                        best = Some(k);
                    }
                },
            }
        }
        k = k + 1;
    }
    best
}

/// The paths to delete so that the rest of the cache fits in `max_bytes`,
/// oldest first.
pub fn plan_eviction(entries: Vec<CacheEntry>, max_bytes: u64) -> (victims: Vec<String>)
    requires
        total_size(entries@) <= u64::MAX,
    ensures
        victims@.len() == eviction_plan(entries@, max_bytes).len(),
        forall|a: int|
            0 <= a < victims@.len() ==> #[trigger] victims@[a] == entries@[eviction_plan(
                entries@,
                max_bytes,
            )[a]].path,
{
    let n = entries.len();
    let mut total = sum_sizes(&entries);
    let mut gone: Vec<bool> = Vec::new();
    let mut i: usize = 0;
    while i < n
        invariant
            0 <= i <= n,
            n == entries.len(),
            gone@ == Seq::new(i as nat, |j: int| false),
        decreases n - i,
    {
        gone.push(false);
        i = i + 1;
    }
    let ghost es = entries@;
    let ghost full = eviction_plan(es, max_bytes);
    let ghost taken: Seq<int> = Seq::empty();
    let mut victims: Vec<String> = Vec::new();
    proof {
        assert(gone@ =~= none_gone(es.len()));
        lemma_none_gone(es, n as int);
    }
    while total > max_bytes
        invariant
            es == entries@,
            n == es.len(),
            gone.len() == n,
            full == eviction_plan(es, max_bytes),
            total == remaining_size(es, gone@, n as int),
            remaining_count(gone@, n as int) + taken.len() == n,
            full == taken + plan_from(es, max_bytes, gone@, (n - taken.len()) as nat),
            victims@.len() == taken.len(),
            forall|a: int| 0 <= a < taken.len() ==> 0 <= #[trigger] taken[a] < n
                && victims@[a] == es[taken[a]].path,
        decreases remaining_count(gone@, n as int),
    {
        proof {
            lemma_remaining_bounds(es, gone@, n as int);
        }
        let found = first_remaining_exec(&entries, &gone);
        let i = match found {
            Some(i) => i,
            None => {
                proof {
                    lemma_first_remaining(es, gone@, n as int);
                    lemma_remaining_none(es, gone@, n as int);
                }
                return victims;
            },
        };
        proof {
            lemma_first_remaining(es, gone@, n as int);
            lemma_remaining_has(es, gone@, i as int, n as int);
            lemma_remaining_mark(es, gone@, i as int, n as int);
            let fuel = (n - taken.len()) as nat;
            assert(fuel > 0);
            assert(plan_from(es, max_bytes, gone@, fuel) == seq![i as int] + plan_from(
                es,
                max_bytes,
                gone@.update(i as int, true),
                (fuel - 1) as nat,
            ));
            assert(full == taken.push(i as int) + plan_from(
                es,
                max_bytes,
                gone@.update(i as int, true),
                (fuel - 1) as nat,
            ));
            taken = taken.push(i as int);
        }
        total = total - entries[i].size;
        gone.set(i, true);
        victims.push(entries[i].path.clone());
    }
    proof {
        let fuel = (n - taken.len()) as nat;
        assert(plan_from(es, max_bytes, gone@, fuel) =~= Seq::<int>::empty());
        assert(full =~= taken);
    }
    victims
}

// ---------------------------------------------------------------------------
// After a download
// ---------------------------------------------------------------------------

pub open spec fn sum_of(es: Seq<CacheEntry>) -> int
    decreases es.len(),
{
    if es.len() == 0 {
        0
    } else {
        sum_of(es.drop_last()) + es.last().size
    }
}

/// The entries whose path is not `keep` (compared by components), in
/// their order.
pub open spec fn without_path(es: Seq<CacheEntry>, keep: Seq<char>) -> Seq<CacheEntry>
    decreases es.len(),
{
    if es.len() == 0 {
        es
    } else if same_path(es.last().path@, keep) {
        without_path(es.drop_last(), keep)
    } else {
        without_path(es.drop_last(), keep).push(es.last())
    }
}

/// Total size of the entries whose path is `keep` (compared by components).
pub open spec fn size_at_path(es: Seq<CacheEntry>, keep: Seq<char>) -> int
    decreases es.len(),
{
    if es.len() == 0 {
        0
    } else {
        size_at_path(es.drop_last(), keep) + if same_path(es.last().path@, keep) {
            es.last().size as int
        } else {
            0
        }
    }
}

/// What a collection after a download does: the files to delete, and, when
/// the file just published (with the downloads still in flight) exceeds the
/// limit alone, the bytes it takes.
#[derive(Debug)]
pub struct GcPlan {
    pub victims: Vec<String>,
    pub oversized: Option<u64>,
}

pub open spec fn gc_kept(es: Seq<CacheEntry>, keep: Seq<char>, in_flight: u64) -> int {
    size_at_path(es, keep) + in_flight
}

pub open spec fn gc_budget(es: Seq<CacheEntry>, keep: Seq<char>, in_flight: u64, max: u64) -> u64 {
    if gc_kept(es, keep, in_flight) >= max {
        0
    } else {
        (max - gc_kept(es, keep, in_flight)) as u64
    }
}

proof fn lemma_sum_split(es: Seq<CacheEntry>, keep: Seq<char>)
    ensures
        sum_of(es) == sum_of(without_path(es, keep)) + size_at_path(es, keep),
        0 <= size_at_path(es, keep),
        0 <= sum_of(without_path(es, keep)),
    decreases es.len(),
{
    if es.len() > 0 {
        lemma_sum_split(es.drop_last(), keep);
        let r = without_path(es.drop_last(), keep);
        if !same_path(es.last().path@, keep) {
            assert(r.push(es.last()).drop_last() =~= r);
        }
    }
}

proof fn lemma_sum_take(es: Seq<CacheEntry>, k: int)
    requires
        0 <= k <= es.len(),
    ensures
        sum_of(es.take(k)) <= sum_of(es),
        0 <= sum_of(es.take(k)),
    decreases es.len() - k,
{
    if k < es.len() {
        lemma_sum_take(es, k + 1);
        assert(es.take(k + 1).drop_last() =~= es.take(k));
    } else {
        assert(es.take(k) =~= es);
    }
    lemma_sum_nonneg(es.take(k));
}

proof fn lemma_sum_nonneg(es: Seq<CacheEntry>)
    ensures
        0 <= sum_of(es),
    decreases es.len(),
{
    if es.len() > 0 {
        lemma_sum_nonneg(es.drop_last());
    }
}

proof fn lemma_total_is_sum(es: Seq<CacheEntry>, k: int)
    requires
        0 <= k <= es.len(),
    ensures
        remaining_size(es, none_gone(es.len()), k) == sum_of(es.take(k)),
    decreases k,
{
    if k > 0 {
        lemma_total_is_sum(es, k - 1);
        assert(es.take(k).drop_last() =~= es.take(k - 1));
    } else {
        assert(es.take(0) =~= Seq::<CacheEntry>::empty());
    }
}

proof fn lemma_without_path_paths(es: Seq<CacheEntry>, keep: Seq<char>)
    ensures
        forall|a: int| 0 <= a < without_path(es, keep).len() ==> !same_path(
            (#[trigger] without_path(es, keep)[a]).path@,
            keep,
        ),
    decreases es.len(),
{
    if es.len() > 0 {
        lemma_without_path_paths(es.drop_last(), keep);
        let r = without_path(es.drop_last(), keep);
        if !same_path(es.last().path@, keep) {
            assert forall|a: int| 0 <= a < r.push(es.last()).len() implies !same_path(
                (#[trigger] r.push(es.last())[a]).path@,
                keep,
            ) by {
                if a < r.len() {
                    assert(r.push(es.last())[a] == r[a]);
                }
            }
        }
    }
}

/// The file just published is never among the files to delete.
pub proof fn law_gc_spares_kept_file(es: Seq<CacheEntry>, keep: Seq<char>, in_flight: u64, max: u64)
    ensures
        forall|a: int|
            0 <= a < eviction_plan(without_path(es, keep), gc_budget(es, keep, in_flight, max)).len()
                ==> !same_path(
                (#[trigger] without_path(es, keep)[eviction_plan(
                    without_path(es, keep),
                    gc_budget(es, keep, in_flight, max),
                )[a]]).path@,
                keep,
            ),
{
    let c = without_path(es, keep);
    let b = gc_budget(es, keep, in_flight, max);
    law_eviction_oldest_first(c, b);
    lemma_without_path_paths(es, keep);
    assert forall|a: int| 0 <= a < eviction_plan(c, b).len() implies !same_path(
        (#[trigger] c[eviction_plan(c, b)[a]]).path@,
        keep,
    ) by {
        assert(0 <= eviction_plan(c, b)[a] < c.len());
    }
}

/// The collection after `keep` was published, with `in_flight` bytes of
/// downloads still being written: those count against the limit but are
/// not deleted, and neither is `keep`, or a limit smaller than the sensor
/// would delete the file the server has just promised to a host.
pub fn plan_gc(entries: Vec<CacheEntry>, keep: &str, in_flight: u64, max_bytes: u64) -> (r: GcPlan)
    requires
        sum_of(entries@) + in_flight <= u64::MAX,
    ensures
        ({
            let c = without_path(entries@, keep@);
            let plan = eviction_plan(c, gc_budget(entries@, keep@, in_flight, max_bytes));
            &&& r.victims@.len() == plan.len()
            &&& forall|a: int| 0 <= a < plan.len() ==> #[trigger] r.victims@[a] == c[plan[a]].path
        }),
        r.oversized == (if sum_of(entries@) + in_flight > max_bytes && gc_kept(
            entries@,
            keep@,
            in_flight,
        ) > max_bytes {
            Some(gc_kept(entries@, keep@, in_flight) as u64)
        } else {
            None
        }),
{
    let ghost es = entries@;
    proof {
        lemma_sum_split(es, keep@);
        lemma_total_is_sum(es, es.len() as int);
        assert(es.take(es.len() as int) =~= es);
    }
    let mut candidates: Vec<CacheEntry> = Vec::new();
    let mut kept_files: u64 = 0;
    let mut i: usize = 0;
    while i < entries.len()
        invariant
            0 <= i <= entries.len(),
            es == entries@,
            sum_of(es) + in_flight <= u64::MAX,
            candidates@ == without_path(es.take(i as int), keep@),
            kept_files == size_at_path(es.take(i as int), keep@),
        decreases entries.len() - i,
    {
        proof {
            assert(es.take(i + 1).drop_last() =~= es.take(i as int));
            lemma_sum_split(es.take(i + 1), keep@);
            lemma_sum_take(es, i + 1);
        }
        if same_path_str(entries[i].path.as_str(), keep) {
            kept_files = kept_files + entries[i].size;
        } else {
            candidates.push(entries[i].clone());
        }
        i = i + 1;
    }
    proof {
        assert(es.take(entries.len() as int) =~= es);
        lemma_total_is_sum(candidates@, candidates@.len() as int);
        assert(candidates@.take(candidates@.len() as int) =~= candidates@);
    }
    let total = sum_of_entries(&entries) + in_flight;
    let kept = kept_files + in_flight;
    let oversized = if total > max_bytes && kept > max_bytes {
        Some(kept)
    } else {
        None
    };
    let budget = max_bytes.saturating_sub(kept);
    let victims = plan_eviction(candidates, budget);
    GcPlan { victims, oversized }
}

fn sum_of_entries(es: &Vec<CacheEntry>) -> (r: u64)
    requires
        sum_of(es@) <= u64::MAX,
    ensures
        r == sum_of(es@),
{
    proof {
        lemma_total_is_sum(es@, es@.len() as int);
        assert(es@.take(es@.len() as int) =~= es@);
    }
    sum_sizes(es)
}

} // verus!
