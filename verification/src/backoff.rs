//! Per-share exponential backoff of failed authentication attempts.
//!
//! Each share (or unknown token id) that fails to authenticate waits before
//! its next attempt: 100 ms after the first failure, doubling with each
//! further failure up to 10 s. A share's record resets after five idle
//! minutes, is forgotten after ten, and the table holds at most 4096 shares,
//! evicting the one idle longest. Time is a count of nanoseconds on a
//! monotonic clock.

use std::time::Instant;
use vstd::prelude::*;

use crate::bytes::bytes_eq;
use crate::clock::{instant_now, nanos_since};

verus! {

broadcast use vstd::utf8::group_utf8_lib;

/// Delay after the first failure: 100 ms.
pub const INITIAL_DELAY_NANOS: u64 = 100_000_000;
/// Longest delay: 10 s.
pub const MAX_DELAY_NANOS: u64 = 10_000_000_000;
/// A share idle this long starts over: 5 min.
pub const RESET_AFTER_NANOS: u64 = 300_000_000_000;
/// A share idle longer than this is forgotten: 10 min.
pub const GC_AFTER_NANOS: u64 = 600_000_000_000;
/// Most shares the table tracks.
pub const MAX_BACKOFF_ENTRIES: usize = 4096;

/// What the table remembers of one share.
#[derive(Debug, Clone, Copy, PartialEq, Eq, Structural)]
pub struct BackoffEntry {
    pub fails: u32,
    pub last_attempt_at: u64,
    pub blocked_until: u64,
}

/// The outcome of recording a failure.
#[derive(Debug, Clone, Copy, PartialEq, Eq, Structural)]
pub struct AuthBackoffFailure {
    pub fails: u32,
    pub next_delay_nanos: u64,
}

/// Nanoseconds from `earlier` to `now`, zero if `earlier` is later.
pub open spec fn elapsed(now: u64, earlier: u64) -> u64 {
    if now >= earlier {
        (now - earlier) as u64
    } else {
        0
    }
}

/// `a + b`, held at the maximum.
pub open spec fn sat_add(a: u64, b: u64) -> u64 {
    if a + b > u64::MAX {
        u64::MAX
    } else {
        (a + b) as u64
    }
}

/// Whether an entry has been used within the forgetting window.
pub open spec fn is_recent(e: BackoffEntry, now: u64) -> bool {
    elapsed(now, e.last_attempt_at) <= GC_AFTER_NANOS
}

/// The table without the entries idle past the forgetting window.
pub open spec fn recent_entries(m: Map<Seq<char>, BackoffEntry>, now: u64) -> Map<Seq<char>, BackoffEntry> {
    m.restrict(Set::new(|k: Seq<char>| m.contains_key(k) && is_recent(m[k], now)))
}

/// Two to the power `n`, for small `n`.
pub open spec fn pow2(n: nat) -> nat
    decreases n,
{
    if n == 0 {
        1
    } else {
        2 * pow2((n - 1) as nat)
    }
}

/// The delay after the `fails`-th failure: 100 ms doubled `fails - 1` times
/// (at most seven times), capped at 10 s.
pub open spec fn failure_delay(fails: u32) -> u64 {
    let shift: nat = if fails == 0 {
        0
    } else if fails - 1 > 7 {
        7
    } else {
        (fails - 1) as nat
    };
    let d = INITIAL_DELAY_NANOS * pow2(shift);
    if d > MAX_DELAY_NANOS {
        MAX_DELAY_NANOS
    } else {
        d as u64
    }
}

/// `after` is `before` without one entry that had been idle longest.
pub open spec fn evicts_oldest(
    before: Map<Seq<char>, BackoffEntry>,
    after: Map<Seq<char>, BackoffEntry>,
) -> bool {
    exists|k: Seq<char>|
        #![trigger before.remove(k)]
        before.contains_key(k) && after == before.remove(k) && forall|j: Seq<char>|
            before.contains_key(j) ==> before[k].last_attempt_at <= #[trigger] before[j].last_attempt_at
}

/// A share's entry, if the table tracks it.
pub open spec fn lookup(m: Map<Seq<char>, BackoffEntry>, share: Seq<char>) -> Option<BackoffEntry> {
    if m.contains_key(share) {
        Some(m[share])
    } else {
        None
    }
}

/// Before a failure is recorded: a new share finding the table full evicts
/// the share idle longest; otherwise the table stays.
pub open spec fn eviction_step(
    r: Map<Seq<char>, BackoffEntry>,
    share: Seq<char>,
    mid: Map<Seq<char>, BackoffEntry>,
) -> bool {
    if !r.contains_key(share) && r.len() >= MAX_BACKOFF_ENTRIES {
        evicts_oldest(r, mid)
    } else {
        mid == r
    }
}

/// What `record_failure` does to the table: forget idle shares, make room
/// for a new share, then count the failure in the share's entry.
pub open spec fn spec_record_failure(
    before: Map<Seq<char>, BackoffEntry>,
    share: Seq<char>,
    now: u64,
    after: Map<Seq<char>, BackoffEntry>,
) -> bool {
    exists|mid: Map<Seq<char>, BackoffEntry>|
        #[trigger] eviction_step(recent_entries(before, now), share, mid) && after == mid.insert(
            share,
            failed_entry(lookup(mid, share), now),
        )
}

/// What `delay_before_next_attempt` computes: the table after forgetting and
/// resetting, and the nanoseconds still to wait.
pub open spec fn spec_delay(m: Map<Seq<char>, BackoffEntry>, share: Seq<char>, now: u64) -> (
    Map<Seq<char>, BackoffEntry>,
    u64,
) {
    let r = recent_entries(m, now);
    if !r.contains_key(share) {
        (r, 0)
    } else if elapsed(now, r[share].last_attempt_at) >= RESET_AFTER_NANOS {
        (r.remove(share), 0)
    } else {
        (r, elapsed(r[share].blocked_until, now))
    }
}

/// The entry a failure at `now` leaves for a share whose earlier entry, if
/// any, is `prior`.
pub open spec fn failed_entry(prior: Option<BackoffEntry>, now: u64) -> BackoffEntry {
    let before = match prior {
        Some(e) => e.fails,
        None => 0,
    };
    let fails: u32 = if before == u32::MAX {
        before
    } else {
        (before + 1) as u32
    };
    BackoffEntry {
        fails,
        last_attempt_at: now,
        blocked_until: sat_add(now, failure_delay(fails)),
    }
}

/// Every entry counts at least one failure, is blocked until its last
/// failure's delay has passed, and was last used no later than `latest`.
pub open spec fn table_consistent(m: Map<Seq<char>, BackoffEntry>, latest: u64) -> bool {
    forall|k: Seq<char>|
        #[trigger] m.contains_key(k) ==> m[k].fails >= 1 && m[k].blocked_until == sat_add(
            m[k].last_attempt_at,
            failure_delay(m[k].fails),
        ) && m[k].last_attempt_at <= latest
}

/// The later of two instants.
pub open spec fn later(a: u64, b: u64) -> u64 {
    if a > b {
        a
    } else {
        b
    }
}

/// The failure table of every share, keyed by share id.
pub struct AuthBackoff {
    origin: Instant,
    latest: u64,
    keys: Vec<String>,
    entries: Vec<BackoffEntry>,
    model: Ghost<Map<Seq<char>, BackoffEntry>>,
}

impl AuthBackoff {
    /// The table: each tracked share and its entry.
    pub closed spec fn view(&self) -> Map<Seq<char>, BackoffEntry> {
        self.model@
    }

    /// The latest instant the table has seen, in nanoseconds since its
    /// origin. The clock is read through it, so readings never go back.
    pub closed spec fn latest(&self) -> u64 {
        self.latest
    }

    /// The vectors hold exactly the table, with no share twice and no more
    /// shares than the limit; each entry is consistent.
    pub closed spec fn wf(&self) -> bool {
        &&& table_consistent(self.model@, self.latest)
        &&& self.keys@.len() == self.entries@.len()
        &&& self.keys@.len() <= MAX_BACKOFF_ENTRIES
        &&& forall|i: int, j: int|
            0 <= i < j < self.keys@.len() ==> #[trigger] self.keys@[i]@ != #[trigger] self.keys@[j]@
        &&& forall|i: int|
            0 <= i < self.keys@.len() ==> #[trigger] self.model@.contains_key(self.keys@[i]@)
                && self.model@[self.keys@[i]@] == self.entries@[i]
        &&& forall|k: Seq<char>|
            #[trigger] self.model@.contains_key(k) ==> exists|i: int|
                0 <= i < self.keys@.len() && #[trigger] self.keys@[i]@ == k
        &&& self.model@.dom().finite()
        &&& self.model@.len() == self.keys@.len()
    }

    /// An empty table.
    pub fn new() -> (b: Self)
        ensures
            b.wf(),
            b.view() == Map::<Seq<char>, BackoffEntry>::empty(),
            b.latest() == 0,
    {
        AuthBackoff {
            origin: instant_now(),
            latest: 0,
            keys: Vec::new(),
            entries: Vec::new(),
            model: Ghost(Map::empty()),
        }
    }

    /// The number of tracked shares.
    pub fn len(&self) -> (n: usize)
        requires
            self.wf(),
        ensures
            n == self.view().len(),
    {
        self.keys.len()
    }

    /// Whether a share is tracked.
    pub fn contains(&self, share_id: &str) -> (r: bool)
        requires
            self.wf(),
        ensures
            r == self.view().contains_key(share_id@),
    {
        self.find(share_id).is_some()
    }

    /// Where a share sits in the vectors.
    fn find(&self, share_id: &str) -> (r: Option<usize>)
        requires
            self.wf(),
        ensures
            r matches Some(i) ==> i < self.keys@.len() && self.keys@[i as int]@ == share_id@,
            r is None ==> !self.view().contains_key(share_id@),
    {
        let mut i: usize = 0;
        while i < self.keys.len()
            invariant
                self.wf(),
                i <= self.keys@.len(),
                forall|j: int| 0 <= j < i ==> #[trigger] self.keys@[j]@ != share_id@,
            decreases self.keys@.len() - i,
        {
            let same = bytes_eq(self.keys[i].as_str().as_bytes(), share_id.as_bytes());
            proof {
                vstd::utf8::encode_utf8_decode_utf8(self.keys@[i as int]@);
                vstd::utf8::encode_utf8_decode_utf8(share_id@);
            }
            if same {
                return Some(i);
            }
            i = i + 1;
        }
        None
    }

    /// Drops the share at index `i`.
    fn remove_at(&mut self, i: usize)
        requires
            old(self).wf(),
            i < old(self).keys@.len(),
        ensures
            final(self).wf(),
            final(self).view() == old(self).view().remove(old(self).keys@[i as int]@),
            final(self).latest == old(self).latest,
            final(self).keys@ == old(self).keys@.remove(i as int),
            final(self).entries@ == old(self).entries@.remove(i as int),
    {
        let ghost k = self.keys@[i as int]@;
        let ghost old_keys = self.keys@;
        let ghost old_entries = self.entries@;
        let ghost old_model = self.model@;
        self.keys.remove(i);
        self.entries.remove(i);
        self.model = Ghost(self.model@.remove(k));
        proof {
            assert forall|kk: Seq<char>| #[trigger] self.model@.contains_key(kk) implies exists|j: int|
                0 <= j < self.keys@.len() && #[trigger] self.keys@[j]@ == kk by {
                let j0 = choose|j: int| 0 <= j < old_keys.len() && #[trigger] old_keys[j]@ == kk;
                if j0 < i {
                    assert(self.keys@[j0]@ == kk);
                } else {
                    assert(j0 != i);
                    assert(self.keys@[j0 - 1]@ == kk);
                }
            }
            assert forall|a: int, b: int|
                0 <= a < b < self.keys@.len() implies #[trigger] self.keys@[a]@ != #[trigger] self.keys@[b]@ by {
                let oa = if a < i { a } else { a + 1 };
                let ob = if b < i { b } else { b + 1 };
                assert(old_keys[oa]@ != old_keys[ob]@);
            }
            assert forall|j: int| 0 <= j < self.keys@.len() implies #[trigger] self.model@.contains_key(
                self.keys@[j]@,
            ) && self.model@[self.keys@[j]@] == self.entries@[j] by {
                let oj = if j < i { j } else { j + 1 };
                assert(self.keys@[j] == old_keys[oj]);
                assert(self.entries@[j] == old_entries[oj]);
                assert(old_keys[oj]@ != k);
                assert(old_model.contains_key(old_keys[oj]@));
            }
        }
    }

    /// Forgets every share idle past the forgetting window.
    fn retain_recent_entries(&mut self, now: u64)
        requires
            old(self).wf(),
        ensures
            final(self).wf(),
            final(self).view() == recent_entries(old(self).view(), now),
            final(self).latest == old(self).latest,
    {
        let ghost m = self.model@;
        let mut i: usize = 0;
        let ghost mut gone: Set<Seq<char>> = Set::empty();
        assert(m.remove_keys(gone) =~= m);
        while i < self.keys.len()
            invariant
                self.wf(),
                i <= self.keys@.len(),
                forall|j: int| 0 <= j < i ==> #[trigger] is_recent(self.entries@[j], now),
                gone.finite(),
                forall|k: Seq<char>| #[trigger] gone.contains(k) ==> m.contains_key(k) && !is_recent(m[k], now),
                self.model@ == m.remove_keys(gone),
                self.latest == old(self).latest,
            decreases self.keys@.len() - i,
        {
            let e = self.entries[i];
            if e.last_attempt_at <= now && now - e.last_attempt_at > GC_AFTER_NANOS {
                let ghost k = self.keys@[i as int]@;
                proof {
                    assert(m.remove_keys(gone).contains_key(k));
                }
                self.remove_at(i);
                proof {
                    gone = gone.insert(k);
                    assert(self.model@ =~= m.remove_keys(gone));
                }
            } else {
                i = i + 1;
            }
        }
        proof {
            assert(self.model@ =~= recent_entries(m, now)) by {
                assert forall|k: Seq<char>| #[trigger] recent_entries(m, now).contains_key(k) implies self.model@.contains_key(k) by {
                    assert(!gone.contains(k));
                }
                assert forall|k: Seq<char>| #[trigger] self.model@.contains_key(k) implies recent_entries(m, now).contains_key(k) by {
                    let j = choose|j: int| 0 <= j < self.keys@.len() && #[trigger] self.keys@[j]@ == k;
                    assert(is_recent(self.entries@[j], now));
                }
            }
        }
    }

    /// Drops the share idle longest, if any.
    fn evict_oldest_entry(&mut self)
        requires
            old(self).wf(),
            old(self).view().len() > 0,
        ensures
            final(self).wf(),
            evicts_oldest(old(self).view(), final(self).view()),
            final(self).latest == old(self).latest,
    {
        let mut oldest: usize = 0;
        let mut i: usize = 1;
        while i < self.keys.len()
            invariant
                self.wf(),
                self.keys@.len() > 0,
                self.latest == old(self).latest,
                oldest < i <= self.keys@.len(),
                forall|j: int| 0 <= j < i ==> self.entries@[oldest as int].last_attempt_at <= #[trigger] self.entries@[j].last_attempt_at,
            decreases self.keys@.len() - i,
        {
            if self.entries[i].last_attempt_at < self.entries[oldest].last_attempt_at {
                oldest = i;
            }
            i = i + 1;
        }
        let ghost before = self.model@;
        let ghost k = self.keys@[oldest as int]@;
        proof {
            assert forall|j: Seq<char>| before.contains_key(j) implies before[k].last_attempt_at <= #[trigger] before[j].last_attempt_at by {
                let x = choose|x: int| 0 <= x < self.keys@.len() && #[trigger] self.keys@[x]@ == j;
                assert(self.entries@[oldest as int].last_attempt_at <= self.entries@[x].last_attempt_at);
                assert(before.contains_key(self.keys@[oldest as int]@));
                assert(before.contains_key(self.keys@[x]@));
            }
        }
        self.remove_at(oldest);
        assert(before.remove(k) == self.model@);
    }

    /// Nanoseconds a share must still wait before its next attempt at `now`.
    /// Forgets shares idle past the forgetting window, and resets the share's
    /// record if it has been idle for five minutes.
    pub fn delay_before_next_attempt_at(&mut self, share_id: &str, now: u64) -> (delay: u64)
        requires
            old(self).wf(),
        ensures
            final(self).wf(),
            (final(self).view(), delay) == spec_delay(old(self).view(), share_id@, now),
            final(self).latest() == later(old(self).latest(), now),
    {
        if now > self.latest {
            self.latest = now;
        }
        self.retain_recent_entries(now);
        let found = self.find(share_id);
        match found {
            None => 0,
            Some(i) => {
                let e = self.entries[i];
                if e.last_attempt_at <= now && now - e.last_attempt_at >= RESET_AFTER_NANOS {
                    self.remove_at(i);
                    0
                } else {
                    e.blocked_until.saturating_sub(now)
                }
            },
        }
    }

    /// Forgets a share's failures after it authenticated.
    pub fn record_success(&mut self, share_id: &str)
        requires
            old(self).wf(),
        ensures
            final(self).wf(),
            final(self).view() == old(self).view().remove(share_id@),
    {
        match self.find(share_id) {
            Some(i) => self.remove_at(i),
            None => {
                assert(self.model@ =~= self.model@.remove(share_id@));
            },
        }
    }

    /// Records a failed attempt at `now`: counts it and blocks the share for
    /// the next delay. Forgets shares idle past the forgetting window first,
    /// and, when the share is new and the table full, evicts the share idle
    /// longest.
    pub fn record_failure_at(&mut self, share_id: &str, now: u64) -> (f: AuthBackoffFailure)
        requires
            old(self).wf(),
        ensures
            final(self).wf(),
            spec_record_failure(old(self).view(), share_id@, now, final(self).view()),
            final(self).view().contains_key(share_id@),
            final(self).view().len() <= MAX_BACKOFF_ENTRIES,
            f.fails == final(self).view()[share_id@].fails,
            f.next_delay_nanos == failure_delay(f.fails),
            final(self).view()[share_id@].blocked_until == sat_add(now, f.next_delay_nanos),
            final(self).latest() == later(old(self).latest(), now),
    {
        if now > self.latest {
            self.latest = now;
        }
        self.retain_recent_entries(now);
        let ghost r = self.model@;
        let mut found = self.find(share_id);
        if found.is_none() && self.keys.len() >= MAX_BACKOFF_ENTRIES {
            self.evict_oldest_entry();
            found = self.find(share_id);
        }
        let ghost mid = self.model@;
        let prior_fails: u32 = match found {
            Some(i) => self.entries[i].fails,
            None => 0,
        };
        let fails = prior_fails.saturating_add(1);
        let shift: u32 = if fails - 1 > 7 { 7 } else { fails - 1 };
        let delay = failure_delay_nanos(shift);
        let entry = BackoffEntry {
            fails,
            last_attempt_at: now,
            blocked_until: now.saturating_add(delay),
        };
        proof {
            assert(entry == failed_entry(lookup(mid, share_id@), now));
            assert(eviction_step(r, share_id@, mid));
            lemma_failure_delay_bounded_and_monotone(fails, fails);
            assert(table_consistent(mid.insert(share_id@, entry), self.latest));
        }
        match found {
            Some(i) => {
                let ghost old_entries = self.entries@;
                self.entries.set(i, entry);
                self.model = Ghost(self.model@.insert(share_id@, entry));
                proof {
                    assert forall|j: int| 0 <= j < self.keys@.len() implies #[trigger] self.model@.contains_key(
                        self.keys@[j]@,
                    ) && self.model@[self.keys@[j]@] == self.entries@[j] by {
                        assert(mid.contains_key(self.keys@[j]@));
                        if j != i {
                            assert(self.keys@[j]@ != self.keys@[i as int]@);
                            assert(self.entries@[j] == old_entries[j]);
                        }
                    }
                    assert(self.model@.dom() =~= mid.dom());
                }
            },
            None => {
                let ghost old_keys = self.keys@;
                self.keys.push(share_id.to_owned());
                self.entries.push(entry);
                self.model = Ghost(self.model@.insert(share_id@, entry));
                proof {
                    assert forall|a: int, b: int|
                        0 <= a < b < self.keys@.len() implies #[trigger] self.keys@[a]@ != #[trigger] self.keys@[b]@ by {
                        if b == old_keys.len() {
                            assert(mid.contains_key(old_keys[a]@));
                        }
                    }
                    assert forall|k: Seq<char>| #[trigger] self.model@.contains_key(k) implies exists|j: int|
                        0 <= j < self.keys@.len() && #[trigger] self.keys@[j]@ == k by {
                        if k == share_id@ {
                            assert(self.keys@[old_keys.len() as int]@ == k);
                        } else {
                            let j0 = choose|j: int| 0 <= j < old_keys.len() && #[trigger] old_keys[j]@ == k;
                            assert(self.keys@[j0]@ == k);
                        }
                    }
                    assert forall|j: int| 0 <= j < self.keys@.len() implies #[trigger] self.model@.contains_key(
                        self.keys@[j]@,
                    ) && self.model@[self.keys@[j]@] == self.entries@[j] by {
                        if j < old_keys.len() {
                            assert(mid.contains_key(old_keys[j]@));
                        }
                    }
                }
            },
        }
        AuthBackoffFailure { fails, next_delay_nanos: delay }
    }

    /// Nanoseconds a share must still wait before its next attempt, now.
    /// The clock reading is never earlier than the latest one seen, so the
    /// wait is at most 10 s, and at most the delay of the share's last
    /// failure.
    pub fn delay_before_next_attempt(&mut self, share_id: &str) -> (delay: u64)
        requires
            old(self).wf(),
        ensures
            final(self).wf(),
            old(self).latest() <= final(self).latest(),
            (final(self).view(), delay) == spec_delay(old(self).view(), share_id@, final(self).latest()),
            delay <= MAX_DELAY_NANOS,
            old(self).view().contains_key(share_id@) ==> delay <= failure_delay(old(self).view()[share_id@].fails),
            !old(self).view().contains_key(share_id@) ==> delay == 0,
    {
        let reading = nanos_since(&self.origin);
        let now = if reading > self.latest { reading } else { self.latest };
        proof {
            lemma_delay_bounded_by_last_failure(self.view(), self.latest, share_id@, now);
        }
        self.delay_before_next_attempt_at(share_id, now)
    }

    /// Records a failed attempt, now.
    pub fn record_failure(&mut self, share_id: &str) -> (f: AuthBackoffFailure)
        requires
            old(self).wf(),
        ensures
            final(self).wf(),
            final(self).view().contains_key(share_id@),
            final(self).view().len() <= MAX_BACKOFF_ENTRIES,
            old(self).latest() <= final(self).latest(),
            spec_record_failure(old(self).view(), share_id@, final(self).latest(), final(self).view()),
            f.fails == final(self).view()[share_id@].fails,
            f.next_delay_nanos == failure_delay(f.fails),
            final(self).view()[share_id@].blocked_until == sat_add(final(self).latest(), f.next_delay_nanos),
    {
        let reading = nanos_since(&self.origin);
        let now = if reading > self.latest { reading } else { self.latest };
        self.record_failure_at(share_id, now)
    }
}

/// The delay after a failure whose doubling count is `shift` (at most 7).
fn failure_delay_nanos(shift: u32) -> (d: u64)
    requires
        shift <= 7,
    ensures
        forall|fails: u32|
            fails >= 1 && shift as int == (if fails - 1 > 7 {
                7
            } else {
                fails - 1
            }) ==> d == #[trigger] failure_delay(fails),
{
    let mut multiplier: u64 = 1;
    let mut k: u32 = 0;
    while k < shift
        invariant
            k <= shift <= 7,
            multiplier as nat == pow2(k as nat),
            multiplier <= 128,
        decreases shift - k,
    {
        proof {
            reveal_with_fuel(pow2, 8);
            assert(pow2(k as nat) <= 64) by {
                reveal_with_fuel(pow2, 8);
            }
        }
        multiplier = multiplier * 2;
        k = k + 1;
    }
    let d = INITIAL_DELAY_NANOS * multiplier;
    if d > MAX_DELAY_NANOS {
        MAX_DELAY_NANOS
    } else {
        d
    }
}

/// Each failure's delay is between 100 ms and 10 s, and never shrinks as
/// failures accumulate.
pub proof fn lemma_failure_delay_bounded_and_monotone(a: u32, b: u32)
    requires
        1 <= a <= b,
    ensures
        INITIAL_DELAY_NANOS <= failure_delay(a) <= MAX_DELAY_NANOS,
        failure_delay(a) <= failure_delay(b),
{
    reveal_with_fuel(pow2, 8);
    lemma_pow2_monotone(
        if a - 1 > 7 { 7 } else { (a - 1) as nat },
        if b - 1 > 7 { 7 } else { (b - 1) as nat },
    );
}

/// Powers of two grow with the exponent and start at one.
proof fn lemma_pow2_monotone(x: nat, y: nat)
    requires
        x <= y,
    ensures
        1 <= pow2(x) <= pow2(y),
    decreases y,
{
    if y > x {
        lemma_pow2_monotone(x, (y - 1) as nat);
    } else if x > 0 {
        lemma_pow2_monotone((x - 1) as nat, (x - 1) as nat);
    }
}

/// Right after a failure is recorded, the share must wait exactly that
/// failure's delay (unless the clock is so close to its end that the
/// deadline saturates).
pub proof fn lemma_delay_after_failure(
    before: Map<Seq<char>, BackoffEntry>,
    share: Seq<char>,
    now: u64,
    after: Map<Seq<char>, BackoffEntry>,
)
    requires
        spec_record_failure(before, share, now, after),
        now + MAX_DELAY_NANOS <= u64::MAX,
    ensures
        spec_delay(after, share, now).1 == failure_delay(after[share].fails),
        spec_delay(after, share, now).0 == recent_entries(after, now),
{
    let mid = choose|mid: Map<Seq<char>, BackoffEntry>|
        #[trigger] eviction_step(recent_entries(before, now), share, mid) && after == mid.insert(
            share,
            failed_entry(lookup(mid, share), now),
        );
    let e = failed_entry(lookup(mid, share), now);
    assert(after[share] == e);
    if e.fails >= 1 {
        lemma_failure_delay_bounded_and_monotone(e.fails, e.fails);
    }
    assert(recent_entries(after, now).contains_key(share));
}

/// After a success the share owes no wait.
pub proof fn lemma_no_delay_after_success(
    before: Map<Seq<char>, BackoffEntry>,
    share: Seq<char>,
    now: u64,
)
    ensures
        spec_delay(before.remove(share), share, now).1 == 0,
{
}

/// Recording a failure for one share leaves every other share's entry as it
/// was, unless that share was forgotten for idleness or evicted to make room.
pub proof fn lemma_failure_leaves_other_shares(
    before: Map<Seq<char>, BackoffEntry>,
    share: Seq<char>,
    other: Seq<char>,
    now: u64,
    after: Map<Seq<char>, BackoffEntry>,
)
    requires
        spec_record_failure(before, share, now, after),
        other != share,
        after.contains_key(other),
    ensures
        before.contains_key(other),
        after[other] == before[other],
{
    let mid = choose|mid: Map<Seq<char>, BackoffEntry>|
        #[trigger] eviction_step(recent_entries(before, now), share, mid) && after == mid.insert(
            share,
            failed_entry(lookup(mid, share), now),
        );
    let r = recent_entries(before, now);
    if !r.contains_key(share) && r.len() >= MAX_BACKOFF_ENTRIES {
        let k = choose|k: Seq<char>|
            #![trigger r.remove(k)]
            r.contains_key(k) && mid == r.remove(k) && forall|j: Seq<char>|
                r.contains_key(j) ==> r[k].last_attempt_at <= #[trigger] r[j].last_attempt_at;
        assert(mid.contains_key(other));
    }
}

/// On a consistent table, at any instant no earlier than the latest one it
/// has seen, a share owes at most the delay of its last failure (so at most
/// 10 s), nothing when the table does not track it, and nothing once it has
/// been idle five minutes (its entry is then dropped).
pub proof fn lemma_delay_bounded_by_last_failure(m: Map<Seq<char>, BackoffEntry>, latest: u64, share: Seq<char>, now: u64)
    requires
        table_consistent(m, latest),
        latest <= now,
    ensures
        spec_delay(m, share, now).1 <= MAX_DELAY_NANOS,
        m.contains_key(share) ==> spec_delay(m, share, now).1 <= failure_delay(m[share].fails),
        !m.contains_key(share) ==> spec_delay(m, share, now).1 == 0,
        m.contains_key(share) && elapsed(now, m[share].last_attempt_at) >= RESET_AFTER_NANOS
            ==> spec_delay(m, share, now).1 == 0 && !spec_delay(m, share, now).0.contains_key(share),
{
    if m.contains_key(share) {
        lemma_failure_delay_bounded_and_monotone(m[share].fails, m[share].fails);
    }
}

} // verus!
