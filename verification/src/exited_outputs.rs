//! The output of a pane that exited and was removed stays available for a
//! short while, so that a late subscriber still reads it. Each entry is kept
//! under its pane target until its expiry instant; an entry whose expiry has
//! come is gone.

use vstd::prelude::*;

use crate::ansi::str_eq;

verus! {

/// How long an exited pane keeps its output available, in nanoseconds.
pub const EXITED_PANE_OUTPUT_RETENTION_TTL_NANOS: u64 = 5_000_000_000;

/// A pane: its session, window index and pane index.
#[derive(Debug, Clone, PartialEq, Eq)]
pub struct PaneTarget {
    pub session_name: String,
    pub window_index: u32,
    pub pane_index: u32,
}

/// The plain value of a pane target.
pub open spec fn target_key(t: PaneTarget) -> (Seq<char>, u32, u32) {
    (t.session_name@, t.window_index, t.pane_index)
}

/// Whether two targets name the same pane.
pub fn same_target(a: &PaneTarget, b: &PaneTarget) -> (r: bool)
    ensures
        r == (target_key(*a) == target_key(*b)),
{
    a.window_index == b.window_index && a.pane_index == b.pane_index && str_eq(
        a.session_name.as_str(),
        b.session_name.as_str(),
    )
}

/// A retained output and the instant (in nanoseconds of the monotonic clock)
/// at which it expires.
pub struct RetainedExitedPaneOutput<V> {
    pub output: V,
    pub expires_at: u64,
}

impl<V> RetainedExitedPaneOutput<V> {
    /// Whether the entry has expired at `now`.
    pub fn is_expired(&self, now: u64) -> (r: bool)
        ensures
            r == (now >= self.expires_at),
    {
        now >= self.expires_at
    }
}

/// The entries that have not expired at `now`.
pub open spec fn live<V>(m: Map<(Seq<char>, u32, u32), RetainedExitedPaneOutput<V>>, now: u64) -> Map<
    (Seq<char>, u32, u32),
    RetainedExitedPaneOutput<V>,
> {
    m.restrict(Set::new(|k: (Seq<char>, u32, u32)| m.contains_key(k) && now < m[k].expires_at))
}

/// The table after `output` is retained for `target` at `now` for `ttl`.
pub open spec fn spec_insert<V>(
    m: Map<(Seq<char>, u32, u32), RetainedExitedPaneOutput<V>>,
    target: (Seq<char>, u32, u32),
    output: V,
    now: u64,
    ttl: u64,
) -> Map<(Seq<char>, u32, u32), RetainedExitedPaneOutput<V>> {
    live(m, now).insert(target, RetainedExitedPaneOutput { output, expires_at: (now + ttl) as u64 })
}

/// What a read of `target` at `now` finds.
pub open spec fn spec_get<V>(m: Map<(Seq<char>, u32, u32), RetainedExitedPaneOutput<V>>, target: (Seq<char>, u32, u32), now: u64) -> Option<
    RetainedExitedPaneOutput<V>,
> {
    if live(m, now).contains_key(target) {
        Some(live(m, now)[target])
    } else {
        None
    }
}

/// The entries held in a list, each under its target.
pub open spec fn entries_view<V>(s: Seq<(PaneTarget, RetainedExitedPaneOutput<V>)>) -> Map<
    (Seq<char>, u32, u32),
    RetainedExitedPaneOutput<V>,
> {
    Map::new(
        |k: (Seq<char>, u32, u32)| exists|i: int| 0 <= i < s.len() && target_key(s[i].0) == k,
        |k: (Seq<char>, u32, u32)| s[choose|i: int| 0 <= i < s.len() && target_key(s[i].0) == k].1,
    )
}

/// No target is held twice.
pub open spec fn targets_distinct<V>(s: Seq<(PaneTarget, RetainedExitedPaneOutput<V>)>) -> bool {
    forall|i: int, j: int| 0 <= i < j < s.len() ==> target_key(#[trigger] s[i].0) != target_key(#[trigger] s[j].0)
}

/// The entry at position `i` is the entry of its target.
proof fn lemma_view_at<V>(s: Seq<(PaneTarget, RetainedExitedPaneOutput<V>)>, i: int)
    requires
        targets_distinct(s),
        0 <= i < s.len(),
    ensures
        entries_view(s).contains_key(target_key(s[i].0)),
        entries_view(s)[target_key(s[i].0)] == s[i].1,
{
    let k = target_key(s[i].0);
    let j = choose|j: int| 0 <= j < s.len() && target_key(s[j].0) == k;
    if j < i {
        assert(target_key(s[j].0) != target_key(s[i].0));
    } else if i < j {
        assert(target_key(s[i].0) != target_key(s[j].0));
    }
}

/// Appending an entry under a new target adds it.
proof fn lemma_view_push<V>(s: Seq<(PaneTarget, RetainedExitedPaneOutput<V>)>, e: (PaneTarget, RetainedExitedPaneOutput<V>))
    requires
        targets_distinct(s),
        !entries_view(s).contains_key(target_key(e.0)),
    ensures
        targets_distinct(s.push(e)),
        entries_view(s.push(e)) == entries_view(s).insert(target_key(e.0), e.1),
{
    let s2 = s.push(e);
    assert forall|i: int, j: int| 0 <= i < j < s2.len() implies target_key(#[trigger] s2[i].0) != target_key(
        #[trigger] s2[j].0,
    ) by {
        if j == s.len() {
            assert(s2[i] == s[i]);
            if target_key(s[i].0) == target_key(e.0) {
                assert(entries_view(s).contains_key(target_key(e.0)));
            }
        } else {
            assert(target_key(s[i].0) != target_key(s[j].0));
        }
    }
    let before = entries_view(s);
    let after = entries_view(s2);
    let want = before.insert(target_key(e.0), e.1);
    assert forall|k: (Seq<char>, u32, u32)| after.contains_key(k) implies want.contains_key(k) && after[k] == want[k] by {
        let j = choose|j: int| 0 <= j < s2.len() && target_key(s2[j].0) == k;
        lemma_view_at(s2, j);
        if j < s.len() {
            lemma_view_at(s, j);
        }
    }
    assert forall|k: (Seq<char>, u32, u32)| want.contains_key(k) implies after.contains_key(k) by {
        if k == target_key(e.0) {
            assert(target_key(s2[s.len() as int].0) == k);
        } else {
            let j = choose|j: int| 0 <= j < s.len() && target_key(s[j].0) == k;
            assert(target_key(s2[j].0) == k);
        }
    }
    assert(after =~= want);
}

/// Removing position `i` removes the entry of its target.
proof fn lemma_view_remove<V>(s: Seq<(PaneTarget, RetainedExitedPaneOutput<V>)>, i: int)
    requires
        targets_distinct(s),
        0 <= i < s.len(),
    ensures
        targets_distinct(s.remove(i)),
        entries_view(s.remove(i)) == entries_view(s).remove(target_key(s[i].0)),
{
    let s2 = s.remove(i);
    assert forall|a: int, b: int| 0 <= a < b < s2.len() implies target_key(#[trigger] s2[a].0) != target_key(
        #[trigger] s2[b].0,
    ) by {
        let a0 = if a < i { a } else { a + 1 };
        let b0 = if b < i { b } else { b + 1 };
        assert(s2[a] == s[a0] && s2[b] == s[b0]);
        assert(target_key(s[a0].0) != target_key(s[b0].0));
    }
    let before = entries_view(s);
    let after = entries_view(s2);
    let want = before.remove(target_key(s[i].0));
    assert forall|k: (Seq<char>, u32, u32)| after.contains_key(k) implies want.contains_key(k) && after[k] == want[k] by {
        let j = choose|j: int| 0 <= j < s2.len() && target_key(s2[j].0) == k;
        let j0 = if j < i { j } else { j + 1 };
        assert(s2[j] == s[j0]);
        lemma_view_at(s2, j);
        lemma_view_at(s, j0);
        if j0 < i {
            assert(target_key(s[j0].0) != target_key(s[i].0));
        } else {
            assert(target_key(s[i].0) != target_key(s[j0].0));
        }
    }
    assert forall|k: (Seq<char>, u32, u32)| want.contains_key(k) implies after.contains_key(k) by {
        let j = choose|j: int| 0 <= j < s.len() && target_key(s[j].0) == k;
        assert(j != i);
        let j2 = if j < i { j } else { j - 1 };
        assert(s2[j2] == s[j]);
    }
    assert(after =~= want);
}

/// Replacing the entry at position `i` by one for the same target replaces
/// that target's entry.
proof fn lemma_view_update<V>(s: Seq<(PaneTarget, RetainedExitedPaneOutput<V>)>, i: int, e: (PaneTarget, RetainedExitedPaneOutput<V>))
    requires
        targets_distinct(s),
        0 <= i < s.len(),
        target_key(e.0) == target_key(s[i].0),
    ensures
        targets_distinct(s.update(i, e)),
        entries_view(s.update(i, e)) == entries_view(s).insert(target_key(e.0), e.1),
{
    let s2 = s.update(i, e);
    assert forall|a: int, b: int| 0 <= a < b < s2.len() implies target_key(#[trigger] s2[a].0) != target_key(
        #[trigger] s2[b].0,
    ) by {
        assert(target_key(s[a].0) != target_key(s[b].0));
    }
    let before = entries_view(s);
    let after = entries_view(s2);
    let want = before.insert(target_key(e.0), e.1);
    assert forall|k: (Seq<char>, u32, u32)| after.contains_key(k) implies want.contains_key(k) && after[k] == want[k] by {
        let j = choose|j: int| 0 <= j < s2.len() && target_key(s2[j].0) == k;
        lemma_view_at(s2, j);
        lemma_view_at(s, j);
    }
    assert forall|k: (Seq<char>, u32, u32)| want.contains_key(k) implies after.contains_key(k) by {
        if k == target_key(e.0) {
            assert(target_key(s2[i].0) == k);
        } else {
            let j = choose|j: int| 0 <= j < s.len() && target_key(s[j].0) == k;
            assert(target_key(s2[j].0) == k);
        }
    }
    assert(after =~= want);
}

/// The retained outputs of exited panes, each under its pane target.
pub struct RetainedExitedPaneOutputs<V> {
    entries: Vec<(PaneTarget, RetainedExitedPaneOutput<V>)>,
}

impl<V> Default for RetainedExitedPaneOutputs<V> {
    /// Nothing is retained.
    fn default() -> (t: Self)
        ensures
            t.wf(),
            t.view() == Map::<(Seq<char>, u32, u32), RetainedExitedPaneOutput<V>>::empty(),
    {
        RetainedExitedPaneOutputs::new()
    }
}

impl<V> RetainedExitedPaneOutputs<V> {
    /// Each retained output, by pane.
    pub closed spec fn view(&self) -> Map<(Seq<char>, u32, u32), RetainedExitedPaneOutput<V>> {
        entries_view(self.entries@)
    }

    /// No pane is held twice.
    pub closed spec fn wf(&self) -> bool {
        targets_distinct(self.entries@)
    }

    /// Nothing is retained.
    pub fn new() -> (t: Self)
        ensures
            t.wf(),
            t.view() == Map::<(Seq<char>, u32, u32), RetainedExitedPaneOutput<V>>::empty(),
    {
        let t = RetainedExitedPaneOutputs { entries: Vec::new() };
        assert(t.view() =~= Map::<(Seq<char>, u32, u32), RetainedExitedPaneOutput<V>>::empty());
        t
    }

    /// Where the entry of `target` is held, if it is.
    fn position(&self, target: &PaneTarget) -> (p: Option<usize>)
        requires
            self.wf(),
        ensures
            match p {
                Some(i) => i < self.entries@.len() && target_key(self.entries@[i as int].0) == target_key(*target),
                None => !self.view().contains_key(target_key(*target)),
            },
    {
        let mut i: usize = 0;
        while i < self.entries.len()
            invariant
                i <= self.entries@.len(),
                forall|j: int| 0 <= j < i ==> target_key(#[trigger] self.entries@[j].0) != target_key(*target),
            decreases self.entries@.len() - i,
        {
            if same_target(&self.entries[i].0, target) {
                return Some(i);
            }
            i = i + 1;
        }
        proof {
            if self.view().contains_key(target_key(*target)) {
                let j = choose|j: int| 0 <= j < self.entries@.len() && target_key(self.entries@[j].0) == target_key(*target);
                assert(target_key(self.entries@[j].0) != target_key(*target));
            }
        }
        None
    }

    /// Drops every entry that has expired at `now`.
    fn cleanup_expired(&mut self, now: u64)
        requires
            old(self).wf(),
        ensures
            final(self).wf(),
            final(self).view() == live(old(self).view(), now),
    {
        let ghost start = self.view();
        let mut i: usize = 0;
        while i < self.entries.len()
            invariant
                self.wf(),
                i <= self.entries@.len(),
                forall|j: int| 0 <= j < i ==> now < (#[trigger] self.entries@[j]).1.expires_at,
                forall|k: (Seq<char>, u32, u32)| #[trigger] self.view().contains_key(k) ==> start.contains_key(k)
                    && self.view()[k] == start[k],
                forall|k: (Seq<char>, u32, u32)| #[trigger] start.contains_key(k) && !self.view().contains_key(k)
                    ==> now >= start[k].expires_at,
            decreases self.entries@.len() - i,
        {
            if self.entries[i].1.is_expired(now) {
                let ghost before = self.entries@;
                let ghost old_view = self.view();
                proof {
                    lemma_view_remove(before, i as int);
                    lemma_view_at(before, i as int);
                }
                let _ = self.entries.remove(i);
                proof {
                    assert forall|k: (Seq<char>, u32, u32)| #[trigger] self.view().contains_key(k) implies start.contains_key(k)
                        && self.view()[k] == start[k] by {
                        assert(old_view.contains_key(k));
                    }
                }
            } else {
                i = i + 1;
            }
        }
        proof {
            let after = self.view();
            let want = live(start, now);
            assert forall|k: (Seq<char>, u32, u32)| after.contains_key(k) <==> want.contains_key(k) by {
                if after.contains_key(k) {
                    let j = choose|j: int| 0 <= j < self.entries@.len() && target_key(self.entries@[j].0) == k;
                    lemma_view_at(self.entries@, j);
                    assert(now < self.entries@[j].1.expires_at);
                }
            }
            assert(after =~= want);
        }
    }

    /// Retains `output` for `target` from `now` for `ttl` nanoseconds,
    /// after dropping what has expired; an earlier entry of `target` is
    /// replaced.
    pub fn insert(&mut self, target: PaneTarget, output: V, now: u64, ttl: u64)
        requires
            old(self).wf(),
            now + ttl <= u64::MAX,
        ensures
            final(self).wf(),
            final(self).view() == spec_insert(old(self).view(), target_key(target), output, now, ttl),
    {
        self.cleanup_expired(now);
        let retained = RetainedExitedPaneOutput { output, expires_at: now + ttl };
        match self.position(&target) {
            Some(i) => {
                proof {
                    lemma_view_update(self.entries@, i as int, (target, retained));
                }
                self.entries.set(i, (target, retained));
            },
            None => {
                proof {
                    lemma_view_push(self.entries@, (target, retained));
                }
                self.entries.push((target, retained));
            },
        }
    }

    /// The output retained for `target`, if it has not expired at `now`;
    /// what has expired is dropped first.
    pub fn get(&mut self, target: &PaneTarget, now: u64) -> (r: Option<&V>)
        requires
            old(self).wf(),
        ensures
            final(self).wf(),
            final(self).view() == live(old(self).view(), now),
            r == match spec_get(old(self).view(), target_key(*target), now) {
                Some(e) => Some(&e.output),
                None => None::<&V>,
            },
    {
        self.cleanup_expired(now);
        match self.position(target) {
            Some(i) => {
                proof {
                    lemma_view_at(self.entries@, i as int);
                }
                Some(&self.entries[i].1.output)
            },
            None => None,
        }
    }

    /// Drops the entry of `target` if it has expired at `now`.
    pub fn cleanup_target_if_expired(&mut self, target: &PaneTarget, now: u64)
        requires
            old(self).wf(),
        ensures
            final(self).wf(),
            final(self).view() == if old(self).view().contains_key(target_key(*target)) && now >= old(
                self,
            ).view()[target_key(*target)].expires_at {
                old(self).view().remove(target_key(*target))
            } else {
                old(self).view()
            },
    {
        if let Some(i) = self.position(target) {
            proof {
                lemma_view_at(self.entries@, i as int);
            }
            if self.entries[i].1.is_expired(now) {
                proof {
                    lemma_view_remove(self.entries@, i as int);
                }
                let _ = self.entries.remove(i);
            }
        }
    }

    /// Whether nothing is retained at `now`; what has expired is dropped.
    pub fn is_empty(&mut self, now: u64) -> (r: bool)
        requires
            old(self).wf(),
        ensures
            final(self).wf(),
            final(self).view() == live(old(self).view(), now),
            r == (live(old(self).view(), now).dom() == Set::<(Seq<char>, u32, u32)>::empty()),
    {
        self.cleanup_expired(now);
        let r = self.entries.len() == 0;
        proof {
            if r {
                assert(self.view().dom() =~= Set::<(Seq<char>, u32, u32)>::empty());
            } else {
                lemma_view_at(self.entries@, 0);
                assert(self.view().dom().contains(target_key(self.entries@[0].0)));
            }
        }
        r
    }

    /// Drops every entry.
    pub fn clear(&mut self)
        ensures
            final(self).wf(),
            final(self).view() == Map::<(Seq<char>, u32, u32), RetainedExitedPaneOutput<V>>::empty(),
    {
        self.entries.clear();
        assert(self.view() =~= Map::<(Seq<char>, u32, u32), RetainedExitedPaneOutput<V>>::empty());
    }
}

/// An output retained at `now` for `ttl` is read back for that pane at any
/// instant before `now + ttl`, and not at or after it (when nothing is
/// retained for the pane in between).
pub proof fn lemma_retained_until_expiry<V>(
    m: Map<(Seq<char>, u32, u32), RetainedExitedPaneOutput<V>>,
    target: (Seq<char>, u32, u32),
    output: V,
    now: u64,
    ttl: u64,
    later: u64,
)
    requires
        now + ttl <= u64::MAX,
        now <= later,
    ensures
        later < now + ttl ==> spec_get(spec_insert(m, target, output, now, ttl), target, later) == Some(
            RetainedExitedPaneOutput { output, expires_at: (now + ttl) as u64 },
        ),
        later >= now + ttl ==> spec_get(spec_insert(m, target, output, now, ttl), target, later) is None,
{
}

} // verus!
