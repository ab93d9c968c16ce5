//! The windows whose names follow their running command. A window is known by
//! the session that runs its panes and its index; linked windows share that
//! key, so marking one marks all of them.

use std::collections::BTreeMap;
use vstd::prelude::*;

use crate::window_links::{copy_slot, key_of, keys_of, remapped_key, remapped_window_link_slot, slot, slot_eq, WindowLinkSlot};

verus! {

/// The set of auto-named windows, each under its (runtime session, index) key.
pub struct AutoNamedWindows {
    keys: Vec<WindowLinkSlot>,
}

/// The keys after the windows of session `name` move to new indices.
pub open spec fn spec_remap_keys(keys: Set<(Seq<char>, u32)>, name: Seq<char>, index_map: Map<u32, u32>) -> Set<(Seq<char>, u32)> {
    Set::new(|k: (Seq<char>, u32)| exists|k0: (Seq<char>, u32)| #[trigger] keys.contains(k0) && remapped_key(k0, name, index_map) == k)
}

/// The keys after the marks of two windows trade places.
pub open spec fn spec_swap_keys(keys: Set<(Seq<char>, u32)>, a: (Seq<char>, u32), b: (Seq<char>, u32)) -> Set<(Seq<char>, u32)> {
    if a == b {
        keys
    } else {
        let rest = keys.remove(a).remove(b);
        let with_b = if keys.contains(a) { rest.insert(b) } else { rest };
        if keys.contains(b) { with_b.insert(a) } else { with_b }
    }
}

impl AutoNamedWindows {
    /// The keys of the auto-named windows.
    pub closed spec fn view(&self) -> Set<(Seq<char>, u32)> {
        keys_of(self.keys@).to_set()
    }

    /// No key is held twice.
    pub closed spec fn wf(&self) -> bool {
        keys_of(self.keys@).no_duplicates()
    }

    /// No window is auto-named.
    pub fn new() -> (t: Self)
        ensures
            t.wf(),
            t.view() == Set::<(Seq<char>, u32)>::empty(),
    {
        let t = AutoNamedWindows { keys: Vec::new() };
        assert(keys_of(t.keys@).to_set() =~= Set::<(Seq<char>, u32)>::empty());
        t
    }

    /// Where key `k` is held, if it is.
    fn position(&self, k: &WindowLinkSlot) -> (p: Option<usize>)
        requires
            self.wf(),
        ensures
            match p {
                Some(i) => i < self.keys@.len() && key_of(self.keys@[i as int]) == key_of(*k),
                None => !self.view().contains(key_of(*k)),
            },
    {
        let mut i: usize = 0;
        while i < self.keys.len()
            invariant
                i <= self.keys@.len(),
                forall|j: int| 0 <= j < i ==> key_of(#[trigger] self.keys@[j]) != key_of(*k),
            decreases self.keys@.len() - i,
        {
            if slot_eq(&self.keys[i], k) {
                return Some(i);
            }
            i = i + 1;
        }
        proof {
            if keys_of(self.keys@).contains(key_of(*k)) {
                let j = choose|j: int| 0 <= j < keys_of(self.keys@).len() && keys_of(self.keys@)[j] == key_of(*k);
                assert(key_of(self.keys@[j]) != key_of(*k));
            }
        }
        None
    }

    /// Whether the window under `runtime_session` and `window_index` is auto-named.
    pub fn tracks_auto_named_window(&self, runtime_session: &str, window_index: u32) -> (r: bool)
        requires
            self.wf(),
        ensures
            r == self.view().contains((runtime_session@, window_index)),
    {
        let k = slot(runtime_session, window_index);
        match self.position(&k) {
            Some(i) => {
                assert(keys_of(self.keys@)[i as int] == key_of(k));
                true
            },
            None => false,
        }
    }

    /// Adds `k`, which is not held yet.
    fn push_new(&mut self, k: WindowLinkSlot)
        requires
            old(self).wf(),
            !old(self).view().contains(key_of(k)),
        ensures
            final(self).wf(),
            final(self).view() == old(self).view().insert(key_of(k)),
    {
        let ghost before = keys_of(self.keys@);
        self.keys.push(k);
        proof {
            let after = keys_of(self.keys@);
            assert(after =~= before.push(key_of(k)));
            assert forall|a: int, b: int| 0 <= a < after.len() && 0 <= b < after.len() && a != b implies after[a] != after[b] by {
                if a == before.len() {
                    assert(before.contains(after[b]));
                } else if b == before.len() {
                    assert(before.contains(after[a]));
                }
            }
            assert forall|x: (Seq<char>, u32)| after.contains(x) <==> before.to_set().insert(key_of(k)).contains(x) by {
                if after.contains(x) && x != key_of(k) {
                    let j = choose|j: int| 0 <= j < after.len() && after[j] == x;
                    assert(before[j] == x);
                }
                if before.contains(x) {
                    let j = choose|j: int| 0 <= j < before.len() && before[j] == x;
                    assert(after[j] == x);
                }
                if x == key_of(k) {
                    assert(after[before.len() as int] == x);
                }
            }
            assert(after.to_set() =~= before.to_set().insert(key_of(k)));
        }
    }

    /// Drops the key held at position `i`.
    fn remove_at(&mut self, i: usize)
        requires
            old(self).wf(),
            i < old(self).keys@.len(),
        ensures
            final(self).wf(),
            final(self).view() == old(self).view().remove(key_of(old(self).keys@[i as int])),
    {
        let ghost before = keys_of(self.keys@);
        let ghost gone = before[i as int];
        self.keys.remove(i);
        proof {
            let after = keys_of(self.keys@);
            assert(after =~= before.remove(i as int));
            assert forall|a: int, b: int| 0 <= a < after.len() && 0 <= b < after.len() && a != b implies after[a] != after[b] by {
                let a0 = if a < i { a } else { a + 1 };
                let b0 = if b < i { b } else { b + 1 };
                assert(before[a0] != before[b0]);
            }
            assert forall|x: (Seq<char>, u32)| after.contains(x) <==> before.to_set().remove(gone).contains(x) by {
                if after.contains(x) {
                    let j = choose|j: int| 0 <= j < after.len() && after[j] == x;
                    let j0 = if j < i { j } else { j + 1 };
                    assert(before[j0] == x);
                    assert(j0 != i);
                }
                if before.contains(x) && x != gone {
                    let j = choose|j: int| 0 <= j < before.len() && before[j] == x;
                    assert(j != i);
                    if j < i {
                        assert(after[j] == x);
                    } else {
                        assert(after[j - 1] == x);
                    }
                }
            }
            assert(after.to_set() =~= before.to_set().remove(gone));
        }
    }

    /// Marks the window under `runtime_session` and `window_index` as auto-named.
    pub fn mark_auto_named_window(&mut self, runtime_session: &str, window_index: u32)
        requires
            old(self).wf(),
        ensures
            final(self).wf(),
            final(self).view() == old(self).view().insert((runtime_session@, window_index)),
    {
        let k = slot(runtime_session, window_index);
        match self.position(&k) {
            Some(i) => {
                proof {
                    assert(keys_of(self.keys@)[i as int] == key_of(k));
                    assert(self.view().insert(key_of(k)) =~= self.view());
                }
            },
            None => self.push_new(k),
        }
    }

    /// Clears the auto-named mark of the window under `runtime_session` and `window_index`.
    pub fn clear_auto_named_window(&mut self, runtime_session: &str, window_index: u32)
        requires
            old(self).wf(),
        ensures
            final(self).wf(),
            final(self).view() == old(self).view().remove((runtime_session@, window_index)),
    {
        let k = slot(runtime_session, window_index);
        match self.position(&k) {
            Some(i) => self.remove_at(i),
            None => {
                assert(self.view().remove(key_of(k)) =~= self.view());
            },
        }
    }

    /// Removes `k` and says whether it was held.
    fn take(&mut self, k: &WindowLinkSlot) -> (held: bool)
        requires
            old(self).wf(),
        ensures
            final(self).wf(),
            held == old(self).view().contains(key_of(*k)),
            final(self).view() == old(self).view().remove(key_of(*k)),
    {
        match self.position(k) {
            Some(i) => {
                assert(keys_of(self.keys@)[i as int] == key_of(*k));
                self.remove_at(i);
                true
            },
            None => {
                assert(self.view().remove(key_of(*k)) =~= self.view());
                false
            },
        }
    }

    /// Adds `k`, if it is not held yet.
    fn insert(&mut self, k: WindowLinkSlot)
        requires
            old(self).wf(),
        ensures
            final(self).wf(),
            final(self).view() == old(self).view().insert(key_of(k)),
    {
        match self.position(&k) {
            Some(i) => {
                proof {
                    assert(keys_of(self.keys@)[i as int] == key_of(k));
                    assert(self.view().insert(key_of(k)) =~= self.view());
                }
            },
            None => self.push_new(k),
        }
    }

    /// Trades the auto-named marks of two windows, each under its runtime
    /// session and index.
    pub fn swap_auto_named_window_slots(
        &mut self,
        source_runtime: &str,
        source_index: u32,
        target_runtime: &str,
        target_index: u32,
    )
        requires
            old(self).wf(),
        ensures
            final(self).wf(),
            final(self).view() == spec_swap_keys(
                old(self).view(),
                (source_runtime@, source_index),
                (target_runtime@, target_index),
            ),
    {
        let source = slot(source_runtime, source_index);
        let target = slot(target_runtime, target_index);
        if slot_eq(&source, &target) {
            return;
        }
        let ghost start = self.view();
        let source_tracked = self.take(&source);
        let target_tracked = self.take(&target);
        let ghost rest = self.view();
        if source_tracked {
            self.insert(copy_slot(&target));
        }
        if target_tracked {
            self.insert(copy_slot(&source));
        }
        proof {
            assert(rest == start.remove(key_of(source)).remove(key_of(target)));
        }
    }

    /// Moves the marks of session `name`'s windows to the indices that
    /// `index_map` gives them; other marks stay.
    pub fn remap_window_indexed_state(&mut self, name: &str, index_map: &BTreeMap<u32, u32>)
        requires
            old(self).wf(),
        ensures
            final(self).wf(),
            final(self).view() == spec_remap_keys(old(self).view(), name@, index_map@),
    {
        let ghost start = self.view();
        let mut next = AutoNamedWindows::new();
        let mut i: usize = 0;
        while i < self.keys.len()
            invariant
                self.view() == start,
                i <= self.keys@.len(),
                next.wf(),
                next.view() == Set::new(
                    |k: (Seq<char>, u32)|
                        exists|j: int| 0 <= j < i && remapped_key(key_of(#[trigger] self.keys@[j]), name@, index_map@) == k,
                ),
            decreases self.keys@.len() - i,
        {
            let ghost before = next.view();
            let moved = remapped_window_link_slot(&self.keys[i], name, index_map);
            next.insert(moved);
            proof {
                let want = Set::new(
                    |k: (Seq<char>, u32)|
                        exists|j: int| 0 <= j < i + 1 && remapped_key(key_of(#[trigger] self.keys@[j]), name@, index_map@) == k,
                );
                assert forall|k: (Seq<char>, u32)| next.view().contains(k) <==> want.contains(k) by {
                    if want.contains(k) {
                        let j = choose|j: int| 0 <= j < i + 1 && remapped_key(key_of(#[trigger] self.keys@[j]), name@, index_map@) == k;
                        if j < i {
                            assert(before.contains(k));
                        }
                    }
                }
                assert(next.view() =~= want);
            }
            i = i + 1;
        }
        proof {
            let keys = keys_of(self.keys@);
            assert forall|k: (Seq<char>, u32)| next.view().contains(k) <==> spec_remap_keys(start, name@, index_map@).contains(k) by {
                if next.view().contains(k) {
                    let j = choose|j: int| 0 <= j < self.keys@.len() && remapped_key(key_of(#[trigger] self.keys@[j]), name@, index_map@) == k;
                    assert(keys[j] == key_of(self.keys@[j]));
                    assert(start.contains(key_of(self.keys@[j])));
                }
                if spec_remap_keys(start, name@, index_map@).contains(k) {
                    let k0 = choose|k0: (Seq<char>, u32)| #[trigger] start.contains(k0) && remapped_key(k0, name@, index_map@) == k;
                    let j = choose|j: int| 0 <= j < keys.len() && keys[j] == k0;
                    assert(key_of(self.keys@[j]) == k0);
                }
            }
            assert(next.view() =~= spec_remap_keys(start, name@, index_map@));
        }
        *self = next;
    }
}

} // verus!
