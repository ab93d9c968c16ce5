//! Linked windows: a window shown in several sessions (or at several
//! indices) is one link group; each slot (a session and a window index)
//! belongs to at most one group, and a group lists its slots and the session
//! that runs its panes.

use std::collections::BTreeMap;
use vstd::prelude::*;

use crate::ansi::str_eq;
use crate::order::{key_lt, lemma_key_lt_order, slot_less};

verus! {

/// A window index in a session.
#[derive(Debug, Clone, PartialEq, Eq)]
pub struct WindowLinkSlot {
    pub session_name: String,
    pub window_index: u32,
}

/// A group of linked slots and the session that runs the window's panes.
#[derive(Debug, Clone, PartialEq, Eq)]
pub struct WindowLinkGroup {
    pub runtime_session_name: String,
    pub slots: Vec<WindowLinkSlot>,
}

/// The plain value of a slot: the session's name and the window index.
pub open spec fn key_of(s: WindowLinkSlot) -> (Seq<char>, u32) {
    (s.session_name@, s.window_index)
}

/// The plain values of a list of slots.
pub open spec fn keys_of(v: Seq<WindowLinkSlot>) -> Seq<(Seq<char>, u32)> {
    v.map_values(|s: WindowLinkSlot| key_of(s))
}

/// A group as plain values: its runtime session and its slots, in order.
pub struct GroupView {
    pub runtime: Seq<char>,
    pub slots: Seq<(Seq<char>, u32)>,
}

/// The plain value of a group.
pub open spec fn group_view(g: WindowLinkGroup) -> GroupView {
    GroupView { runtime: g.runtime_session_name@, slots: keys_of(g.slots@) }
}

/// Makes a slot.
pub fn slot(session_name: &str, window_index: u32) -> (s: WindowLinkSlot)
    ensures
        key_of(s) == (session_name@, window_index),
{
    WindowLinkSlot { session_name: session_name.to_owned(), window_index }
}

/// Whether two slots are the same.
pub fn slot_eq(a: &WindowLinkSlot, b: &WindowLinkSlot) -> (r: bool)
    ensures
        r == (key_of(*a) == key_of(*b)),
{
    a.window_index == b.window_index && str_eq(a.session_name.as_str(), b.session_name.as_str())
}

/// Copies a slot.
pub fn copy_slot(s: &WindowLinkSlot) -> (c: WindowLinkSlot)
    ensures
        key_of(c) == key_of(*s),
{
    WindowLinkSlot { session_name: s.session_name.clone(), window_index: s.window_index }
}

/// The window-link table: its groups, each under its id.
pub struct WindowLinks {
    group_ids: Vec<u64>,
    groups: Vec<WindowLinkGroup>,
    next_group_id: u64,
}

/// The group that lists slot `k`, if any.
pub open spec fn group_of(groups: Map<u64, GroupView>, k: (Seq<char>, u32)) -> Option<u64> {
    if exists|g: u64| groups.contains_key(g) && #[trigger] groups[g].slots.contains(k) {
        Some(choose|g: u64| groups.contains_key(g) && #[trigger] groups[g].slots.contains(k))
    } else {
        None
    }
}

/// The groups held in parallel lists of ids and groups.
pub open spec fn groups_map(ids: Seq<u64>, groups: Seq<WindowLinkGroup>) -> Map<u64, GroupView> {
    Map::new(
        |g: u64| exists|i: int| 0 <= i < ids.len() && ids[i] == g,
        |g: u64| group_view(groups[choose|i: int| 0 <= i < ids.len() && ids[i] == g]),
    )
}

/// No id is held twice.
pub open spec fn ids_distinct(ids: Seq<u64>) -> bool {
    forall|i: int, j: int| 0 <= i < j < ids.len() ==> #[trigger] ids[i] != #[trigger] ids[j]
}

/// The group held at position `i` is the group of its id.
proof fn lemma_groups_map_at(ids: Seq<u64>, groups: Seq<WindowLinkGroup>, i: int)
    requires
        ids_distinct(ids),
        ids.len() == groups.len(),
        0 <= i < ids.len(),
    ensures
        groups_map(ids, groups).contains_key(ids[i]),
        groups_map(ids, groups)[ids[i]] == group_view(groups[i]),
{
    let g = ids[i];
    let j = choose|j: int| 0 <= j < ids.len() && ids[j] == g;
    if j < i {
        assert(ids[j] != ids[i]);
    } else if i < j {
        assert(ids[i] != ids[j]);
    }
}

/// Replacing the group at position `i` replaces the group of its id.
proof fn lemma_groups_map_set(ids: Seq<u64>, groups: Seq<WindowLinkGroup>, i: int, g: WindowLinkGroup)
    requires
        ids_distinct(ids),
        ids.len() == groups.len(),
        0 <= i < ids.len(),
    ensures
        groups_map(ids, groups.update(i, g)) == groups_map(ids, groups).insert(ids[i], group_view(g)),
{
    let before = groups_map(ids, groups);
    let after = groups_map(ids, groups.update(i, g));
    assert forall|h: u64| after.contains_key(h) implies after[h] == before.insert(ids[i], group_view(g))[h] by {
        let j = choose|j: int| 0 <= j < ids.len() && ids[j] == h;
        lemma_groups_map_at(ids, groups.update(i, g), j);
        lemma_groups_map_at(ids, groups, j);
        if j != i {
            assert(ids[j] != ids[i]) by {
                if j < i {
                    assert(ids[j] != ids[i]);
                } else {
                    assert(ids[i] != ids[j]);
                }
            }
        }
    }
    assert forall|h: u64| before.insert(ids[i], group_view(g)).contains_key(h) implies after.contains_key(h) by {
        if h != ids[i] {
            let j = choose|j: int| 0 <= j < ids.len() && ids[j] == h;
            assert(0 <= j < ids.len() && ids[j] == h);
        }
    }
    assert(after =~= before.insert(ids[i], group_view(g)));
}

/// Removing position `i` removes the group of its id.
proof fn lemma_groups_map_remove(ids: Seq<u64>, groups: Seq<WindowLinkGroup>, i: int)
    requires
        ids_distinct(ids),
        ids.len() == groups.len(),
        0 <= i < ids.len(),
    ensures
        ids_distinct(ids.remove(i)),
        groups_map(ids.remove(i), groups.remove(i)) == groups_map(ids, groups).remove(ids[i]),
{
    let before = groups_map(ids, groups);
    let ids2 = ids.remove(i);
    let groups2 = groups.remove(i);
    assert forall|a: int, b: int| 0 <= a < b < ids2.len() implies #[trigger] ids2[a] != #[trigger] ids2[b] by {
        let a0 = if a < i { a } else { a + 1 };
        let b0 = if b < i { b } else { b + 1 };
        assert(ids2[a] == ids[a0]);
        assert(ids2[b] == ids[b0]);
        assert(a0 < b0);
    }
    let after = groups_map(ids2, groups2);
    assert forall|h: u64| after.contains_key(h) implies before.remove(ids[i]).contains_key(h) && after[h]
        == before[h] by {
        let j = choose|j: int| 0 <= j < ids2.len() && ids2[j] == h;
        let j0 = if j < i { j } else { j + 1 };
        assert(ids2[j] == ids[j0] && groups2[j] == groups[j0]);
        lemma_groups_map_at(ids2, groups2, j);
        lemma_groups_map_at(ids, groups, j0);
        assert(j0 != i);
        assert(ids[j0] != ids[i]) by {
            if j0 < i {
                assert(ids[j0] != ids[i]);
            } else {
                assert(ids[i] != ids[j0]);
            }
        }
    }
    assert forall|h: u64| before.remove(ids[i]).contains_key(h) implies after.contains_key(h) by {
        let j = choose|j: int| 0 <= j < ids.len() && ids[j] == h;
        assert(j != i);
        let j2 = if j < i { j } else { j - 1 };
        assert(ids2[j2] == h);
    }
    assert(after =~= before.remove(ids[i]));
}

/// Appending a group under a new id adds it.
proof fn lemma_groups_map_push(ids: Seq<u64>, groups: Seq<WindowLinkGroup>, id: u64, g: WindowLinkGroup)
    requires
        ids_distinct(ids),
        ids.len() == groups.len(),
        !groups_map(ids, groups).contains_key(id),
    ensures
        ids_distinct(ids.push(id)),
        groups_map(ids.push(id), groups.push(g)) == groups_map(ids, groups).insert(id, group_view(g)),
{
    let before = groups_map(ids, groups);
    let ids2 = ids.push(id);
    let groups2 = groups.push(g);
    assert forall|a: int, b: int| 0 <= a < b < ids2.len() implies #[trigger] ids2[a] != #[trigger] ids2[b] by {
        if b == ids.len() {
            assert(ids2[a] == ids[a]);
            assert(!(exists|j: int| 0 <= j < ids.len() && ids[j] == id));
        } else {
            assert(ids[a] != ids[b]);
        }
    }
    let after = groups_map(ids2, groups2);
    assert forall|h: u64| after.contains_key(h) implies before.insert(id, group_view(g)).contains_key(h)
        && after[h] == before.insert(id, group_view(g))[h] by {
        let j = choose|j: int| 0 <= j < ids2.len() && ids2[j] == h;
        lemma_groups_map_at(ids2, groups2, j);
        if j < ids.len() {
            lemma_groups_map_at(ids, groups, j);
            assert(ids2[j] == ids[j] && groups2[j] == groups[j]);
        }
    }
    assert forall|h: u64| before.insert(id, group_view(g)).contains_key(h) implies after.contains_key(h) by {
        if h == id {
            assert(ids2[ids.len() as int] == id);
        } else {
            let j = choose|j: int| 0 <= j < ids.len() && ids[j] == h;
            assert(ids2[j] == h);
        }
    }
    assert(after =~= before.insert(id, group_view(g)));
}

/// No group lists a slot twice, and no two groups share a slot.
pub open spec fn slots_disjoint(groups: Map<u64, GroupView>) -> bool {
    &&& forall|g: u64| #[trigger] groups.contains_key(g) ==> groups[g].slots.no_duplicates()
    &&& forall|g: u64, h: u64, k: (Seq<char>, u32)|
        groups.contains_key(g) && groups.contains_key(h) && #[trigger] groups[g].slots.contains(k)
            && #[trigger] groups[h].slots.contains(k) ==> g == h
}

impl WindowLinks {
    /// Each group, by id.
    pub closed spec fn group_map(&self) -> Map<u64, GroupView> {
        groups_map(self.group_ids@, self.groups@)
    }

    /// The id the next new group receives.
    pub closed spec fn next_id(&self) -> u64 {
        self.next_group_id
    }

    /// Each group is held once, under its id; slots are not shared or
    /// repeated; every id was handed out already.
    pub closed spec fn wf(&self) -> bool {
        &&& self.group_ids@.len() == self.groups@.len()
        &&& ids_distinct(self.group_ids@)
        &&& slots_disjoint(self.group_map())
        &&& forall|g: u64| #[trigger] self.group_map().contains_key(g) ==> g < self.next_group_id
    }

    /// The group held at position `i` is the group of its id.
    proof fn lemma_group_at(&self, i: int)
        requires
            self.wf(),
            0 <= i < self.group_ids@.len(),
        ensures
            self.group_map().contains_key(self.group_ids@[i]),
            self.group_map()[self.group_ids@[i]] == group_view(self.groups@[i]),
    {
        lemma_groups_map_at(self.group_ids@, self.groups@, i);
    }

    /// An empty table whose first group id is 1.
    pub fn new() -> (t: Self)
        ensures
            t.wf(),
            t.group_map() == Map::<u64, GroupView>::empty(),
            t.next_id() == 1,
    {
        let t = WindowLinks { group_ids: Vec::new(), groups: Vec::new(), next_group_id: 1 };
        assert(t.group_map() =~= Map::<u64, GroupView>::empty());
        t
    }

    /// Where the group listing slot `k` is held, if one does.
    fn find_group(&self, k: &WindowLinkSlot) -> (r: Option<usize>)
        requires
            self.wf(),
        ensures
            match r {
                Some(i) => i < self.group_ids@.len() && group_of(self.group_map(), key_of(*k))
                    == Some(self.group_ids@[i as int]) && self.group_map()[self.group_ids@[i as int]].slots.contains(key_of(*k)),
                None => group_of(self.group_map(), key_of(*k)) is None,
            },
    {
        let mut i: usize = 0;
        while i < self.groups.len()
            invariant
                self.wf(),
                i <= self.groups@.len(),
                forall|j: int| 0 <= j < i ==> !keys_of(self.groups@[j].slots@).contains(key_of(*k)),
            decreases self.groups@.len() - i,
        {
            if let Some(p) = slot_position(&self.groups[i].slots, k) {
                proof {
                    self.lemma_group_at(i as int);
                    assert(keys_of(self.groups@[i as int].slots@)[p as int] == key_of(*k));
                    let gm = self.group_map();
                    let g = self.group_ids@[i as int];
                    assert(gm.contains_key(g) && gm[g].slots.contains(key_of(*k)));
                    let h = choose|h: u64| gm.contains_key(h) && #[trigger] gm[h].slots.contains(key_of(*k));
                    assert(h == g);
                }
                return Some(i);
            }
            i = i + 1;
        }
        proof {
            let gm = self.group_map();
            assert forall|g: u64| gm.contains_key(g) implies !#[trigger] gm[g].slots.contains(key_of(*k)) by {
                let j = choose|j: int| 0 <= j < self.group_ids@.len() && self.group_ids@[j] == g;
                self.lemma_group_at(j);
            }
        }
        None
    }
}

/// Where slot `k` sits in a list of slots, if it does.
fn slot_position(slots: &Vec<WindowLinkSlot>, k: &WindowLinkSlot) -> (r: Option<usize>)
    ensures
        match r {
            Some(i) => i < slots@.len() && key_of(slots@[i as int]) == key_of(*k) && forall|j: int|
                0 <= j < i ==> key_of(#[trigger] slots@[j]) != key_of(*k),
            None => !keys_of(slots@).contains(key_of(*k)),
        },
{
    let mut i: usize = 0;
    while i < slots.len()
        invariant
            i <= slots@.len(),
            forall|j: int| 0 <= j < i ==> key_of(#[trigger] slots@[j]) != key_of(*k),
        decreases slots@.len() - i,
    {
        if slot_eq(&slots[i], k) {
            return Some(i);
        }
        i = i + 1;
    }
    proof {
        if keys_of(slots@).contains(key_of(*k)) {
            let j = choose|j: int| 0 <= j < keys_of(slots@).len() && keys_of(slots@)[j] == key_of(*k);
            assert(key_of(slots@[j]) != key_of(*k));
        }
    }
    None
}

/// The slots linked with `k`: its group's, or `k` alone.
pub open spec fn linked_slots(groups: Map<u64, GroupView>, k: (Seq<char>, u32)) -> Seq<(Seq<char>, u32)> {
    match group_of(groups, k) {
        Some(g) => groups[g].slots,
        None => seq![k],
    }
}

/// The sessions of a list of slots, each once, in order of first
/// appearance.
pub open spec fn distinct_sessions(slots: Seq<(Seq<char>, u32)>) -> Seq<Seq<char>>
    decreases slots.len(),
{
    if slots.len() == 0 {
        Seq::empty()
    } else {
        let earlier = distinct_sessions(slots.drop_last());
        if earlier.contains(slots.last().0) {
            earlier
        } else {
            earlier.push(slots.last().0)
        }
    }
}

/// Whether a list of names holds `name`.
fn contains_name(names: &Vec<String>, name: &str) -> (r: bool)
    ensures
        r == names@.map_values(|n: String| n@).contains(name@),
{
    let ghost views = names@.map_values(|n: String| n@);
    let mut i: usize = 0;
    while i < names.len()
        invariant
            i <= names@.len(),
            views == names@.map_values(|n: String| n@),
            forall|j: int| 0 <= j < i ==> #[trigger] names@[j]@ != name@,
        decreases names@.len() - i,
    {
        if str_eq(names[i].as_str(), name) {
            assert(views[i as int] == name@);
            return true;
        }
        i = i + 1;
    }
    proof {
        if views.contains(name@) {
            let j = choose|j: int| 0 <= j < views.len() && views[j] == name@;
            assert(names@[j]@ != name@);
        }
    }
    false
}

/// The sessions of a list of slots, each once, in order of first
/// appearance.
fn sessions_of(slots: &Vec<WindowLinkSlot>) -> (names: Vec<String>)
    ensures
        names@.map_values(|n: String| n@) == distinct_sessions(keys_of(slots@)),
{
    let mut names: Vec<String> = Vec::new();
    let mut i: usize = 0;
    while i < slots.len()
        invariant
            i <= slots@.len(),
            names@.map_values(|n: String| n@) == distinct_sessions(keys_of(slots@.subrange(0, i as int))),
        decreases slots@.len() - i,
    {
        let name = slots[i].session_name.as_str();
        proof {
            let prefix = keys_of(slots@.subrange(0, i + 1));
            assert(prefix.drop_last() =~= keys_of(slots@.subrange(0, i as int)));
            assert(prefix.last() == key_of(slots@[i as int]));
        }
        if !contains_name(&names, name) {
            let ghost before = names@;
            names.push(name.to_owned());
            proof {
                assert(names@.map_values(|n: String| n@) =~= before.map_values(|n: String| n@).push(name@));
            }
        }
        i = i + 1;
    }
    assert(slots@.subrange(0, slots@.len() as int) =~= slots@);
    names
}

impl WindowLinks {
    /// How many slots show the window at `window_index` of `session_name`:
    /// its group's slots, or one when it is not linked.
    pub fn window_link_count(&self, session_name: &str, window_index: u32) -> (n: usize)
        requires
            self.wf(),
        ensures
            n == match group_of(self.group_map(), (session_name@, window_index)) {
                Some(g) => self.group_map()[g].slots.len(),
                None => 1,
            },
    {
        let k = slot(session_name, window_index);
        match self.find_group(&k) {
            Some(i) => {
                proof { self.lemma_group_at(i as int); }
                self.groups[i].slots.len()
            },
            None => 1,
        }
    }

    /// The slots that show the same window: its group's, or the slot alone.
    pub fn window_link_slots_for(&self, session_name: &str, window_index: u32) -> (slots: Vec<WindowLinkSlot>)
        requires
            self.wf(),
        ensures
            keys_of(slots@) == linked_slots(self.group_map(), (session_name@, window_index)),
    {
        let k = slot(session_name, window_index);
        match self.find_group(&k) {
            Some(i) => {
                proof { self.lemma_group_at(i as int); }
                let mut out: Vec<WindowLinkSlot> = Vec::new();
                let mut j: usize = 0;
                while j < self.groups[i].slots.len()
                    invariant
                        i < self.groups@.len(),
                        j <= self.groups@[i as int].slots@.len(),
                        keys_of(out@) == keys_of(self.groups@[i as int].slots@.subrange(0, j as int)),
                    decreases self.groups@[i as int].slots@.len() - j,
                {
                    let ghost before = out@;
                    out.push(copy_slot(&self.groups[i].slots[j]));
                    proof {
                        let src = self.groups@[i as int].slots@;
                        assert(src.subrange(0, j + 1) =~= src.subrange(0, j as int).push(src[j as int]));
                        assert(out@ =~= before.push(out@.last()));
                        assert(keys_of(out@) =~= keys_of(before).push(key_of(out@.last())));
                        assert(keys_of(src.subrange(0, j + 1)) =~= keys_of(src.subrange(0, j as int)).push(
                            key_of(src[j as int]),
                        ));
                    }
                    j = j + 1;
                }
                assert(self.groups@[i as int].slots@.subrange(0, j as int) =~= self.groups@[i as int].slots@);
                out
            },
            None => {
                let out = vec![k];
                assert(keys_of(out@) =~= seq![(session_name@, window_index)]);
                out
            },
        }
    }

    /// The sessions that show the same window, each once, in order; the
    /// session alone when the window is not linked.
    pub fn window_linked_sessions_list(&self, session_name: &str, window_index: u32) -> (names: Vec<String>)
        requires
            self.wf(),
        ensures
            names@.map_values(|n: String| n@) == match group_of(self.group_map(), (session_name@, window_index)) {
                Some(g) => distinct_sessions(self.group_map()[g].slots),
                None => seq![session_name@],
            },
    {
        let k = slot(session_name, window_index);
        match self.find_group(&k) {
            Some(i) => {
                proof { self.lemma_group_at(i as int); }
                sessions_of(&self.groups[i].slots)
            },
            None => {
                let names = vec![session_name.to_owned()];
                assert(names@.map_values(|n: String| n@) =~= seq![session_name@]);
                names
            },
        }
    }

    /// How many sessions show the same window; one when it is not linked.
    pub fn window_linked_session_count(&self, session_name: &str, window_index: u32) -> (n: usize)
        requires
            self.wf(),
        ensures
            n == match group_of(self.group_map(), (session_name@, window_index)) {
                Some(g) => distinct_sessions(self.group_map()[g].slots).len(),
                None => 1,
            },
    {
        let names = self.window_linked_sessions_list(session_name, window_index);
        assert(names@.map_values(|n: String| n@).len() == names@.len());
        names.len()
    }

    /// The session that runs the panes of the window at `window_index` of
    /// `session_name`: the runtime session of the slot's group, else of the
    /// group of the first other member of its session group (`members`, in
    /// order) whose slot at that index is linked, else `own_runtime`, the
    /// runtime session of `session_name` itself.
    pub fn runtime_session_name_for_window(
        &self,
        session_name: &str,
        window_index: u32,
        members: &Vec<String>,
        own_runtime: &str,
    ) -> (r: String)
        requires
            self.wf(),
        ensures
            r@ == match group_for_slot_or_peer(
                self.group_map(),
                session_name@,
                window_index,
                members@.map_values(|m: String| m@),
            ) {
                Some(g) => self.group_map()[g].runtime,
                None => own_runtime@,
            },
    {
        let ghost gm = self.group_map();
        let ghost ms = members@.map_values(|m: String| m@);
        let k = slot(session_name, window_index);
        if let Some(i) = self.find_group(&k) {
            proof {
                self.lemma_group_at(i as int);
            }
            return self.groups[i].runtime_session_name.clone();
        }
        assert(ms.subrange(0, ms.len() as int) =~= ms);
        let mut j: usize = 0;
        while j < members.len()
            invariant
                self.wf(),
                gm == self.group_map(),
                ms == members@.map_values(|m: String| m@),
                j <= members@.len(),
                group_of(gm, (session_name@, window_index)) is None,
                peer_group(gm, session_name@, window_index, ms) == peer_group(
                    gm,
                    session_name@,
                    window_index,
                    ms.subrange(j as int, ms.len() as int),
                ),
            decreases members@.len() - j,
        {
            proof {
                let rest = ms.subrange(j as int, ms.len() as int);
                assert(rest[0] == members@[j as int]@);
                assert(rest.drop_first() =~= ms.subrange(j + 1, ms.len() as int));
            }
            if !str_eq(members[j].as_str(), session_name) {
                let peer = slot(members[j].as_str(), window_index);
                if let Some(i) = self.find_group(&peer) {
                    proof {
                        self.lemma_group_at(i as int);
                    }
                    return self.groups[i].runtime_session_name.clone();
                }
            }
            j = j + 1;
        }
        own_runtime.to_owned()
    }
}

/// The group of the first member other than `session` whose slot at
/// `index` is linked.
pub open spec fn peer_group(groups: Map<u64, GroupView>, session: Seq<char>, index: u32, members: Seq<Seq<char>>) -> Option<u64>
    decreases members.len(),
{
    if members.len() == 0 {
        None
    } else if members[0] != session && group_of(groups, (members[0], index)) is Some {
        group_of(groups, (members[0], index))
    } else {
        peer_group(groups, session, index, members.drop_first())
    }
}

/// The group of a slot, or else of the same index in a peer session.
pub open spec fn group_for_slot_or_peer(groups: Map<u64, GroupView>, session: Seq<char>, index: u32, members: Seq<Seq<char>>) -> Option<u64> {
    match group_of(groups, (session, index)) {
        Some(g) => Some(g),
        None => peer_group(groups, session, index, members),
    }
}

/// The table after slot `k` leaves its group, and how many slots still
/// show the window (at least one): the group loses the slot, and a group
/// left with one slot or none is dissolved.
pub open spec fn spec_detach(groups: Map<u64, GroupView>, k: (Seq<char>, u32)) -> (Map<u64, GroupView>, usize) {
    match group_of(groups, k) {
        None => (groups, 1),
        Some(g) => {
            let rest = groups[g].slots.remove(groups[g].slots.index_of(k));
            if rest.len() <= 1 {
                (groups.remove(g), 1)
            } else {
                (groups.insert(g, GroupView { runtime: groups[g].runtime, slots: rest }), rest.len() as usize)
            }
        },
    }
}

/// A list without its element at `p` keeps no duplicates and holds only
/// what the list held.
proof fn lemma_remove_keeps(s: Seq<(Seq<char>, u32)>, p: int)
    requires
        s.no_duplicates(),
        0 <= p < s.len(),
    ensures
        s.remove(p).no_duplicates(),
        forall|x: (Seq<char>, u32)| #[trigger] s.remove(p).contains(x) ==> s.contains(x),
        !s.remove(p).contains(s[p]),
{
    let r = s.remove(p);
    assert forall|a: int, b: int| 0 <= a < r.len() && 0 <= b < r.len() && a != b implies r[a] != r[b] by {
        let a0 = if a < p { a } else { a + 1 };
        let b0 = if b < p { b } else { b + 1 };
        assert(r[a] == s[a0] && r[b] == s[b0]);
    }
    assert forall|x: (Seq<char>, u32)| #[trigger] r.contains(x) implies s.contains(x) by {
        let a = choose|a: int| 0 <= a < r.len() && r[a] == x;
        let a0 = if a < p { a } else { a + 1 };
        assert(s[a0] == x);
    }
    if r.contains(s[p]) {
        let a = choose|a: int| 0 <= a < r.len() && r[a] == s[p];
        let a0 = if a < p { a } else { a + 1 };
        assert(s[a0] == s[p]);
    }
}

/// In a list without duplicates, the index of an element is where it sits.
proof fn lemma_index_of_unique(s: Seq<(Seq<char>, u32)>, p: int)
    requires
        s.no_duplicates(),
        0 <= p < s.len(),
    ensures
        s.index_of(s[p]) == p,
{
    assert(s.contains(s[p]));
    let q = s.index_of(s[p]);
    assert(0 <= q < s.len() && s[q] == s[p]);
}

/// The first `j` elements of a list, without the one at `p`.
pub open spec fn prefix_without(s: Seq<(Seq<char>, u32)>, p: int, j: int) -> Seq<(Seq<char>, u32)> {
    if j <= p {
        s.subrange(0, j)
    } else {
        s.subrange(0, j).remove(p)
    }
}

/// The slots without the one at `p`.
fn without_slot(slots: &Vec<WindowLinkSlot>, p: usize) -> (out: Vec<WindowLinkSlot>)
    requires
        p < slots@.len(),
    ensures
        keys_of(out@) == keys_of(slots@).remove(p as int),
{
    let ghost keys = keys_of(slots@);
    let mut out: Vec<WindowLinkSlot> = Vec::new();
    let mut j: usize = 0;
    while j < slots.len()
        invariant
            p < slots@.len(),
            j <= slots@.len(),
            keys == keys_of(slots@),
            keys_of(out@) == prefix_without(keys, p as int, j as int),
        decreases slots@.len() - j,
    {
        let ghost before = out@;
        if j != p {
            out.push(copy_slot(&slots[j]));
            proof {
                assert(keys_of(out@) =~= keys_of(before).push(key_of(slots@[j as int])));
            }
        }
        proof {
            assert(keys.subrange(0, j + 1) =~= keys.subrange(0, j as int).push(keys[j as int]));
            if j < p {
                assert(prefix_without(keys, p as int, j + 1) =~= prefix_without(keys, p as int, j as int).push(keys[j as int]));
            } else if j == p {
                assert(prefix_without(keys, p as int, j + 1) =~= keys.subrange(0, j as int));
            } else {
                assert(prefix_without(keys, p as int, j + 1) =~= prefix_without(keys, p as int, j as int).push(keys[j as int]));
            }
        }
        j = j + 1;
    }
    assert(keys.subrange(0, keys.len() as int) =~= keys);
    out
}

/// Shrinking a group to some of its slots keeps slots unshared.
proof fn lemma_disjoint_after_shrink(
    groups: Map<u64, GroupView>,
    g: u64,
    runtime: Seq<char>,
    rest: Seq<(Seq<char>, u32)>,
)
    requires
        slots_disjoint(groups),
        groups.contains_key(g),
        rest.no_duplicates(),
        forall|x: (Seq<char>, u32)| #[trigger] rest.contains(x) ==> groups[g].slots.contains(x),
    ensures
        slots_disjoint(groups.insert(g, GroupView { runtime, slots: rest })),
{
    let after = groups.insert(g, GroupView { runtime, slots: rest });
    assert forall|a: u64, b: u64, k: (Seq<char>, u32)|
        after.contains_key(a) && after.contains_key(b) && #[trigger] after[a].slots.contains(k)
            && #[trigger] after[b].slots.contains(k) implies a == b by {
        assert(groups[a].slots.contains(k));
        assert(groups[b].slots.contains(k));
    }
}

/// Dissolving a group keeps slots unshared.
proof fn lemma_disjoint_after_remove(groups: Map<u64, GroupView>, g: u64)
    requires
        slots_disjoint(groups),
    ensures
        slots_disjoint(groups.remove(g)),
{
    let after = groups.remove(g);
    assert forall|a: u64, b: u64, k: (Seq<char>, u32)|
        after.contains_key(a) && after.contains_key(b) && #[trigger] after[a].slots.contains(k)
            && #[trigger] after[b].slots.contains(k) implies a == b by {
        assert(groups[a].slots.contains(k));
        assert(groups[b].slots.contains(k));
    }
}

impl WindowLinks {
    /// Takes the window at `window_index` of `session_name` out of its link
    /// group, and says how many slots still show the window (at least one).
    pub fn detach_window_link_slot(&mut self, session_name: &str, window_index: u32) -> (n: usize)
        requires
            old(self).wf(),
        ensures
            final(self).wf(),
            (final(self).group_map(), n) == spec_detach(old(self).group_map(), (session_name@, window_index)),
            final(self).next_id() == old(self).next_id(),
    {
        let k = slot(session_name, window_index);
        let i = match self.find_group(&k) {
            None => return 1,
            Some(i) => i,
        };
        let ghost gm = self.group_map();
        let ghost g = self.group_ids@[i as int];
        proof {
            self.lemma_group_at(i as int);
        }
        let p = match slot_position(&self.groups[i].slots, &k) {
            Some(p) => p,
            None => {
                proof {
                    assert(false);
                }
                return 1;
            },
        };
        let rest = without_slot(&self.groups[i].slots, p);
        proof {
            let ks = keys_of(self.groups@[i as int].slots@);
            assert(ks[p as int] == key_of(k));
            assert(gm[g].slots == ks);
            lemma_index_of_unique(ks, p as int);
            lemma_remove_keeps(ks, p as int);
        }
        if rest.len() <= 1 {
            let ghost ids = self.group_ids@;
            let ghost gs = self.groups@;
            self.groups.remove(i);
            self.group_ids.remove(i);
            proof {
                lemma_groups_map_remove(ids, gs, i as int);
                lemma_disjoint_after_remove(gm, g);
            }
            1
        } else {
            let runtime = self.groups[i].runtime_session_name.clone();
            let n = rest.len();
            let ghost ids = self.group_ids@;
            let ghost gs = self.groups@;
            let group = WindowLinkGroup { runtime_session_name: runtime, slots: rest };
            self.groups.set(i, group);
            proof {
                lemma_groups_map_set(ids, gs, i as int, group);
                lemma_disjoint_after_shrink(gm, g, gm[g].runtime, group_view(group).slots);
                assert(self.group_map() =~= gm.insert(g, GroupView { runtime: gm[g].runtime, slots: group_view(group).slots }));
            }
            n
        }
    }
}

/// The table after linking the window at `dst` to the one at `src`: `dst`
/// first leaves its own group; then it joins `src`'s group, or a new group
/// of the two, running in `runtime`, is made under the next id.
pub open spec fn spec_attach(
    groups: Map<u64, GroupView>,
    next: u64,
    src: (Seq<char>, u32),
    dst: (Seq<char>, u32),
    runtime: Seq<char>,
) -> (Map<u64, GroupView>, u64) {
    let detached = spec_detach(groups, dst).0;
    match group_of(detached, src) {
        Some(g) => (if detached[g].slots.contains(dst) {
            detached
        } else {
            detached.insert(g, GroupView { runtime: detached[g].runtime, slots: detached[g].slots.push(dst) })
        }, next),
        None => (detached.insert(
            next,
            GroupView {
                runtime,
                slots: if src == dst {
                    seq![src]
                } else {
                    seq![src, dst]
                },
            },
        ), (next + 1) as u64),
    }
}

/// A slot taken out of its group is in no group.
proof fn lemma_detached_slot_unlinked(groups: Map<u64, GroupView>, k: (Seq<char>, u32))
    requires
        slots_disjoint(groups),
    ensures
        group_of(spec_detach(groups, k).0, k) is None,
        slots_disjoint(spec_detach(groups, k).0),
        forall|x: (Seq<char>, u32)| x != k ==> group_of(spec_detach(groups, k).0, x) == (match group_of(groups, x) {
            Some(g) => if spec_detach(groups, k).0.contains_key(g) { Some(g) } else { None::<u64> },
            None => None::<u64>,
        }),
{
    let after = spec_detach(groups, k).0;
    match group_of(groups, k) {
        None => {},
        Some(g) => {
            let ks = groups[g].slots;
            let p = ks.index_of(k);
            assert(groups.contains_key(g) && ks.contains(k));
            lemma_remove_keeps(ks, p);
            let rest = ks.remove(p);
            if rest.len() <= 1 {
                lemma_disjoint_after_remove(groups, g);
            } else {
                lemma_disjoint_after_shrink(groups, g, groups[g].runtime, rest);
            }
            assert forall|h: u64| after.contains_key(h) implies !#[trigger] after[h].slots.contains(k) by {
                if h != g {
                    if groups[h].slots.contains(k) {
                        assert(h == g);
                    }
                }
            }
            assert forall|x: (Seq<char>, u32)| x != k implies group_of(after, x) == (match group_of(groups, x) {
                Some(g2) => if after.contains_key(g2) { Some(g2) } else { None::<u64> },
                None => None::<u64>,
            }) by {
                match group_of(groups, x) {
                    Some(g2) => {
                        assert(groups.contains_key(g2) && groups[g2].slots.contains(x));
                        if after.contains_key(g2) {
                            if g2 == g {
                                let q = choose|q: int| 0 <= q < ks.len() && ks[q] == x;
                                assert(q != p);
                                let q2 = if q < p { q } else { q - 1 };
                                assert(rest[q2] == x);
                            }
                            assert(after[g2].slots.contains(x));
                            let h = choose|h: u64| after.contains_key(h) && #[trigger] after[h].slots.contains(x);
                            if rest.len() > 1 && h == g {
                                assert(groups[g].slots.contains(x));
                            } else {
                                assert(groups[h].slots.contains(x));
                            }
                        } else {
                            assert forall|h: u64| after.contains_key(h) implies !#[trigger] after[h].slots.contains(x) by {
                                if after[h].slots.contains(x) {
                                    if h == g {
                                        assert(groups[g].slots.contains(x));
                                    } else {
                                        assert(groups[h].slots.contains(x));
                                    }
                                }
                            }
                        }
                    },
                    None => {
                        assert forall|h: u64| after.contains_key(h) implies !#[trigger] after[h].slots.contains(x) by {
                            if after[h].slots.contains(x) {
                                if h == g {
                                    assert(groups[g].slots.contains(x));
                                } else {
                                    assert(groups[h].slots.contains(x));
                                }
                            }
                        }
                    },
                }
            }
        },
    }
}

/// The slots with `d` added at the end.
fn with_slot(slots: &Vec<WindowLinkSlot>, d: &WindowLinkSlot) -> (out: Vec<WindowLinkSlot>)
    ensures
        keys_of(out@) == keys_of(slots@).push(key_of(*d)),
{
    let mut out: Vec<WindowLinkSlot> = Vec::new();
    let mut j: usize = 0;
    while j < slots.len()
        invariant
            j <= slots@.len(),
            keys_of(out@) == keys_of(slots@.subrange(0, j as int)),
        decreases slots@.len() - j,
    {
        let ghost before = out@;
        out.push(copy_slot(&slots[j]));
        proof {
            let src = slots@;
            assert(src.subrange(0, j + 1) =~= src.subrange(0, j as int).push(src[j as int]));
            assert(keys_of(out@) =~= keys_of(before).push(key_of(src[j as int])));
            assert(keys_of(src.subrange(0, j + 1)) =~= keys_of(src.subrange(0, j as int)).push(key_of(src[j as int])));
        }
        j = j + 1;
    }
    let ghost before = out@;
    out.push(copy_slot(d));
    proof {
        assert(slots@.subrange(0, slots@.len() as int) =~= slots@);
        assert(keys_of(out@) =~= keys_of(before).push(key_of(*d)));
    }
    out
}

impl WindowLinks {
    /// Links the window at `dst_index` of `dst_session` to the one at
    /// `src_index` of `src_session`. A new group runs in
    /// `src_runtime_session`, the session that runs the source window.
    pub fn attach_window_link_slot(
        &mut self,
        src_session: &str,
        src_index: u32,
        dst_session: &str,
        dst_index: u32,
        src_runtime_session: &str,
    )
        requires
            old(self).wf(),
            old(self).next_id() < u64::MAX,
        ensures
            final(self).wf(),
            (final(self).group_map(), final(self).next_id()) == spec_attach(
                old(self).group_map(),
                old(self).next_id(),
                (src_session@, src_index),
                (dst_session@, dst_index),
                src_runtime_session@,
            ),
            group_of(final(self).group_map(), (src_session@, src_index)) is Some,
            group_of(final(self).group_map(), (dst_session@, dst_index)) == group_of(
                final(self).group_map(),
                (src_session@, src_index),
            ),
    {
        let ghost gm0 = self.group_map();
        let _ = self.detach_window_link_slot(dst_session, dst_index);
        let ghost gm = self.group_map();
        let src = slot(src_session, src_index);
        let dst = slot(dst_session, dst_index);
        proof {
            lemma_detached_slot_unlinked(gm0, key_of(dst));
        }
        match self.find_group(&src) {
            Some(i) => {
                let ghost g = self.group_ids@[i as int];
                proof {
                    self.lemma_group_at(i as int);
                }
                let found = slot_position(&self.groups[i].slots, &dst);
                if found.is_none() {
                    let slots = with_slot(&self.groups[i].slots, &dst);
                    let runtime = self.groups[i].runtime_session_name.clone();
                    let ghost ids = self.group_ids@;
                    let ghost gs = self.groups@;
                    let group = WindowLinkGroup { runtime_session_name: runtime, slots };
                    self.groups.set(i, group);
                    proof {
                        lemma_groups_map_set(ids, gs, i as int, group);
                        let after = self.group_map();
                        assert(after =~= gm.insert(g, GroupView { runtime: gm[g].runtime, slots: gm[g].slots.push(key_of(dst)) }));
                        lemma_disjoint_after_join(gm, g, key_of(dst));
                        assert(after[g].slots.contains(key_of(dst))) by {
                            assert(after[g].slots[after[g].slots.len() - 1] == key_of(dst));
                        }
                        assert(after[g].slots.contains(key_of(src))) by {
                            let q = choose|q: int| 0 <= q < gm[g].slots.len() && gm[g].slots[q] == key_of(src);
                            assert(after[g].slots[q] == key_of(src));
                        }
                        lemma_group_of_is(after, g, key_of(src));
                        lemma_group_of_is(after, g, key_of(dst));
                    }
                } else {
                    proof {
                        let q = found->Some_0;
                        assert(keys_of(self.groups@[i as int].slots@)[q as int] == key_of(dst));
                        assert(gm[g].slots.contains(key_of(dst)));
                        lemma_group_of_is(gm, g, key_of(dst));
                    }
                }
            },
            None => {
                let id = self.next_group_id;
                self.next_group_id = id + 1;
                let slots = if slot_eq(&src, &dst) {
                    vec![src]
                } else {
                    vec![src, dst]
                };
                let ghost ids = self.group_ids@;
                let ghost gs = self.groups@;
                let group = WindowLinkGroup { runtime_session_name: src_runtime_session.to_owned(), slots };
                proof {
                    assert(!gm.contains_key(id));
                }
                self.group_ids.push(id);
                self.groups.push(group);
                proof {
                    lemma_groups_map_push(ids, gs, id, group);
                    let after = self.group_map();
                    let ks = group_view(group).slots;
                    if key_of(src) == key_of(dst) {
                        assert(ks =~= seq![key_of(src)]);
                    } else {
                        assert(ks =~= seq![key_of(src), key_of(dst)]);
                    }
                    lemma_disjoint_after_new(gm, id, src_runtime_session@, ks);
                    assert(ks[0] == key_of(src));
                    assert(ks[ks.len() - 1] == key_of(dst));
                    lemma_group_of_is(after, id, key_of(src));
                    lemma_group_of_is(after, id, key_of(dst));
                }
            },
        }
    }
}

/// A slot listed by group `g` of a table whose slots are unshared is in `g`.
proof fn lemma_group_of_is(groups: Map<u64, GroupView>, g: u64, k: (Seq<char>, u32))
    requires
        slots_disjoint(groups),
        groups.contains_key(g),
        groups[g].slots.contains(k),
    ensures
        group_of(groups, k) == Some(g),
{
    let h = choose|h: u64| groups.contains_key(h) && #[trigger] groups[h].slots.contains(k);
    assert(groups.contains_key(h) && groups[h].slots.contains(k));
}

/// Adding an unlinked slot to a group keeps slots unshared.
proof fn lemma_disjoint_after_join(groups: Map<u64, GroupView>, g: u64, k: (Seq<char>, u32))
    requires
        slots_disjoint(groups),
        groups.contains_key(g),
        group_of(groups, k) is None,
    ensures
        slots_disjoint(groups.insert(g, GroupView { runtime: groups[g].runtime, slots: groups[g].slots.push(k) })),
{
    let s2 = groups[g].slots.push(k);
    let after = groups.insert(g, GroupView { runtime: groups[g].runtime, slots: s2 });
    assert(!groups[g].slots.contains(k));
    assert forall|a: int, b: int| 0 <= a < s2.len() && 0 <= b < s2.len() && a != b implies s2[a] != s2[b] by {
        if a == s2.len() - 1 {
            assert(groups[g].slots[b] == s2[b]);
        } else if b == s2.len() - 1 {
            assert(groups[g].slots[a] == s2[a]);
        } else {
            assert(groups[g].slots[a] == s2[a] && groups[g].slots[b] == s2[b]);
        }
    }
    assert forall|a: u64, b: u64, x: (Seq<char>, u32)|
        after.contains_key(a) && after.contains_key(b) && #[trigger] after[a].slots.contains(x)
            && #[trigger] after[b].slots.contains(x) implies a == b by {
        if x == k {
            if a != g {
                assert(groups[a].slots.contains(k));
            }
            if b != g {
                assert(groups[b].slots.contains(k));
            }
        } else {
            if a == g {
                let q = choose|q: int| 0 <= q < s2.len() && s2[q] == x;
                assert(groups[g].slots[q] == x);
            }
            if b == g {
                let q = choose|q: int| 0 <= q < s2.len() && s2[q] == x;
                assert(groups[g].slots[q] == x);
            }
            assert(groups[a].slots.contains(x));
            assert(groups[b].slots.contains(x));
        }
    }
}

/// A new group of unlinked, distinct slots keeps slots unshared.
proof fn lemma_disjoint_after_new(groups: Map<u64, GroupView>, id: u64, runtime: Seq<char>, ks: Seq<(Seq<char>, u32)>)
    requires
        slots_disjoint(groups),
        !groups.contains_key(id),
        ks.no_duplicates(),
        forall|x: (Seq<char>, u32)| #[trigger] ks.contains(x) ==> group_of(groups, x) is None,
    ensures
        slots_disjoint(groups.insert(id, GroupView { runtime, slots: ks })),
{
    let after = groups.insert(id, GroupView { runtime, slots: ks });
    assert forall|a: u64, b: u64, x: (Seq<char>, u32)|
        after.contains_key(a) && after.contains_key(b) && #[trigger] after[a].slots.contains(x)
            && #[trigger] after[b].slots.contains(x) implies a == b by {
        if a == id && b != id {
            assert(ks.contains(x));
            assert(groups[b].slots.contains(x));
        } else if b == id && a != id {
            assert(ks.contains(x));
            assert(groups[a].slots.contains(x));
        } else if a != id && b != id {
            assert(groups[a].slots.contains(x));
            assert(groups[b].slots.contains(x));
        }
    }
}

/// Slot `k` with `a` and `b` exchanged.
pub open spec fn swap_key(k: (Seq<char>, u32), a: (Seq<char>, u32), b: (Seq<char>, u32)) -> (Seq<char>, u32) {
    if k == a {
        b
    } else if k == b {
        a
    } else {
        k
    }
}

/// A list of slots with `a` and `b` exchanged.
pub open spec fn swap_keys(s: Seq<(Seq<char>, u32)>, a: (Seq<char>, u32), b: (Seq<char>, u32)) -> Seq<(Seq<char>, u32)> {
    s.map_values(|k: (Seq<char>, u32)| swap_key(k, a, b))
}

/// A group with slots `a` and `b` exchanged.
pub open spec fn swapped(v: GroupView, a: (Seq<char>, u32), b: (Seq<char>, u32)) -> GroupView {
    GroupView { runtime: v.runtime, slots: swap_keys(v.slots, a, b) }
}

/// Exchanges `a` and `b` in the group `g`, if there is one.
pub open spec fn swap_in(groups: Map<u64, GroupView>, g: Option<u64>, a: (Seq<char>, u32), b: (Seq<char>, u32)) -> Map<u64, GroupView> {
    match g {
        Some(id) => groups.insert(id, swapped(groups[id], a, b)),
        None => groups,
    }
}

/// The table after two windows of a session exchange indices: the group of
/// each slot has it replaced by the other (so a group holding both is left
/// as it was).
pub open spec fn spec_swap(groups: Map<u64, GroupView>, a: (Seq<char>, u32), b: (Seq<char>, u32)) -> Map<u64, GroupView> {
    if a == b {
        groups
    } else {
        swap_in(swap_in(groups, group_of(groups, a), a, b), group_of(groups, b), a, b)
    }
}

/// The slots with `a` and `b` exchanged.
fn swapped_slots(slots: &Vec<WindowLinkSlot>, a: &WindowLinkSlot, b: &WindowLinkSlot) -> (out: Vec<WindowLinkSlot>)
    ensures
        keys_of(out@) == swap_keys(keys_of(slots@), key_of(*a), key_of(*b)),
{
    let ghost f = |k: (Seq<char>, u32)| swap_key(k, key_of(*a), key_of(*b));
    let mut out: Vec<WindowLinkSlot> = Vec::new();
    let mut j: usize = 0;
    while j < slots.len()
        invariant
            j <= slots@.len(),
            f == (|k: (Seq<char>, u32)| swap_key(k, key_of(*a), key_of(*b))),
            keys_of(out@) == keys_of(slots@.subrange(0, j as int)).map_values(f),
        decreases slots@.len() - j,
    {
        let ghost before = out@;
        let next = if slot_eq(&slots[j], a) {
            copy_slot(b)
        } else if slot_eq(&slots[j], b) {
            copy_slot(a)
        } else {
            copy_slot(&slots[j])
        };
        out.push(next);
        proof {
            let src = slots@;
            assert(src.subrange(0, j + 1) =~= src.subrange(0, j as int).push(src[j as int]));
            assert(keys_of(out@) =~= keys_of(before).push(key_of(next)));
            assert(keys_of(src.subrange(0, j + 1)) =~= keys_of(src.subrange(0, j as int)).push(key_of(src[j as int])));
            assert(keys_of(src.subrange(0, j + 1)).map_values(f) =~= keys_of(src.subrange(0, j as int)).map_values(f).push(
                f(key_of(src[j as int])),
            ));
        }
        j = j + 1;
    }
    assert(slots@.subrange(0, slots@.len() as int) =~= slots@);
    out
}

/// What a group of the swapped table holds: exactly the exchanged slots of
/// the group before; and no slot is repeated.
proof fn lemma_swap_contents(groups: Map<u64, GroupView>, a: (Seq<char>, u32), b: (Seq<char>, u32))
    requires
        slots_disjoint(groups),
        a != b,
    ensures
        spec_swap(groups, a, b).dom() == groups.dom(),
        forall|g: u64, x: (Seq<char>, u32)|
            groups.contains_key(g) ==> (#[trigger] spec_swap(groups, a, b)[g].slots.contains(x)
                <==> groups[g].slots.contains(swap_key(x, a, b))),
        forall|g: u64| groups.contains_key(g) ==> #[trigger] spec_swap(groups, a, b)[g].slots.no_duplicates(),
        forall|g: u64| groups.contains_key(g) ==> #[trigger] spec_swap(groups, a, b)[g].runtime == groups[g].runtime,
{
    let ga = group_of(groups, a);
    let gb = group_of(groups, b);
    let once = swap_in(groups, ga, a, b);
    let result = spec_swap(groups, a, b);
    assert(once.dom() =~= groups.dom());
    assert(result.dom() =~= groups.dom());
    assert forall|g: u64, x: (Seq<char>, u32)| groups.contains_key(g) implies (#[trigger] result[g].slots.contains(x)
        <==> groups[g].slots.contains(swap_key(x, a, b))) && result[g].slots.no_duplicates()
        && result[g].runtime == groups[g].runtime by {
        let s = groups[g].slots;
        let times: int = (if ga == Some(g) { 1int } else { 0int }) + (if gb == Some(g) { 1int } else { 0int });
        lemma_swap_map(s, a, b);
        lemma_swap_map(swap_keys(s, a, b), a, b);
        if times == 2 {
            assert(result[g].slots == swap_keys(swap_keys(s, a, b), a, b));
            assert(swap_keys(swap_keys(s, a, b), a, b) =~= s);
            assert forall|x2: (Seq<char>, u32)| s.contains(x2) <==> s.contains(swap_key(x2, a, b)) by {
                if x2 == a || x2 == b {
                    assert(groups[g].slots.contains(a) && groups[g].slots.contains(b)) by {
                        let ha = choose|h: u64| groups.contains_key(h) && #[trigger] groups[h].slots.contains(a);
                        let hb = choose|h: u64| groups.contains_key(h) && #[trigger] groups[h].slots.contains(b);
                        assert(ha == g && hb == g);
                    }
                }
            }
        } else if times == 1 {
            assert(result[g].slots == swap_keys(s, a, b));
        } else {
            assert(result[g].slots == s);
            assert forall|x2: (Seq<char>, u32)| s.contains(x2) <==> s.contains(swap_key(x2, a, b)) by {
                if s.contains(a) {
                    assert(group_of(groups, a) == Some(g)) by {
                        lemma_group_of_is(groups, g, a);
                    }
                }
                if s.contains(b) {
                    assert(group_of(groups, b) == Some(g)) by {
                        lemma_group_of_is(groups, g, b);
                    }
                }
            }
        }
    }
}

/// Exchanging two distinct slots is one to one: the exchanged list holds a
/// slot exactly when the list holds its exchange, and repeats nothing when
/// the list repeats nothing.
proof fn lemma_swap_map(s: Seq<(Seq<char>, u32)>, a: (Seq<char>, u32), b: (Seq<char>, u32))
    requires
        a != b,
    ensures
        forall|x: (Seq<char>, u32)| #[trigger] swap_keys(s, a, b).contains(x) <==> s.contains(swap_key(x, a, b)),
        s.no_duplicates() ==> swap_keys(s, a, b).no_duplicates(),
{
    let m = swap_keys(s, a, b);
    assert forall|x: (Seq<char>, u32)| #[trigger] m.contains(x) <==> s.contains(swap_key(x, a, b)) by {
        if m.contains(x) {
            let i = choose|i: int| 0 <= i < m.len() && m[i] == x;
            assert(s[i] == swap_key(x, a, b));
        }
        if s.contains(swap_key(x, a, b)) {
            let i = choose|i: int| 0 <= i < s.len() && s[i] == swap_key(x, a, b);
            assert(m[i] == x);
        }
    }
    if s.no_duplicates() {
        assert forall|i: int, j: int| 0 <= i < m.len() && 0 <= j < m.len() && i != j implies m[i] != m[j] by {
            assert(s[i] != s[j]);
        }
    }
}

impl WindowLinks {
    /// Exchanges the windows at two indices of a session in the link table.
    pub fn swap_window_link_slots(&mut self, session_name: &str, a: u32, b: u32)
        requires
            old(self).wf(),
        ensures
            final(self).wf(),
            final(self).group_map() == spec_swap(
                old(self).group_map(),
                (session_name@, a),
                (session_name@, b),
            ),
            final(self).next_id() == old(self).next_id(),
    {
        if a == b {
            return;
        }
        let ghost gm = self.group_map();
        let sa = slot(session_name, a);
        let sb = slot(session_name, b);
        let ga = self.find_group(&sa);
        let gb = self.find_group(&sb);
        let ghost once_ids = self.group_ids@;
        proof {
            lemma_swap_contents(gm, key_of(sa), key_of(sb));
        }
        if let Some(i) = ga {
            proof { self.lemma_group_at(i as int); }
            let slots = swapped_slots(&self.groups[i].slots, &sa, &sb);
            let runtime = self.groups[i].runtime_session_name.clone();
            let ghost gs = self.groups@;
            let group = WindowLinkGroup { runtime_session_name: runtime, slots };
            self.groups.set(i, group);
            proof {
                lemma_groups_map_set(once_ids, gs, i as int, group);
                assert(group_view(group) == swapped(gm[self.group_ids@[i as int]], key_of(sa), key_of(sb)));
            }
        }
        let ghost mid = self.group_map();
        assert(mid == swap_in(gm, group_of(gm, key_of(sa)), key_of(sa), key_of(sb)));
        if let Some(j) = gb {
            proof { lemma_groups_map_at(self.group_ids@, self.groups@, j as int); }
            let slots = swapped_slots(&self.groups[j].slots, &sa, &sb);
            let runtime = self.groups[j].runtime_session_name.clone();
            let ghost gs = self.groups@;
            let group = WindowLinkGroup { runtime_session_name: runtime, slots };
            self.groups.set(j, group);
            proof {
                lemma_groups_map_set(once_ids, gs, j as int, group);
                assert(group_view(group) == swapped(mid[self.group_ids@[j as int]], key_of(sa), key_of(sb)));
            }
        }
        proof {
            let result = self.group_map();
            assert(result == spec_swap(gm, key_of(sa), key_of(sb)));
            assert forall|g: u64, h: u64, x: (Seq<char>, u32)|
                result.contains_key(g) && result.contains_key(h) && #[trigger] result[g].slots.contains(x)
                    && #[trigger] result[h].slots.contains(x) implies g == h by {
                assert(gm[g].slots.contains(swap_key(x, key_of(sa), key_of(sb))));
                assert(gm[h].slots.contains(swap_key(x, key_of(sa), key_of(sb))));
            }
            assert forall|g: u64| #[trigger] result.contains_key(g) implies g < self.next_group_id by {
                assert(gm.contains_key(g));
            }
        }
    }
}

/// Slot `k` after session `from` is renamed `to`.
pub open spec fn renamed_key(k: (Seq<char>, u32), from: Seq<char>, to: Seq<char>) -> (Seq<char>, u32) {
    if k.0 == from {
        (to, k.1)
    } else {
        k
    }
}

/// A list of slots after session `from` is renamed `to`.
pub open spec fn renamed_keys(s: Seq<(Seq<char>, u32)>, from: Seq<char>, to: Seq<char>) -> Seq<(Seq<char>, u32)> {
    s.map_values(|k: (Seq<char>, u32)| renamed_key(k, from, to))
}

/// A group's runtime session after session `from` is renamed `to`.
pub open spec fn renamed_runtime(runtime: Seq<char>, from: Seq<char>, to: Seq<char>) -> Seq<char> {
    if runtime == from {
        to
    } else {
        runtime
    }
}

/// The table after session `from` is renamed `to`: its slots and the
/// groups it runs follow the new name.
pub open spec fn spec_rename(groups: Map<u64, GroupView>, from: Seq<char>, to: Seq<char>) -> Map<u64, GroupView> {
    Map::new(
        |g: u64| groups.contains_key(g),
        |g: u64| GroupView {
            runtime: renamed_runtime(groups[g].runtime, from, to),
            slots: renamed_keys(groups[g].slots, from, to),
        },
    )
}

/// The table after session `from` is renamed `to` in the groups' runtime
/// sessions only.
pub open spec fn spec_rename_runtime(groups: Map<u64, GroupView>, from: Seq<char>, to: Seq<char>) -> Map<u64, GroupView> {
    Map::new(
        |g: u64| groups.contains_key(g),
        |g: u64| GroupView { runtime: renamed_runtime(groups[g].runtime, from, to), slots: groups[g].slots },
    )
}

/// Whether some group lists a slot of session `name`.
pub open spec fn has_linked_slot_of(groups: Map<u64, GroupView>, name: Seq<char>) -> bool {
    exists|g: u64, i: int|
        groups.contains_key(g) && 0 <= i < groups[g].slots.len() && #[trigger] groups[g].slots[i].0 == name
}

/// The name a session has after `from` is renamed `to`.
fn renamed_name(name: &String, from: &str, to: &str) -> (r: String)
    ensures
        r@ == (if name@ == from@ {
            to@
        } else {
            name@
        }),
{
    if str_eq(name.as_str(), from) {
        to.to_owned()
    } else {
        name.clone()
    }
}

/// A group after session `from` is renamed `to`.
fn renamed_group(group: &WindowLinkGroup, from: &str, to: &str) -> (r: WindowLinkGroup)
    ensures
        group_view(r) == (GroupView {
            runtime: renamed_runtime(group_view(*group).runtime, from@, to@),
            slots: renamed_keys(group_view(*group).slots, from@, to@),
        }),
{
    let mut slots: Vec<WindowLinkSlot> = Vec::new();
    let mut j: usize = 0;
    while j < group.slots.len()
        invariant
            j <= group.slots@.len(),
            keys_of(slots@) == renamed_keys(keys_of(group.slots@.subrange(0, j as int)), from@, to@),
        decreases group.slots@.len() - j,
    {
        let ghost before = slots@;
        let s = &group.slots[j];
        slots.push(WindowLinkSlot { session_name: renamed_name(&s.session_name, from, to), window_index: s.window_index });
        proof {
            let src = group.slots@;
            assert(src.subrange(0, j + 1) =~= src.subrange(0, j as int).push(src[j as int]));
            assert(keys_of(slots@) =~= keys_of(before).push(key_of(slots@.last())));
            assert(keys_of(src.subrange(0, j + 1)) =~= keys_of(src.subrange(0, j as int)).push(key_of(src[j as int])));
            assert(renamed_keys(keys_of(src.subrange(0, j + 1)), from@, to@) =~= renamed_keys(
                keys_of(src.subrange(0, j as int)),
                from@,
                to@,
            ).push(renamed_key(key_of(src[j as int]), from@, to@)));
        }
        j = j + 1;
    }
    assert(group.slots@.subrange(0, group.slots@.len() as int) =~= group.slots@);
    WindowLinkGroup { runtime_session_name: renamed_name(&group.runtime_session_name, from, to), slots }
}

/// Renaming a session to a name with no linked slots keeps slots unshared
/// and unrepeated, and a renamed group holds exactly the renamed slots.
proof fn lemma_rename_keeps(groups: Map<u64, GroupView>, from: Seq<char>, to: Seq<char>)
    requires
        slots_disjoint(groups),
        from == to || !has_linked_slot_of(groups, to),
    ensures
        slots_disjoint(spec_rename(groups, from, to)),
{
    let after = spec_rename(groups, from, to);
    // Renaming is one to one on the listed slots.
    assert forall|g: u64, h: u64, i: int, j: int|
        groups.contains_key(g) && groups.contains_key(h) && 0 <= i < groups[g].slots.len() && 0 <= j
            < groups[h].slots.len() && renamed_key(#[trigger] groups[g].slots[i], from, to) == renamed_key(
            #[trigger] groups[h].slots[j],
            from,
            to,
        ) implies groups[g].slots[i] == groups[h].slots[j] by {
        let x = groups[g].slots[i];
        let y = groups[h].slots[j];
        if from != to {
            if x.0 == from && y.0 != from {
                assert(y.0 == to);
            }
            if y.0 == from && x.0 != from {
                assert(x.0 == to);
            }
        }
    }
    assert forall|g: u64| #[trigger] after.contains_key(g) implies after[g].slots.no_duplicates() by {
        let s0 = groups[g].slots;
        assert forall|i: int, j: int| 0 <= i < after[g].slots.len() && 0 <= j < after[g].slots.len() && i
            != j implies after[g].slots[i] != after[g].slots[j] by {
            assert(s0[i] != s0[j]);
        }
    }
    assert forall|a: u64, b: u64, x: (Seq<char>, u32)|
        after.contains_key(a) && after.contains_key(b) && #[trigger] after[a].slots.contains(x)
            && #[trigger] after[b].slots.contains(x) implies a == b by {
        let i = choose|i: int| 0 <= i < after[a].slots.len() && after[a].slots[i] == x;
        let j = choose|j: int| 0 <= j < after[b].slots.len() && after[b].slots[j] == x;
        assert(groups[a].slots[i] == groups[b].slots[j]);
        assert(groups[a].slots.contains(groups[a].slots[i]));
        assert(groups[b].slots.contains(groups[a].slots[i]));
    }
}

impl WindowLinks {
    /// Renames session `from` to `to` in every slot and runtime session. The
    /// new name must not already have linked windows (a session is renamed
    /// only to a name no session has).
    pub fn rename_window_link_session(&mut self, from: &str, to: &str)
        requires
            old(self).wf(),
            from@ == to@ || !has_linked_slot_of(old(self).group_map(), to@),
        ensures
            final(self).wf(),
            final(self).group_map() == spec_rename(old(self).group_map(), from@, to@),
            final(self).next_id() == old(self).next_id(),
    {
        let ghost gm = self.group_map();
        let ghost ids = self.group_ids@;
        let ghost gs = self.groups@;
        let mut renamed: Vec<WindowLinkGroup> = Vec::new();
        let mut i: usize = 0;
        while i < self.groups.len()
            invariant
                self.group_ids@ == ids,
                self.groups@ == gs,
                ids.len() == gs.len(),
                i <= gs.len(),
                renamed@.len() == i,
                forall|j: int| 0 <= j < i ==> group_view(#[trigger] renamed@[j]) == (GroupView {
                    runtime: renamed_runtime(group_view(gs[j]).runtime, from@, to@),
                    slots: renamed_keys(group_view(gs[j]).slots, from@, to@),
                }),
            decreases gs.len() - i,
        {
            renamed.push(renamed_group(&self.groups[i], from, to));
            i = i + 1;
        }
        self.groups = renamed;
        proof {
            let after = self.group_map();
            assert forall|g: u64| #[trigger] after.contains_key(g) <==> gm.contains_key(g) by {}
            assert forall|g: u64| after.contains_key(g) implies after[g] == spec_rename(gm, from@, to@)[g] by {
                let j = choose|j: int| 0 <= j < ids.len() && ids[j] == g;
                lemma_groups_map_at(ids, self.groups@, j);
                lemma_groups_map_at(ids, gs, j);
            }
            assert(after =~= spec_rename(gm, from@, to@));
            lemma_rename_keeps(gm, from@, to@);
        }
    }

    /// Renames session `from` to `to` where it runs a group's panes.
    pub fn rename_window_link_runtime_session(&mut self, from: &str, to: &str)
        requires
            old(self).wf(),
        ensures
            final(self).wf(),
            final(self).group_map() == spec_rename_runtime(old(self).group_map(), from@, to@),
            final(self).next_id() == old(self).next_id(),
    {
        let ghost gm = self.group_map();
        let ghost ids = self.group_ids@;
        let ghost gs = self.groups@;
        let ghost next = self.next_group_id;
        let mut i: usize = 0;
        while i < self.groups.len()
            invariant
                self.group_ids@ == ids,
                self.next_group_id == next,
                ids.len() == gs.len(),
                self.groups@.len() == gs.len(),
                ids_distinct(ids),
                i <= gs.len(),
                forall|j: int| 0 <= j < i ==> group_view(#[trigger] self.groups@[j]) == (GroupView {
                    runtime: renamed_runtime(group_view(gs[j]).runtime, from@, to@),
                    slots: group_view(gs[j]).slots,
                }),
                forall|j: int| i <= j < gs.len() ==> #[trigger] self.groups@[j] == gs[j],
            decreases gs.len() - i,
        {
            if str_eq(self.groups[i].runtime_session_name.as_str(), from) {
                let slots = with_all_slots(&self.groups[i].slots);
                let group = WindowLinkGroup { runtime_session_name: to.to_owned(), slots };
                self.groups.set(i, group);
            }
            i = i + 1;
        }
        proof {
            let after = self.group_map();
            assert forall|g: u64| #[trigger] after.contains_key(g) <==> gm.contains_key(g) by {}
            assert forall|g: u64| after.contains_key(g) implies after[g] == spec_rename_runtime(gm, from@, to@)[g] by {
                let j = choose|j: int| 0 <= j < ids.len() && ids[j] == g;
                lemma_groups_map_at(ids, self.groups@, j);
                lemma_groups_map_at(ids, gs, j);
            }
            assert(after =~= spec_rename_runtime(gm, from@, to@));
            assert forall|g: u64| #[trigger] after.contains_key(g) implies g < self.next_group_id by {
                assert(gm.contains_key(g));
            }
            assert forall|a: u64, b: u64, x: (Seq<char>, u32)|
                after.contains_key(a) && after.contains_key(b) && #[trigger] after[a].slots.contains(x)
                    && #[trigger] after[b].slots.contains(x) implies a == b by {
                assert(gm[a].slots.contains(x));
                assert(gm[b].slots.contains(x));
            }
        }
    }

    /// Sets the session that runs the group of a slot, if it is linked.
    pub fn set_window_link_runtime_session_for_slot(&mut self, s: &WindowLinkSlot, runtime: &str)
        requires
            old(self).wf(),
        ensures
            final(self).wf(),
            final(self).group_map() == match group_of(old(self).group_map(), key_of(*s)) {
                Some(g) => old(self).group_map().insert(
                    g,
                    GroupView { runtime: runtime@, slots: old(self).group_map()[g].slots },
                ),
                None => old(self).group_map(),
            },
            final(self).next_id() == old(self).next_id(),
    {
        let ghost gm = self.group_map();
        match self.find_group(s) {
            None => {},
            Some(i) => {
                proof { self.lemma_group_at(i as int); }
                let ghost g = self.group_ids@[i as int];
                let slots = with_all_slots(&self.groups[i].slots);
                let ghost ids = self.group_ids@;
                let ghost gs = self.groups@;
                let group = WindowLinkGroup { runtime_session_name: runtime.to_owned(), slots };
                self.groups.set(i, group);
                proof {
                    lemma_groups_map_set(ids, gs, i as int, group);
                    let after = self.group_map();
                    assert(after =~= gm.insert(g, GroupView { runtime: runtime@, slots: gm[g].slots }));
                    assert forall|a: u64, b: u64, x: (Seq<char>, u32)|
                        after.contains_key(a) && after.contains_key(b) && #[trigger] after[a].slots.contains(x)
                            && #[trigger] after[b].slots.contains(x) implies a == b by {
                        assert(gm[a].slots.contains(x));
                        assert(gm[b].slots.contains(x));
                    }
                }
            },
        }
    }
}

/// A copy of a list of slots.
fn with_all_slots(slots: &Vec<WindowLinkSlot>) -> (out: Vec<WindowLinkSlot>)
    ensures
        keys_of(out@) == keys_of(slots@),
{
    let mut out: Vec<WindowLinkSlot> = Vec::new();
    let mut j: usize = 0;
    while j < slots.len()
        invariant
            j <= slots@.len(),
            keys_of(out@) == keys_of(slots@.subrange(0, j as int)),
        decreases slots@.len() - j,
    {
        let ghost before = out@;
        out.push(copy_slot(&slots[j]));
        proof {
            let src = slots@;
            assert(src.subrange(0, j + 1) =~= src.subrange(0, j as int).push(src[j as int]));
            assert(keys_of(out@) =~= keys_of(before).push(key_of(src[j as int])));
            assert(keys_of(src.subrange(0, j + 1)) =~= keys_of(src.subrange(0, j as int)).push(key_of(src[j as int])));
        }
        j = j + 1;
    }
    assert(slots@.subrange(0, slots@.len() as int) =~= slots@);
    out
}

/// The slots of a list that are not in session `name`, in order.
pub open spec fn others(s: Seq<(Seq<char>, u32)>, name: Seq<char>) -> Seq<(Seq<char>, u32)>
    decreases s.len(),
{
    if s.len() == 0 {
        Seq::empty()
    } else {
        let earlier = others(s.drop_last(), name);
        if s.last().0 == name {
            earlier
        } else {
            earlier.push(s.last())
        }
    }
}

/// The table after every window of session `name` leaves its group: a
/// group left with fewer than two slots is dissolved.
pub open spec fn spec_remove_session(groups: Map<u64, GroupView>, name: Seq<char>) -> Map<u64, GroupView> {
    Map::new(
        |g: u64| groups.contains_key(g) && others(groups[g].slots, name).len() >= 2,
        |g: u64| GroupView { runtime: groups[g].runtime, slots: others(groups[g].slots, name) },
    )
}

/// The slots kept are slots of the list, not of session `name`, and are
/// not repeated when the list's are not.
proof fn lemma_others(s: Seq<(Seq<char>, u32)>, name: Seq<char>)
    ensures
        forall|x: (Seq<char>, u32)| #[trigger] others(s, name).contains(x) <==> s.contains(x) && x.0 != name,
        s.no_duplicates() ==> others(s, name).no_duplicates(),
    decreases s.len(),
{
    if s.len() > 0 {
        let t = s.drop_last();
        lemma_others(t, name);
        let r = others(t, name);
        assert forall|x: (Seq<char>, u32)| #[trigger] others(s, name).contains(x) <==> s.contains(x) && x.0 != name by {
            if s.contains(x) && x.0 != name {
                let i = choose|i: int| 0 <= i < s.len() && s[i] == x;
                if i < s.len() - 1 {
                    assert(t[i] == x);
                    assert(t.contains(x));
                    assert(others(t, name).contains(x));
                    let k = choose|k: int| 0 <= k < r.len() && r[k] == x;
                    if s.last().0 != name {
                        assert(r.push(s.last())[k] == x);
                    }
                } else {
                    assert(others(s, name) == r.push(s.last()));
                    assert(r.push(s.last())[r.len() as int] == x);
                }
            }
            if others(s, name).contains(x) {
                if s.last().0 == name {
                    assert(r.contains(x));
                    assert(t.contains(x));
                    let k = choose|k: int| 0 <= k < t.len() && t[k] == x;
                    assert(s[k] == x);
                } else {
                    let k = choose|k: int| 0 <= k < r.len() + 1 && r.push(s.last())[k] == x;
                    if k < r.len() {
                        assert(r[k] == x);
                        assert(r.contains(x));
                        assert(t.contains(x));
                        let m = choose|m: int| 0 <= m < t.len() && t[m] == x;
                        assert(s[m] == x);
                    } else {
                        assert(s[s.len() - 1] == x);
                    }
                }
            }
        }
        if s.no_duplicates() {
            assert(t.no_duplicates()) by {
                assert forall|i: int, j: int| 0 <= i < t.len() && 0 <= j < t.len() && i != j implies t[i] != t[j] by {
                    assert(s[i] != s[j]);
                }
            }
            if s.last().0 != name {
                let q = r.push(s.last());
                assert(!r.contains(s.last())) by {
                    if r.contains(s.last()) {
                        assert(t.contains(s.last()));
                        let m = choose|m: int| 0 <= m < t.len() && t[m] == s.last();
                        assert(s[m] == s[s.len() - 1]);
                    }
                }
                assert forall|i: int, j: int| 0 <= i < q.len() && 0 <= j < q.len() && i != j implies q[i] != q[j] by {
                    if i == r.len() {
                        assert(q[j] == r[j]);
                    } else if j == r.len() {
                        assert(q[i] == r[i]);
                    } else {
                        assert(q[i] == r[i] && q[j] == r[j]);
                    }
                }
            }
        }
    }
}

/// The slots of a list that are not in session `name`.
fn other_slots(slots: &Vec<WindowLinkSlot>, name: &str) -> (out: Vec<WindowLinkSlot>)
    ensures
        keys_of(out@) == others(keys_of(slots@), name@),
{
    let mut out: Vec<WindowLinkSlot> = Vec::new();
    let mut j: usize = 0;
    while j < slots.len()
        invariant
            j <= slots@.len(),
            keys_of(out@) == others(keys_of(slots@.subrange(0, j as int)), name@),
        decreases slots@.len() - j,
    {
        let ghost before = out@;
        proof {
            let src = slots@;
            assert(src.subrange(0, j + 1) =~= src.subrange(0, j as int).push(src[j as int]));
            assert(keys_of(src.subrange(0, j + 1)) =~= keys_of(src.subrange(0, j as int)).push(key_of(src[j as int])));
            assert(keys_of(src.subrange(0, j + 1)).drop_last() =~= keys_of(src.subrange(0, j as int)));
        }
        if !str_eq(slots[j].session_name.as_str(), name) {
            out.push(copy_slot(&slots[j]));
            proof {
                assert(keys_of(out@) =~= keys_of(before).push(key_of(slots@[j as int])));
            }
        }
        j = j + 1;
    }
    assert(slots@.subrange(0, slots@.len() as int) =~= slots@);
    out
}

impl WindowLinks {
    /// Takes every window of session `name` out of its link group.
    pub fn remove_window_link_session_slots(&mut self, name: &str)
        requires
            old(self).wf(),
        ensures
            final(self).wf(),
            final(self).group_map() == spec_remove_session(old(self).group_map(), name@),
            final(self).next_id() == old(self).next_id(),
    {
        let ghost gm = self.group_map();
        let ghost ids = self.group_ids@;
        let ghost gs = self.groups@;
        let mut new_ids: Vec<u64> = Vec::new();
        let mut new_groups: Vec<WindowLinkGroup> = Vec::new();
        let ghost mut src: Seq<int> = Seq::empty();
        let mut i: usize = 0;
        while i < self.groups.len()
            invariant
                self.group_ids@ == ids,
                self.groups@ == gs,
                ids.len() == gs.len(),
                ids_distinct(ids),
                i <= gs.len(),
                new_ids@.len() == new_groups@.len(),
                src.len() == new_ids@.len(),
                forall|j: int| 0 <= j < src.len() ==> 0 <= #[trigger] src[j] < i,
                forall|j: int, k: int| 0 <= j < k < src.len() ==> #[trigger] src[j] < #[trigger] src[k],
                forall|j: int| 0 <= j < src.len() ==> new_ids@[j] == ids[#[trigger] src[j]] && group_view(
                    new_groups@[j],
                ) == (GroupView {
                    runtime: group_view(gs[src[j]]).runtime,
                    slots: others(group_view(gs[src[j]]).slots, name@),
                }),
                forall|m: int|
                    0 <= m < i && others(group_view(#[trigger] gs[m]).slots, name@).len() >= 2 ==> exists|j: int|
                        0 <= j < src.len() && src[j] == m,
                forall|j: int| 0 <= j < src.len() ==> others(group_view(gs[#[trigger] src[j]]).slots, name@).len() >= 2,
            decreases gs.len() - i,
        {
            let kept = other_slots(&self.groups[i].slots, name);
            if kept.len() >= 2 {
                let runtime = self.groups[i].runtime_session_name.clone();
                new_ids.push(self.group_ids[i]);
                new_groups.push(WindowLinkGroup { runtime_session_name: runtime, slots: kept });
                proof {
                    let old_src = src;
                    src = src.push(i as int);
                    assert forall|m: int|
                        0 <= m < i + 1 && others(group_view(#[trigger] gs[m]).slots, name@).len() >= 2 implies exists|j: int|
                            0 <= j < src.len() && src[j] == m by {
                        if m == i {
                            assert(src[old_src.len() as int] == m);
                        } else {
                            let j = choose|j: int| 0 <= j < old_src.len() && old_src[j] == m;
                            assert(src[j] == m);
                        }
                    }
                }
            }
            i = i + 1;
        }
        self.group_ids = new_ids;
        self.groups = new_groups;
        proof {
            let ni = self.group_ids@;
            let ng = self.groups@;
            assert forall|a: int, b: int| 0 <= a < b < ni.len() implies #[trigger] ni[a] != #[trigger] ni[b] by {
                assert(src[a] < src[b]);
                assert(ids[src[a]] != ids[src[b]]);
            }
            let after = self.group_map();
            let want = spec_remove_session(gm, name@);
            assert forall|g: u64| #[trigger] after.contains_key(g) implies want.contains_key(g) && after[g] == want[g] by {
                let j = choose|j: int| 0 <= j < ni.len() && ni[j] == g;
                lemma_groups_map_at(ni, ng, j);
                lemma_groups_map_at(ids, gs, src[j]);
            }
            assert forall|g: u64| #[trigger] want.contains_key(g) implies after.contains_key(g) by {
                let m = choose|m: int| 0 <= m < ids.len() && ids[m] == g;
                lemma_groups_map_at(ids, gs, m);
                let j = choose|j: int| 0 <= j < src.len() && src[j] == m;
                assert(ni[j] == g);
            }
            assert(after =~= want);
            assert forall|g: u64| #[trigger] after.contains_key(g) implies after[g].slots.no_duplicates() by {
                lemma_others(gm[g].slots, name@);
            }
            assert forall|a: u64, b: u64, x: (Seq<char>, u32)|
                after.contains_key(a) && after.contains_key(b) && #[trigger] after[a].slots.contains(x)
                    && #[trigger] after[b].slots.contains(x) implies a == b by {
                lemma_others(gm[a].slots, name@);
                lemma_others(gm[b].slots, name@);
                assert(gm[a].slots.contains(x));
                assert(gm[b].slots.contains(x));
            }
            assert forall|g: u64| #[trigger] after.contains_key(g) implies g < self.next_group_id by {
                assert(gm.contains_key(g));
            }
        }
    }
}

/// Slot `k` after the windows of session `name` move to new indices: an
/// index the map names moves, any other stays.
pub open spec fn remapped_key(k: (Seq<char>, u32), name: Seq<char>, index_map: Map<u32, u32>) -> (Seq<char>, u32) {
    if k.0 == name && index_map.contains_key(k.1) {
        (k.0, index_map[k.1])
    } else {
        k
    }
}

/// A list of slots after the windows of session `name` move.
pub open spec fn remapped_keys(s: Seq<(Seq<char>, u32)>, name: Seq<char>, index_map: Map<u32, u32>) -> Seq<(Seq<char>, u32)> {
    s.map_values(|k: (Seq<char>, u32)| remapped_key(k, name, index_map))
}

/// The table after the windows of session `name` move to new indices.
pub open spec fn spec_remap(groups: Map<u64, GroupView>, name: Seq<char>, index_map: Map<u32, u32>) -> Map<u64, GroupView> {
    Map::new(
        |g: u64| groups.contains_key(g),
        |g: u64| GroupView { runtime: groups[g].runtime, slots: remapped_keys(groups[g].slots, name, index_map) },
    )
}

/// The move sends no two linked slots to the same place.
pub open spec fn remap_one_to_one(groups: Map<u64, GroupView>, name: Seq<char>, index_map: Map<u32, u32>) -> bool {
    forall|g: u64, h: u64, i: int, j: int|
        groups.contains_key(g) && groups.contains_key(h) && 0 <= i < groups[g].slots.len() && 0 <= j
            < groups[h].slots.len() && remapped_key(#[trigger] groups[g].slots[i], name, index_map)
            == remapped_key(#[trigger] groups[h].slots[j], name, index_map) ==> groups[g].slots[i]
            == groups[h].slots[j]
}

/// A slot after the windows of session `name` move to new indices.
pub fn remapped_window_link_slot(s: &WindowLinkSlot, name: &str, index_map: &BTreeMap<u32, u32>) -> (r: WindowLinkSlot)
    ensures
        key_of(r) == remapped_key(key_of(*s), name@, index_map@),
{
    if !str_eq(s.session_name.as_str(), name) {
        return copy_slot(s);
    }
    let index = match index_map.get(&s.window_index) {
        Some(next) => *next,
        None => s.window_index,
    };
    WindowLinkSlot { session_name: s.session_name.clone(), window_index: index }
}

/// A slot after session `from` is renamed `to`.
pub fn renamed_window_link_slot(s: &WindowLinkSlot, from: &str, to: &str) -> (r: WindowLinkSlot)
    ensures
        key_of(r) == renamed_key(key_of(*s), from@, to@),
{
    if !str_eq(s.session_name.as_str(), from) {
        return copy_slot(s);
    }
    WindowLinkSlot { session_name: to.to_owned(), window_index: s.window_index }
}

/// A group after the windows of session `name` move.
fn remapped_group(group: &WindowLinkGroup, name: &str, index_map: &BTreeMap<u32, u32>) -> (r: WindowLinkGroup)
    ensures
        group_view(r) == (GroupView {
            runtime: group_view(*group).runtime,
            slots: remapped_keys(group_view(*group).slots, name@, index_map@),
        }),
{
    let mut slots: Vec<WindowLinkSlot> = Vec::new();
    let mut j: usize = 0;
    while j < group.slots.len()
        invariant
            j <= group.slots@.len(),
            keys_of(slots@) == remapped_keys(keys_of(group.slots@.subrange(0, j as int)), name@, index_map@),
        decreases group.slots@.len() - j,
    {
        let ghost before = slots@;
        slots.push(remapped_window_link_slot(&group.slots[j], name, index_map));
        proof {
            let src = group.slots@;
            assert(src.subrange(0, j + 1) =~= src.subrange(0, j as int).push(src[j as int]));
            assert(keys_of(slots@) =~= keys_of(before).push(key_of(slots@.last())));
            assert(keys_of(src.subrange(0, j + 1)) =~= keys_of(src.subrange(0, j as int)).push(key_of(src[j as int])));
            assert(remapped_keys(keys_of(src.subrange(0, j + 1)), name@, index_map@) =~= remapped_keys(
                keys_of(src.subrange(0, j as int)),
                name@,
                index_map@,
            ).push(remapped_key(key_of(src[j as int]), name@, index_map@)));
        }
        j = j + 1;
    }
    assert(group.slots@.subrange(0, group.slots@.len() as int) =~= group.slots@);
    WindowLinkGroup { runtime_session_name: group.runtime_session_name.clone(), slots }
}

impl WindowLinks {
    /// Moves the windows of session `name` to the indices `index_map` gives
    /// them. The move must not send two linked windows to one place (the
    /// map renumbers a session's windows).
    pub fn remap_window_link_slots(&mut self, name: &str, index_map: &BTreeMap<u32, u32>)
        requires
            old(self).wf(),
            remap_one_to_one(old(self).group_map(), name@, index_map@),
        ensures
            final(self).wf(),
            final(self).group_map() == spec_remap(old(self).group_map(), name@, index_map@),
            final(self).next_id() == old(self).next_id(),
    {
        let ghost gm = self.group_map();
        let ghost ids = self.group_ids@;
        let ghost gs = self.groups@;
        let mut moved: Vec<WindowLinkGroup> = Vec::new();
        let mut i: usize = 0;
        while i < self.groups.len()
            invariant
                self.group_ids@ == ids,
                self.groups@ == gs,
                ids.len() == gs.len(),
                i <= gs.len(),
                moved@.len() == i,
                forall|j: int| 0 <= j < i ==> group_view(#[trigger] moved@[j]) == (GroupView {
                    runtime: group_view(gs[j]).runtime,
                    slots: remapped_keys(group_view(gs[j]).slots, name@, index_map@),
                }),
            decreases gs.len() - i,
        {
            moved.push(remapped_group(&self.groups[i], name, index_map));
            i = i + 1;
        }
        self.groups = moved;
        proof {
            let after = self.group_map();
            let want = spec_remap(gm, name@, index_map@);
            assert forall|g: u64| #[trigger] after.contains_key(g) <==> gm.contains_key(g) by {}
            assert forall|g: u64| after.contains_key(g) implies after[g] == want[g] by {
                let j = choose|j: int| 0 <= j < ids.len() && ids[j] == g;
                lemma_groups_map_at(ids, self.groups@, j);
                lemma_groups_map_at(ids, gs, j);
            }
            assert(after =~= want);
            assert forall|g: u64| #[trigger] after.contains_key(g) implies after[g].slots.no_duplicates() by {
                let s0 = gm[g].slots;
                assert forall|a: int, b: int| 0 <= a < after[g].slots.len() && 0 <= b < after[g].slots.len()
                    && a != b implies after[g].slots[a] != after[g].slots[b] by {
                    assert(s0[a] != s0[b]);
                }
            }
            assert forall|a: u64, b: u64, x: (Seq<char>, u32)|
                after.contains_key(a) && after.contains_key(b) && #[trigger] after[a].slots.contains(x)
                    && #[trigger] after[b].slots.contains(x) implies a == b by {
                let p = choose|p: int| 0 <= p < after[a].slots.len() && after[a].slots[p] == x;
                let q = choose|q: int| 0 <= q < after[b].slots.len() && after[b].slots[q] == x;
                assert(gm[a].slots[p] == gm[b].slots[q]);
                assert(gm[a].slots.contains(gm[a].slots[p]));
                assert(gm[b].slots.contains(gm[a].slots[p]));
            }
            assert forall|g: u64| #[trigger] after.contains_key(g) implies g < self.next_group_id by {
                assert(gm.contains_key(g));
            }
        }
    }
}


/// Whether slots are listed in strictly increasing slot order.
pub open spec fn keys_sorted(s: Seq<(Seq<char>, u32)>) -> bool {
    forall|i: int, j: int| 0 <= i < j < s.len() ==> key_lt(#[trigger] s[i], #[trigger] s[j])
}

/// Whether slot `x` of group `g` can take over running the group's panes
/// when `session` goes: it is not a slot of `session`, and its window still
/// exists.
pub open spec fn transfer_candidate(g: GroupView, session: Seq<char>, existing: Seq<(Seq<char>, u32)>, x: (Seq<char>, u32)) -> bool {
    g.slots.contains(x) && x.0 != session && existing.contains(x)
}

/// Whether `x` is the first candidate of `g` in slot order.
pub open spec fn is_transfer_pick(g: GroupView, session: Seq<char>, existing: Seq<(Seq<char>, u32)>, x: (Seq<char>, u32)) -> bool {
    &&& transfer_candidate(g, session, existing, x)
    &&& forall|y: (Seq<char>, u32)| #[trigger] transfer_candidate(g, session, existing, y) && y != x ==> key_lt(x, y)
}

/// The slots that take over the groups run by `session`: for each such
/// group, its first candidate, if it has one.
pub open spec fn transfer_picks(groups: Map<u64, GroupView>, session: Seq<char>, existing: Seq<(Seq<char>, u32)>) -> Set<(Seq<char>, u32)> {
    Set::new(
        |x: (Seq<char>, u32)|
            exists|g: u64| groups.contains_key(g) && groups[g].runtime == session && #[trigger] is_transfer_pick(groups[g], session, existing, x),
    )
}

/// The picks of the groups held before position `i`.
spec fn picks_before(gs: Seq<WindowLinkGroup>, i: int, session: Seq<char>, existing: Seq<(Seq<char>, u32)>) -> Set<(Seq<char>, u32)> {
    Set::new(
        |x: (Seq<char>, u32)|
            exists|k: int| 0 <= k < i && group_view(gs[k]).runtime == session && #[trigger] is_transfer_pick(group_view(gs[k]), session, existing, x),
    )
}

/// Places `s` among sorted slots that do not hold it.
fn insert_sorted(out: &mut Vec<WindowLinkSlot>, s: WindowLinkSlot)
    requires
        keys_sorted(keys_of(old(out)@)),
        !keys_of(old(out)@).contains(key_of(s)),
    ensures
        keys_sorted(keys_of(final(out)@)),
        forall|x: (Seq<char>, u32)| #[trigger] keys_of(final(out)@).contains(x) <==> (keys_of(old(out)@).contains(x) || x == key_of(s)),
{
    let ghost before = keys_of(out@);
    let mut p: usize = 0;
    while p < out.len() && slot_less(out[p].session_name.as_str(), out[p].window_index, s.session_name.as_str(), s.window_index)
        invariant
            before == keys_of(out@),
            p <= out@.len(),
            forall|q: int| 0 <= q < p ==> key_lt(#[trigger] before[q], key_of(s)),
        decreases out@.len() - p,
    {
        p = p + 1;
    }
    proof {
        if p < before.len() {
            assert(before[p as int] != key_of(s));
            lemma_key_lt_order(before[p as int], key_of(s), key_of(s));
        }
    }
    out.insert(p, s);
    proof {
        let after = keys_of(out@);
        assert(after =~= before.insert(p as int, key_of(s)));
        assert forall|i: int, j: int| 0 <= i < j < after.len() implies key_lt(#[trigger] after[i], #[trigger] after[j]) by {
            if j < p {
            } else if j == p {
            } else if i < p {
                assert(after[j] == before[j - 1]);
                assert(key_lt(key_of(s), before[j - 1])) by {
                    if p < j - 1 {
                        assert(key_lt(before[p as int], before[j - 1]));
                        lemma_key_lt_order(key_of(s), before[p as int], before[j - 1]);
                    }
                }
                assert(key_lt(before[i], key_of(s)));
                lemma_key_lt_order(after[i], key_of(s), before[j - 1]);
            } else if i == p {
                assert(after[j] == before[j - 1]);
                if p < j - 1 {
                    lemma_key_lt_order(key_of(s), before[p as int], before[j - 1]);
                }
            } else {
                assert(after[i] == before[i - 1] && after[j] == before[j - 1]);
            }
        }
        assert forall|x: (Seq<char>, u32)| #[trigger] after.contains(x) <==> (before.contains(x) || x == key_of(s)) by {
            if after.contains(x) {
                let i = choose|i: int| 0 <= i < after.len() && after[i] == x;
                if i < p {
                    assert(before[i] == x);
                } else if i > p {
                    assert(before[i - 1] == x);
                }
            }
            if before.contains(x) {
                let i = choose|i: int| 0 <= i < before.len() && before[i] == x;
                if i < p {
                    assert(after[i] == x);
                } else {
                    assert(after[i + 1] == x);
                }
            }
            if x == key_of(s) {
                assert(after[p as int] == x);
            }
        }
    }
}

/// The first candidate of a group in slot order, if it has one.
fn first_candidate(group: &WindowLinkGroup, session: &str, existing: &Vec<WindowLinkSlot>) -> (r: Option<usize>)
    requires
        group_view(*group).slots.no_duplicates(),
    ensures
        match r {
            Some(b) => b < group.slots@.len() && is_transfer_pick(group_view(*group), session@, keys_of(existing@), key_of(group.slots@[b as int])),
            None => forall|y: (Seq<char>, u32)| !transfer_candidate(group_view(*group), session@, keys_of(existing@), y),
        },
{
    let ghost g = group_view(*group);
    let ghost ex = keys_of(existing@);
    let mut best: Option<usize> = None;
    let mut j: usize = 0;
    while j < group.slots.len()
        invariant
            g == group_view(*group),
            ex == keys_of(existing@),
            g.slots.no_duplicates(),
            j <= group.slots@.len(),
            match best {
                Some(b) => b < j && transfer_candidate(g, session@, ex, g.slots[b as int]) && forall|q: int|
                    0 <= q < j && q != b && #[trigger] transfer_candidate(g, session@, ex, g.slots[q]) ==> key_lt(g.slots[b as int], g.slots[q]),
                None => forall|q: int| 0 <= q < j ==> !#[trigger] transfer_candidate(g, session@, ex, g.slots[q]),
            },
        decreases group.slots@.len() - j,
    {
        let s = &group.slots[j];
        assert(g.slots[j as int] == key_of(*s));
        let other = !str_eq(s.session_name.as_str(), session);
        let found = slot_position(existing, s);
        proof {
            if let Some(e) = found {
                assert(ex[e as int] == key_of(existing@[e as int]));
                assert(ex.contains(key_of(*s)));
            }
            assert(g.slots.contains(g.slots[j as int]));
        }
        if other && found.is_some() {
            match best {
                None => {
                    proof {
                        assert(transfer_candidate(g, session@, ex, g.slots[j as int]));
                    }
                    best = Some(j);
                },
                Some(b) => {
                    let t = &group.slots[b];
                    if slot_less(s.session_name.as_str(), s.window_index, t.session_name.as_str(), t.window_index) {
                        proof {
                            assert forall|q: int| 0 <= q < j + 1 && q != j && #[trigger] transfer_candidate(g, session@, ex, g.slots[q]) implies key_lt(
                                g.slots[j as int],
                                g.slots[q],
                            ) by {
                                if q != b {
                                    lemma_key_lt_order(g.slots[j as int], g.slots[b as int], g.slots[q]);
                                }
                            }
                        }
                        best = Some(j);
                    } else {
                        proof {
                            assert(g.slots[j as int] != g.slots[b as int]);
                            lemma_key_lt_order(g.slots[b as int], g.slots[j as int], g.slots[j as int]);
                            assert(key_lt(g.slots[b as int], g.slots[j as int]));
                            assert forall|q: int| 0 <= q < j + 1 && q != b && #[trigger] transfer_candidate(g, session@, ex, g.slots[q]) implies key_lt(
                                g.slots[b as int],
                                g.slots[q],
                            ) by {
                            }
                        }
                    }
                },
            }
        } else {
            proof {
                assert(!transfer_candidate(g, session@, ex, g.slots[j as int]));
            }
        }
        j = j + 1;
    }
    proof {
        match best {
            Some(b) => {
                assert forall|y: (Seq<char>, u32)| #[trigger] transfer_candidate(g, session@, ex, y) && y != g.slots[b as int] implies key_lt(
                    g.slots[b as int],
                    y,
                ) by {
                    let q = choose|q: int| 0 <= q < g.slots.len() && g.slots[q] == y;
                    assert(transfer_candidate(g, session@, ex, g.slots[q]));
                }
            },
            None => {
                assert forall|y: (Seq<char>, u32)| !transfer_candidate(g, session@, ex, y) by {
                    if transfer_candidate(g, session@, ex, y) {
                        let q = choose|q: int| 0 <= q < g.slots.len() && g.slots[q] == y;
                        assert(!transfer_candidate(g, session@, ex, g.slots[q]));
                    }
                }
            },
        }
    }
    best
}

impl WindowLinks {
    /// The slots that take over running the panes of the groups run by
    /// `session_name` when it is removed: for each such group, its first
    /// slot in slot order that is not of `session_name` and whose window is
    /// among `existing`; listed in slot order.
    pub fn linked_runtime_transfer_slots_for_removed_session(
        &self,
        session_name: &str,
        existing: &Vec<WindowLinkSlot>,
    ) -> (slots: Vec<WindowLinkSlot>)
        requires
            self.wf(),
        ensures
            keys_sorted(keys_of(slots@)),
            forall|x: (Seq<char>, u32)| #[trigger] keys_of(slots@).contains(x) <==> transfer_picks(
                self.group_map(),
                session_name@,
                keys_of(existing@),
            ).contains(x),
    {
        let ghost ex = keys_of(existing@);
        let ghost gs = self.groups@;
        let mut out: Vec<WindowLinkSlot> = Vec::new();
        let mut i: usize = 0;
        while i < self.groups.len()
            invariant
                self.wf(),
                gs == self.groups@,
                ex == keys_of(existing@),
                i <= gs.len(),
                keys_sorted(keys_of(out@)),
                forall|x: (Seq<char>, u32)| #[trigger] keys_of(out@).contains(x) <==> picks_before(gs, i as int, session_name@, ex).contains(x),
            decreases gs.len() - i,
        {
            let ghost before = keys_of(out@);
            proof {
                self.lemma_group_at(i as int);
            }
            let group = &self.groups[i];
            if str_eq(group.runtime_session_name.as_str(), session_name) {
                if let Some(b) = first_candidate(group, session_name, existing) {
                    let pick = copy_slot(&group.slots[b]);
                    proof {
                        let x = key_of(pick);
                        if before.contains(x) {
                            let k = choose|k: int| 0 <= k < i && group_view(gs[k]).runtime == session_name@ && #[trigger] is_transfer_pick(group_view(gs[k]), session_name@, ex, x);
                            self.lemma_group_at(k);
                            let gm = self.group_map();
                            assert(gm[self.group_ids@[k]].slots.contains(x));
                            assert(gm[self.group_ids@[i as int]].slots.contains(x));
                            assert(self.group_ids@[k] != self.group_ids@[i as int]);
                        }
                    }
                    insert_sorted(&mut out, pick);
                    proof {
                        assert forall|x: (Seq<char>, u32)| #[trigger] keys_of(out@).contains(x) <==> picks_before(gs, i + 1, session_name@, ex).contains(x) by {
                            if picks_before(gs, i + 1, session_name@, ex).contains(x) {
                                let k = choose|k: int| 0 <= k < i + 1 && group_view(gs[k]).runtime == session_name@ && #[trigger] is_transfer_pick(group_view(gs[k]), session_name@, ex, x);
                                if k == i {
                                    let y = key_of(pick);
                                    if x != y {
                                        assert(key_lt(x, y));
                                        assert(key_lt(y, x));
                                        lemma_key_lt_order(x, y, y);
                                    }
                                } else {
                                    assert(picks_before(gs, i as int, session_name@, ex).contains(x));
                                }
                            }
                            if keys_of(out@).contains(x) && x == key_of(pick) {
                                assert(is_transfer_pick(group_view(gs[i as int]), session_name@, ex, x));
                            }
                            if before.contains(x) {
                                let k = choose|k: int| 0 <= k < i && group_view(gs[k]).runtime == session_name@ && #[trigger] is_transfer_pick(group_view(gs[k]), session_name@, ex, x);
                                assert(0 <= k < i + 1);
                            }
                        }
                    }
                } else {
                    proof {
                        assert forall|x: (Seq<char>, u32)| #[trigger] keys_of(out@).contains(x) <==> picks_before(gs, i + 1, session_name@, ex).contains(x) by {
                            if picks_before(gs, i + 1, session_name@, ex).contains(x) {
                                let k = choose|k: int| 0 <= k < i + 1 && group_view(gs[k]).runtime == session_name@ && #[trigger] is_transfer_pick(group_view(gs[k]), session_name@, ex, x);
                                assert(k != i);
                                assert(picks_before(gs, i as int, session_name@, ex).contains(x));
                            }
                            if before.contains(x) {
                                let k = choose|k: int| 0 <= k < i && group_view(gs[k]).runtime == session_name@ && #[trigger] is_transfer_pick(group_view(gs[k]), session_name@, ex, x);
                                assert(0 <= k < i + 1);
                            }
                        }
                    }
                }
            } else {
                proof {
                    assert forall|x: (Seq<char>, u32)| #[trigger] keys_of(out@).contains(x) <==> picks_before(gs, i + 1, session_name@, ex).contains(x) by {
                        if picks_before(gs, i + 1, session_name@, ex).contains(x) {
                            let k = choose|k: int| 0 <= k < i + 1 && group_view(gs[k]).runtime == session_name@ && #[trigger] is_transfer_pick(group_view(gs[k]), session_name@, ex, x);
                            assert(k != i);
                            assert(picks_before(gs, i as int, session_name@, ex).contains(x));
                        }
                        if before.contains(x) {
                            let k = choose|k: int| 0 <= k < i && group_view(gs[k]).runtime == session_name@ && #[trigger] is_transfer_pick(group_view(gs[k]), session_name@, ex, x);
                            assert(0 <= k < i + 1);
                        }
                    }
                }
            }
            i = i + 1;
        }
        proof {
            let gm = self.group_map();
            assert forall|x: (Seq<char>, u32)| picks_before(gs, gs.len() as int, session_name@, ex).contains(x) <==> #[trigger] transfer_picks(gm, session_name@, ex).contains(x) by {
                if picks_before(gs, gs.len() as int, session_name@, ex).contains(x) {
                    let k = choose|k: int| 0 <= k < gs.len() && group_view(gs[k]).runtime == session_name@ && #[trigger] is_transfer_pick(group_view(gs[k]), session_name@, ex, x);
                    self.lemma_group_at(k);
                    assert(gm.contains_key(self.group_ids@[k]));
                }
                if transfer_picks(gm, session_name@, ex).contains(x) {
                    let g = choose|g: u64| gm.contains_key(g) && gm[g].runtime == session_name@ && #[trigger] is_transfer_pick(gm[g], session_name@, ex, x);
                    let k = choose|k: int| 0 <= k < self.group_ids@.len() && self.group_ids@[k] == g;
                    self.lemma_group_at(k);
                }
            }
        }
        out
    }
}

} // verus!
