//! The bounded queue of connections that have not yet authenticated.

use vstd::prelude::*;

verus! {

/// Pending connections, oldest first, each with its id.
pub struct PreAuthQueue {
    queue_id: Ghost<int>,
    next_id: u64,
    entries: Vec<u64>,
    capacity: usize,
}

/// A registered pending connection.
pub struct PreAuthGuard {
    pub id: u64,
    queue: Ghost<int>,
}

impl PreAuthGuard {
    /// The identity of the queue this guard was registered in.
    pub closed spec fn queue(&self) -> int {
        self.queue@
    }

    /// The id of the pending connection.
    pub closed spec fn pending_id(&self) -> u64 {
        self.id
    }
}

/// The id after `id`, wrapping around.
pub open spec fn next_id_after(id: u64) -> u64 {
    if id == u64::MAX {
        0
    } else {
        (id + 1) as u64
    }
}

/// The pending connections after `id` registers, and the id evicted for it:
/// a full queue loses its oldest entry.
pub open spec fn spec_register(pending: Seq<u64>, limit: nat, id: u64) -> (Seq<u64>, Option<u64>) {
    if pending.len() >= limit && pending.len() > 0 {
        (pending.drop_first().push(id), Some(pending[0]))
    } else {
        (pending.push(id), None)
    }
}

impl PreAuthQueue {
    /// This queue's identity, which its guards carry; a guard is released
    /// only in the queue it names.
    pub closed spec fn id(&self) -> int {
        self.queue_id@
    }

    /// The ids of the pending connections, oldest first.
    pub closed spec fn pending(&self) -> Seq<u64> {
        self.entries@
    }

    /// The id the next registration receives.
    pub closed spec fn next(&self) -> u64 {
        self.next_id
    }

    /// Most pending connections.
    pub closed spec fn limit(&self) -> nat {
        self.capacity as nat
    }

    /// An empty queue for up to `capacity` pending connections.
    pub fn new(capacity: usize) -> (q: Self)
        requires
            capacity > 0,
        ensures
            q.wf(),
            q.pending() == Seq::<u64>::empty(),
            q.next() == 0,
            q.limit() == capacity,
    {
        PreAuthQueue { queue_id: Ghost(arbitrary()), next_id: 0, entries: Vec::new(), capacity }
    }

    /// Within its limit, which is at least one.
    pub closed spec fn wf(&self) -> bool {
        self.capacity > 0 && self.entries@.len() <= self.capacity
    }

    /// Registers a pending connection under the next id (ids wrap around).
    /// When the queue is full, the oldest pending connection is evicted to
    /// make room, and its id is returned beside the new guard.
    pub fn register(&mut self) -> (r: (PreAuthGuard, Option<u64>))
        requires
            old(self).wf(),
        ensures
            final(self).wf(),
            final(self).limit() == old(self).limit(),
            r.0.pending_id() == old(self).next(),
            r.0.queue() == old(self).id(),
            final(self).id() == old(self).id(),
            final(self).next() == next_id_after(old(self).next()),
            (final(self).pending(), r.1) == spec_register(old(self).pending(), old(self).limit(), r.0.pending_id()),
    {
        let id = self.next_id;
        self.next_id = self.next_id.wrapping_add(1);
        let evicted = if self.entries.len() >= self.capacity {
            let oldest = self.entries.remove(0);
            Some(oldest)
        } else {
            None
        };
        self.entries.push(id);
        proof {
            if evicted is Some {
                assert(self.entries@ =~= old(self).entries@.drop_first().push(id));
            }
        }
        (PreAuthGuard { id, queue: self.queue_id }, evicted)
    }

    /// Whether the connection with this id is still pending (not evicted,
    /// released or authenticated).
    pub fn is_pending(&self, id: u64) -> (r: bool)
        ensures
            r == self.pending().contains(id),
    {
        let mut i: usize = 0;
        while i < self.entries.len()
            invariant
                i <= self.entries@.len(),
                forall|j: int| 0 <= j < i ==> self.entries@[j] != id,
            decreases self.entries@.len() - i,
        {
            if self.entries[i] == id {
                return true;
            }
            i = i + 1;
        }
        false
    }

    /// Drops the oldest pending connection with this id, if any.
    pub fn remove(&mut self, id: u64)
        ensures
            final(self).id() == old(self).id(),
            old(self).wf() ==> final(self).wf(),
            final(self).limit() == old(self).limit(),
            final(self).next() == old(self).next(),
            !old(self).pending().contains(id) ==> final(self).pending() == old(self).pending(),
            old(self).pending().contains(id) ==> exists|i: int|
                0 <= i < old(self).pending().len() && old(self).pending()[i] == id && (forall|j: int|
                    0 <= j < i ==> old(self).pending()[j] != id) && final(self).pending()
                    == #[trigger] old(self).pending().remove(i),
            final(self).pending().len() <= old(self).pending().len(),
    {
        let mut i: usize = 0;
        while i < self.entries.len()
            invariant
                i <= self.entries@.len(),
                self.entries@ == old(self).entries@,
                self.next_id == old(self).next_id,
                self.capacity == old(self).capacity,
                self.queue_id == old(self).queue_id,
                forall|j: int| 0 <= j < i ==> self.entries@[j] != id,
            decreases self.entries@.len() - i,
        {
            if self.entries[i] == id {
                self.entries.remove(i);
                return;
            }
            i = i + 1;
        }
    }

    /// Gives back a guard's slot.
    pub fn release(&mut self, guard: PreAuthGuard)
        requires
            guard.queue() == old(self).id(),
        ensures
            final(self).id() == old(self).id(),
            old(self).wf() ==> final(self).wf(),
            final(self).limit() == old(self).limit(),
            final(self).next() == old(self).next(),
            !old(self).pending().contains(guard.pending_id()) ==> final(self).pending() == old(self).pending(),
            old(self).pending().contains(guard.pending_id()) ==> final(self).pending().len() + 1
                == old(self).pending().len(),
            final(self).pending().len() <= old(self).pending().len(),
    {
        self.remove(guard.id);
    }

    /// Connections pending now.
    pub fn pending_count(&self) -> (n: usize)
        ensures
            n == self.pending().len(),
    {
        self.entries.len()
    }
}

} // verus!
