//! Connection slots of a share: a bounded number of readers and at most one
//! operator at a time. A lease is taken on connect and given back on
//! disconnect.

use vstd::prelude::*;

verus! {

/// The slots of one share.
pub struct LeaseBook {
    book_id: Ghost<int>,
    current_readers: usize,
    max_readers: usize,
    operator_connected: bool,
}

/// A held reader slot.
pub struct ReadLease {
    book: Ghost<int>,
}

/// A held operator slot.
pub struct OperatorLease {
    book: Ghost<int>,
    active: bool,
}

impl ReadLease {
    /// The identity of the book that issued this lease.
    pub closed spec fn book(&self) -> int {
        self.book@
    }
}

impl LeaseBook {
    /// This book's identity, which the leases it issues carry; a lease is
    /// given back only to the book it names.
    pub closed spec fn id(&self) -> int {
        self.book_id@
    }

    /// Readers connected now.
    pub closed spec fn readers(&self) -> nat {
        self.current_readers as nat
    }

    /// Most readers allowed.
    pub closed spec fn capacity(&self) -> nat {
        self.max_readers as nat
    }

    /// Whether an operator is connected.
    pub closed spec fn operator(&self) -> bool {
        self.operator_connected
    }

    /// The reader count is within the capacity.
    pub open spec fn wf(&self) -> bool {
        self.readers() <= self.capacity()
    }

    /// Slots for up to `max_readers` readers, all free, and no operator.
    pub fn new(max_readers: usize) -> (b: Self)
        ensures
            b.wf(),
            b.readers() == 0,
            b.capacity() == max_readers,
            !b.operator(),
    {
        LeaseBook { book_id: Ghost(arbitrary()), current_readers: 0, max_readers, operator_connected: false }
    }

    /// Whether an operator is connected.
    pub fn operator_connected(&self) -> (r: bool)
        ensures
            r == self.operator(),
    {
        self.operator_connected
    }

    /// Takes the operator slot if it is free.
    pub fn try_operator(&mut self) -> (lease: Option<OperatorLease>)
        ensures
            final(self).id() == old(self).id(),
            old(self).wf() ==> final(self).wf(),
            lease is Some <==> !old(self).operator(),
            lease matches Some(l) ==> l.is_active() && l.book() == old(self).id(),
            final(self).operator(),
            final(self).readers() == old(self).readers(),
            final(self).capacity() == old(self).capacity(),
    {
        if self.operator_connected {
            None
        } else {
            self.operator_connected = true;
            Some(OperatorLease { book: self.book_id, active: true })
        }
    }

    /// Takes a reader slot if one is free.
    pub fn try_read(&mut self) -> (lease: Option<ReadLease>)
        ensures
            final(self).id() == old(self).id(),
            old(self).wf() ==> final(self).wf(),
            lease is Some <==> old(self).readers() < old(self).capacity(),
            lease matches Some(l) ==> l.book() == old(self).id(),
            final(self).readers() == (if lease is Some {
                old(self).readers() + 1
            } else {
                old(self).readers()
            }),
            final(self).capacity() == old(self).capacity(),
            final(self).operator() == old(self).operator(),
    {
        if self.current_readers >= self.max_readers {
            None
        } else {
            self.current_readers = self.current_readers + 1;
            Some(ReadLease { book: self.book_id })
        }
    }

    /// Readers connected now.
    pub fn reader_count(&self) -> (n: usize)
        ensures
            n == self.readers(),
    {
        self.current_readers
    }

    /// Gives back a reader slot.
    pub fn release_read(&mut self, lease: ReadLease)
        requires
            lease.book() == old(self).id(),
        ensures
            final(self).id() == old(self).id(),
            old(self).wf() ==> final(self).wf(),
            final(self).readers() == (if old(self).readers() == 0 {
                0
            } else {
                (old(self).readers() - 1) as nat
            }),
            final(self).capacity() == old(self).capacity(),
            final(self).operator() == old(self).operator(),
    {
        let ReadLease { book } = lease;
        self.current_readers = self.current_readers.saturating_sub(1);
    }

    /// Gives back the operator slot.
    pub fn release_operator(&mut self, lease: OperatorLease)
        requires
            lease.book() == old(self).id(),
        ensures
            final(self).id() == old(self).id(),
            old(self).wf() ==> final(self).wf(),
            final(self).operator() == (old(self).operator() && !lease.is_active()),
            final(self).readers() == old(self).readers(),
            final(self).capacity() == old(self).capacity(),
    {
        if lease.active {
            lease.release_operator_slot(self);
        }
    }
}

impl OperatorLease {
    /// The identity of the book that issued this lease.
    pub closed spec fn book(&self) -> int {
        self.book@
    }

    /// Whether this lease still holds the slot.
    pub closed spec fn is_active(&self) -> bool {
        self.active
    }

    /// Frees the operator slot of `book`.
    fn release_operator_slot(&self, book: &mut LeaseBook)
        ensures
            final(book).id() == old(book).id(),
            !final(book).operator(),
            final(book).readers() == old(book).readers(),
            final(book).capacity() == old(book).capacity(),
    {
        book.operator_connected = false;
    }
}

/// The reader count never passes the capacity: a book that starts within it
/// stays within it through any reader lease taken or given back.
pub proof fn lemma_readers_within_capacity(before: LeaseBook, after: LeaseBook, took: bool)
    requires
        before.readers() <= before.capacity(),
        after.capacity() == before.capacity(),
        took ==> before.readers() < before.capacity() && after.readers() == before.readers() + 1,
        !took ==> after.readers() <= before.readers(),
    ensures
        after.readers() <= after.capacity(),
{
}

} // verus!
