//! Coalescing of an attached client's redraws: a redraw asked for while one
//! is already scheduled joins it, and the status line refreshes on its own
//! interval. Times are nanoseconds on the caller's clock.

use vstd::prelude::*;

verus! {

/// How long redraws are gathered before one is drawn: 16 ms.
pub const ATTACH_REFRESH_COALESCE_NANOS: u64 = 16_000_000;

/// When the next coalesced redraw is due.
#[derive(Debug, Clone, Copy, PartialEq, Eq, Structural)]
pub struct AttachRefreshScheduler {
    pub deadline: Option<u64>,
    pub interval: u64,
}

/// When the status line next refreshes.
#[derive(Debug, Clone, Copy, PartialEq, Eq, Structural)]
pub struct AttachStatusRefreshScheduler {
    pub deadline: Option<u64>,
}

impl Default for AttachRefreshScheduler {
    /// Nothing scheduled, gathering redraws for 16 ms.
    fn default() -> (s: Self)
        ensures
            s.deadline is None,
            s.interval == ATTACH_REFRESH_COALESCE_NANOS,
    {
        AttachRefreshScheduler { deadline: None, interval: ATTACH_REFRESH_COALESCE_NANOS }
    }
}

impl AttachRefreshScheduler {
    /// Asks for a redraw at `now`: due one interval later, unless one is
    /// already scheduled, which stays as it is.
    pub fn schedule(&mut self, now: u64)
        requires
            now + old(self).interval <= u64::MAX,
        ensures
            final(self).interval == old(self).interval,
            final(self).deadline == match old(self).deadline {
                Some(d) => Some(d),
                None => Some((now + old(self).interval) as u64),
            },
    {
        if self.deadline.is_none() {
            self.deadline = Some(now + self.interval);
        }
    }

    /// When the scheduled redraw is due, if one is.
    pub fn deadline(&self) -> (d: Option<u64>)
        ensures
            d == self.deadline,
    {
        self.deadline
    }

    /// Whether a redraw is scheduled.
    pub fn is_pending(&self) -> (r: bool)
        ensures
            r == self.deadline is Some,
    {
        self.deadline.is_some()
    }

    /// Forgets the scheduled redraw once it is drawn.
    pub fn clear(&mut self)
        ensures
            final(self).deadline is None,
            final(self).interval == old(self).interval,
    {
        self.deadline = None;
    }
}

impl AttachStatusRefreshScheduler {
    /// A status refresh one interval after `now`, or none without an
    /// interval.
    pub fn new(interval: Option<u64>, now: u64) -> (s: Self)
        requires
            interval matches Some(i) ==> now + i <= u64::MAX,
        ensures
            s.deadline == match interval {
                Some(i) => Some((now + i) as u64),
                None => None,
            },
    {
        let mut scheduler = AttachStatusRefreshScheduler { deadline: None };
        scheduler.reschedule(interval, now);
        scheduler
    }

    /// When the status line next refreshes, if it does.
    pub fn deadline(&self) -> (d: Option<u64>)
        ensures
            d == self.deadline,
    {
        self.deadline
    }

    /// Sets the next status refresh one interval after `now`, or none.
    pub fn reschedule(&mut self, interval: Option<u64>, now: u64)
        requires
            interval matches Some(i) ==> now + i <= u64::MAX,
        ensures
            final(self).deadline == match interval {
                Some(i) => Some((now + i) as u64),
                None => None,
            },
    {
        self.deadline = match interval {
            Some(i) => Some(now + i),
            None => None,
        };
    }
}

} // verus!
