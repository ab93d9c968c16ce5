//! The operator's input rate limit: at most 200 binary frames per window of
//! one second.

use std::time::Instant;
use vstd::prelude::*;

use crate::clock::{instant_now, nanos_since};

verus! {

/// Frames allowed per window.
pub const OPERATOR_RATE_LIMIT: u16 = 200;

/// Length of a window: one second.
pub const RATE_WINDOW_NANOS: u64 = 1_000_000_000;

/// A window's remaining allowance.
pub struct OperatorRateLimiter {
    origin: Instant,
    remaining: u16,
    window_started: u64,
    latest: u64,
}

impl OperatorRateLimiter {
    /// Frames still allowed in the current window.
    pub closed spec fn allowance(&self) -> u16 {
        self.remaining
    }

    /// When the current window started, in nanoseconds since the origin.
    pub closed spec fn window_start(&self) -> u64 {
        self.window_started
    }

    /// The latest clock reading seen, in nanoseconds since the origin. The
    /// clock is read through it, so readings never go back.
    pub closed spec fn latest(&self) -> u64 {
        self.latest
    }

    /// The allowance is within the limit, and the window did not start
    /// after the latest reading.
    pub open spec fn wf(&self) -> bool {
        self.allowance() <= OPERATOR_RATE_LIMIT && self.window_start() <= self.latest()
    }

    /// A full allowance, with the window starting now.
    pub fn new() -> (l: Self)
        ensures
            l.wf(),
            l.allowance() == OPERATOR_RATE_LIMIT,
            l.window_start() == 0,
            l.latest() == 0,
    {
        OperatorRateLimiter { origin: instant_now(), remaining: OPERATOR_RATE_LIMIT, window_started: 0, latest: 0 }
    }

    /// Spends one frame of the allowance at `now`, starting a fresh window
    /// first if a second has passed since the current one began.
    pub fn try_acquire_at(&mut self, now: u64) -> (ok: bool)
        ensures
            (ok, final(self).allowance(), final(self).window_start()) == spec_try_acquire(
                old(self).allowance(),
                old(self).window_start(),
                now,
            ),
            final(self).latest() == (if now > old(self).latest() {
                now
            } else {
                old(self).latest()
            }),
            old(self).wf() ==> final(self).wf(),
    {
        if now > self.latest {
            self.latest = now;
        }
        if now >= self.window_started && now - self.window_started >= RATE_WINDOW_NANOS {
            self.remaining = OPERATOR_RATE_LIMIT;
            self.window_started = now;
        }
        if self.remaining == 0 {
            return false;
        }
        self.remaining = self.remaining - 1;
        true
    }

    /// Spends one frame of the allowance, now. The clock reading is never
    /// earlier than the latest one seen, so the window rule holds across
    /// calls.
    pub fn try_acquire(&mut self) -> (ok: bool)
        requires
            old(self).wf(),
        ensures
            final(self).wf(),
            old(self).latest() <= final(self).latest(),
            (ok, final(self).allowance(), final(self).window_start()) == spec_try_acquire(
                old(self).allowance(),
                old(self).window_start(),
                final(self).latest(),
            ),
    {
        let reading = nanos_since(&self.origin);
        let now = if reading > self.latest { reading } else { self.latest };
        self.try_acquire_at(now)
    }
}

/// What an acquisition at `now` gives: whether it is allowed, and the
/// allowance and window start after it.
pub open spec fn spec_try_acquire(allowance: u16, start: u64, now: u64) -> (bool, u16, u64) {
    let fresh = now >= start && now - start >= RATE_WINDOW_NANOS;
    let before = if fresh {
        OPERATOR_RATE_LIMIT
    } else {
        allowance
    };
    let next_start = if fresh {
        now
    } else {
        start
    };
    if before > 0 {
        (true, (before - 1) as u16, next_start)
    } else {
        (false, before, next_start)
    }
}

/// Within one window no more than the limit is allowed: starting from an
/// allowance of at most 200, `n` acquisitions that stay in the window leave
/// an allowance `n` lower, so at most 200 of them succeed.
pub proof fn lemma_acquisitions_spend_the_allowance(allowance: u16, start: u64, now: u64)
    requires
        allowance <= OPERATOR_RATE_LIMIT,
        !(now >= start && now - start >= RATE_WINDOW_NANOS),
    ensures
        spec_try_acquire(allowance, start, now).0 <==> allowance > 0,
        spec_try_acquire(allowance, start, now).1 == (if allowance > 0 {
            allowance - 1
        } else {
            0
        }),
        spec_try_acquire(allowance, start, now).2 == start,
{
}

/// The window rule for an acquisition no earlier than the window's start:
/// within a second of the start, an acquisition succeeds exactly while
/// allowance is left and spends one unit, and a refused one changes
/// nothing; from a second on, the allowance is refilled to 200, the window
/// restarts at `now`, and the acquisition succeeds.
pub proof fn lemma_window_rule(allowance: u16, start: u64, now: u64)
    requires
        allowance <= OPERATOR_RATE_LIMIT,
        start <= now,
    ensures
        now - start < RATE_WINDOW_NANOS ==> spec_try_acquire(allowance, start, now) == (if allowance > 0 {
            (true, (allowance - 1) as u16, start)
        } else {
            (false, allowance, start)
        }),
        now - start >= RATE_WINDOW_NANOS ==> spec_try_acquire(allowance, start, now) == (
            true,
            (OPERATOR_RATE_LIMIT - 1) as u16,
            now,
        ),
{
}

/// What a run of acquisitions at the given instants gives, one after
/// another: whether each was allowed, then the allowance and window start
/// left after them.
pub open spec fn acquire_all(allowance: u16, start: u64, times: Seq<u64>) -> (Seq<bool>, u16, u64)
    decreases times.len(),
{
    if times.len() == 0 {
        (Seq::empty(), allowance, start)
    } else {
        let first = spec_try_acquire(allowance, start, times[0]);
        let rest = acquire_all(first.1, first.2, times.drop_first());
        (seq![first.0] + rest.0, rest.1, rest.2)
    }
}

/// Within one window at most the allowance passes: of any run of
/// acquisitions less than a second after the window started, exactly the
/// first `allowance` are allowed (all 200 for a fresh window), every later
/// one is refused and changes nothing, and the window does not move.
pub proof fn lemma_window_allows_at_most_the_allowance(allowance: u16, start: u64, times: Seq<u64>)
    requires
        allowance <= OPERATOR_RATE_LIMIT,
        forall|i: int| 0 <= i < times.len() ==> start <= #[trigger] times[i] && times[i] - start < RATE_WINDOW_NANOS,
    ensures
        acquire_all(allowance, start, times).0.len() == times.len(),
        forall|i: int| 0 <= i < times.len() ==> #[trigger] acquire_all(allowance, start, times).0[i] == (i < allowance),
        acquire_all(allowance, start, times).1 == (if times.len() <= allowance {
            allowance - times.len()
        } else {
            0
        }),
        acquire_all(allowance, start, times).2 == start,
    decreases times.len(),
{
    if times.len() > 0 {
        let first = spec_try_acquire(allowance, start, times[0]);
        let rest_times = times.drop_first();
        assert forall|i: int| 0 <= i < rest_times.len() implies start <= #[trigger] rest_times[i]
            && rest_times[i] - start < RATE_WINDOW_NANOS by {
            assert(rest_times[i] == times[i + 1]);
        }
        lemma_window_allows_at_most_the_allowance(first.1, first.2, rest_times);
        let all = acquire_all(allowance, start, times);
        let rest = acquire_all(first.1, first.2, rest_times);
        assert forall|i: int| 0 <= i < times.len() implies #[trigger] all.0[i] == (i < allowance) by {
            if i > 0 {
                assert(all.0[i] == rest.0[i - 1]);
            }
        }
    }
}

} // verus!
