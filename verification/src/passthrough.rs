//! Terminal passthroughs that arrive while they cannot be shown wait in a
//! bounded queue: only the newest are kept.

use vstd::prelude::*;

verus! {

/// How many deferred passthroughs are kept.
pub const DEFERRED_PASSTHROUGH_LIMIT: usize = 16;

/// The queue after `incoming` joins `queued`: unchanged when nothing came,
/// else both in order, cut to the newest `DEFERRED_PASSTHROUGH_LIMIT`.
pub open spec fn spec_defer<T>(queued: Seq<T>, incoming: Seq<T>) -> Seq<T> {
    if incoming.len() == 0 {
        queued
    } else {
        let all = queued + incoming;
        if all.len() > DEFERRED_PASSTHROUGH_LIMIT {
            all.subrange(all.len() - DEFERRED_PASSTHROUGH_LIMIT, all.len() as int)
        } else {
            all
        }
    }
}

/// Queues `passthroughs` behind those already deferred, dropping the oldest
/// beyond the limit.
pub fn defer_passthroughs<T>(deferred: &mut Vec<T>, passthroughs: Vec<T>)
    requires
        old(deferred)@.len() + passthroughs@.len() <= usize::MAX,
    ensures
        final(deferred)@ == spec_defer(old(deferred)@, passthroughs@),
        passthroughs@.len() > 0 ==> final(deferred)@.len() <= DEFERRED_PASSTHROUGH_LIMIT,
{
    if passthroughs.len() == 0 {
        return;
    }
    let mut incoming = passthroughs;
    deferred.append(&mut incoming);
    let len = deferred.len();
    if len > DEFERRED_PASSTHROUGH_LIMIT {
        let kept = deferred.split_off(len - DEFERRED_PASSTHROUGH_LIMIT);
        *deferred = kept;
    }
}

} // verus!
