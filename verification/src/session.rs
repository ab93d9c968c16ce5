//! What a web-share stream keeps and sends for a session: pane frames and
//! keyframes, the queue's pressure and backlog, per-pane scroll offsets, and
//! refresh and expiry timing. Times are nanoseconds.

use std::collections::HashMap;
use vstd::prelude::*;

use crate::bytes::{be16, be32, push_all, u16_be_bytes, u32_be_bytes};
use crate::protocol::{
    binary_payload, resize_payload, spec_binary_payload, spec_resize_payload, WS_SESSION_PANE_FRAME,
    WS_SESSION_VIEW, WS_SNAPSHOT_FULL,
};

verus! {

broadcast use vstd::std_specs::hash::group_hash_axioms;

/// Most bytes a viewer's queue may hold before new frames meet backpressure.
pub const BACKLOG_BYTES_MAX: usize = 2 * 1024 * 1024;

/// Debounce before a session snapshot refresh.
pub const SESSION_SNAPSHOT_DEBOUNCE_NANOS: u64 = 50_000_000;

/// Longest a session snapshot refresh waits after the first change.
pub const SESSION_SNAPSHOT_MAX_WAIT_NANOS: u64 = 200_000_000;

/// Debounce before a refresh that follows operator input.
pub const SESSION_INTERACTIVE_DEBOUNCE_NANOS: u64 = 8_000_000;

/// Longest a refresh that follows operator input waits.
pub const SESSION_INTERACTIVE_MAX_WAIT_NANOS: u64 = 32_000_000;

/// A terminal size.
#[derive(Debug, Clone, Copy, PartialEq, Eq, Structural)]
pub struct TerminalSize {
    pub cols: u16,
    pub rows: u16,
}

/// One pane of a session layout.
#[derive(Debug, Clone, Copy, PartialEq, Eq, Structural)]
pub struct SessionPaneView {
    pub id: u32,
    pub x: u16,
    pub y: u16,
    pub cols: u16,
    pub rows: u16,
    pub active: bool,
    pub history_size: usize,
    pub scroll_offset: usize,
    pub alternate_on: bool,
    pub mouse_on: bool,
}

/// The rendering of one pane at a session size.
#[derive(Debug)]
pub struct SessionPaneFrame {
    pub size: TerminalSize,
    pub pane: SessionPaneView,
    pub frame: Vec<u8>,
}

/// A session's layout and panes.
#[derive(Debug)]
pub struct SessionLayout {
    pub size: TerminalSize,
    pub panes: Vec<SessionPaneView>,
}

/// Where a frame was queued, or why not.
#[derive(Debug, Clone, Copy, PartialEq, Eq, Structural)]
pub enum OutboundQueueResult {
    Queued,
    Backpressure,
    Closed,
    Full,
}

/// Backpressure and a full queue are recoverable by a later keyframe; a
/// closed writer is not.
pub fn is_recoverable_session_queue_pressure(result: OutboundQueueResult) -> (r: bool)
    ensures
        r == (result == OutboundQueueResult::Backpressure || result == OutboundQueueResult::Full),
{
    match result {
        OutboundQueueResult::Backpressure | OutboundQueueResult::Full => true,
        _ => false,
    }
}

/// Whether queuing `next_len` more bytes would pass the backlog limit.
pub fn backlog_exceeds(backlog: usize, next_len: usize) -> (r: bool)
    ensures
        r == (backlog + next_len > BACKLOG_BYTES_MAX),
{
    backlog.saturating_add(next_len) > BACKLOG_BYTES_MAX
}

/// The backlog after `len` bytes left the queue, held at zero.
pub fn subtract_backlog(backlog: usize, len: usize) -> (r: usize)
    ensures
        r == (if backlog >= len {
            backlog - len
        } else {
            0
        }),
{
    backlog.saturating_sub(len)
}

/// A frame queued before the latest snapshot is stale and is skipped.
pub fn frame_is_stale(epoch: u64, latest_epoch: u64) -> (r: bool)
    ensures
        r == (epoch < latest_epoch),
{
    epoch < latest_epoch
}

/// `value`, held at `u32::MAX`.
pub fn saturating_u32(value: usize) -> (r: u32)
    ensures
        r == (if value > u32::MAX {
            u32::MAX as int
        } else {
            value as int
        }),
{
    if value > (u32::MAX as usize) {
        u32::MAX
    } else {
        value as u32
    }
}

/// `v` held at `u32::MAX`.
pub open spec fn clamp_u32(v: usize) -> u32 {
    if v > u32::MAX {
        u32::MAX
    } else {
        v as u32
    }
}

/// The binary frame of a pane frame: a fixed header of the pane id, the
/// session size, the pane's place and size and its scroll offset and history
/// size (held at `u32::MAX`), all big-endian, then the pane's bytes.
pub open spec fn spec_pane_frame_payload(size: TerminalSize, pane: SessionPaneView, body: Seq<u8>) -> Seq<u8> {
    spec_binary_payload(
        WS_SESSION_PANE_FRAME,
        be32(pane.id) + be16(size.cols) + be16(size.rows) + be16(pane.x) + be16(pane.y) + be16(
            pane.cols,
        ) + be16(pane.rows) + be32(clamp_u32(pane.scroll_offset)) + be32(
            clamp_u32(pane.history_size),
        ) + body,
    )
}

/// Builds the binary frame of a pane frame.
pub fn session_pane_frame_payload(frame: &SessionPaneFrame) -> (out: Vec<u8>)
    ensures
        out@ == spec_pane_frame_payload(frame.size, frame.pane, frame.frame@),
{
    let mut body: Vec<u8> = Vec::with_capacity(24);
    push_all(&mut body, &u32_be_bytes(frame.pane.id));
    push_all(&mut body, &u16_be_bytes(frame.size.cols));
    push_all(&mut body, &u16_be_bytes(frame.size.rows));
    push_all(&mut body, &u16_be_bytes(frame.pane.x));
    push_all(&mut body, &u16_be_bytes(frame.pane.y));
    push_all(&mut body, &u16_be_bytes(frame.pane.cols));
    push_all(&mut body, &u16_be_bytes(frame.pane.rows));
    push_all(&mut body, &u32_be_bytes(saturating_u32(frame.pane.scroll_offset)));
    push_all(&mut body, &u32_be_bytes(saturating_u32(frame.pane.history_size)));
    push_all(&mut body, frame.frame.as_slice());
    let out = binary_payload(WS_SESSION_PANE_FRAME, body.as_slice());
    assert(out@ =~= spec_pane_frame_payload(frame.size, frame.pane, frame.frame@));
    out
}

/// The frames of a keyframe, in the order the browser applies them: the
/// resize (if any), the snapshot, then the layout view.
pub fn session_keyframe_payloads(resize: Option<TerminalSize>, snapshot_ansi: &[u8], view_json: &[u8]) -> (frames: Vec<Vec<u8>>)
    ensures
        frames@.len() == (if resize is Some {
            3int
        } else {
            2int
        }),
        resize matches Some(s) ==> frames@[0]@ == spec_resize_payload(s.cols, s.rows),
        frames@[frames@.len() - 2]@ == spec_binary_payload(WS_SNAPSHOT_FULL, snapshot_ansi@),
        frames@[frames@.len() - 1]@ == spec_binary_payload(WS_SESSION_VIEW, view_json@),
{
    let mut frames: Vec<Vec<u8>> = Vec::new();
    if let Some(size) = resize {
        frames.push(resize_payload(size.cols, size.rows));
    }
    frames.push(binary_payload(WS_SNAPSHOT_FULL, snapshot_ansi));
    frames.push(binary_payload(WS_SESSION_VIEW, view_json));
    frames
}

/// Whether a pane frame fits the current snapshot: same session size, and a
/// pane with its id in the same place and size.
pub open spec fn spec_frame_matches(layout_size: TerminalSize, snapshot_size: TerminalSize, panes: Seq<SessionPaneView>, size: TerminalSize, pane: SessionPaneView) -> bool {
    &&& snapshot_size == size
    &&& layout_size == size
    &&& exists|i: int|
        0 <= i < panes.len() && #[trigger] panes[i].id == pane.id && panes[i].x == pane.x && panes[i].y
            == pane.y && panes[i].cols == pane.cols && panes[i].rows == pane.rows
}

/// Whether a pane frame fits the current snapshot.
pub fn pane_frame_matches_snapshot(snapshot_size: TerminalSize, layout: &SessionLayout, frame: &SessionPaneFrame) -> (r: bool)
    ensures
        r == spec_frame_matches(layout.size, snapshot_size, layout.panes@, frame.size, frame.pane),
{
    if !(snapshot_size == frame.size && layout.size == frame.size) {
        return false;
    }
    let mut i: usize = 0;
    while i < layout.panes.len()
        invariant
            i <= layout.panes@.len(),
            snapshot_size == frame.size,
            layout.size == frame.size,
            forall|j: int|
                0 <= j < i ==> !(#[trigger] layout.panes@[j].id == frame.pane.id && layout.panes@[j].x
                    == frame.pane.x && layout.panes@[j].y == frame.pane.y && layout.panes@[j].cols
                    == frame.pane.cols && layout.panes@[j].rows == frame.pane.rows),
        decreases layout.panes@.len() - i,
    {
        let p = layout.panes[i];
        if p.id == frame.pane.id && p.x == frame.pane.x && p.y == frame.pane.y && p.cols == frame.pane.cols
            && p.rows == frame.pane.rows {
            assert(layout.panes@[i as int].id == frame.pane.id);
            return true;
        }
        i = i + 1;
    }
    false
}

/// Replaces the first pane with the frame's id by the frame's pane, if any.
pub fn update_session_snapshot_pane(layout: &mut SessionLayout, frame: &SessionPaneFrame)
    ensures
        final(layout).size == old(layout).size,
        (forall|j: int| 0 <= j < old(layout).panes@.len() ==> #[trigger] old(layout).panes@[j].id != frame.pane.id)
            ==> final(layout).panes@ == old(layout).panes@,
        forall|i: int|
            0 <= i < old(layout).panes@.len() && #[trigger] old(layout).panes@[i].id == frame.pane.id && (
            forall|j: int| 0 <= j < i ==> old(layout).panes@[j].id != frame.pane.id) ==> final(layout).panes@
                == old(layout).panes@.update(i, frame.pane),
{
    let mut i: usize = 0;
    while i < layout.panes.len()
        invariant
            i <= layout.panes@.len(),
            layout.panes@ == old(layout).panes@,
            layout.size == old(layout).size,
            forall|j: int| 0 <= j < i ==> #[trigger] layout.panes@[j].id != frame.pane.id,
        decreases layout.panes@.len() - i,
    {
        if layout.panes[i].id == frame.pane.id {
            layout.panes.set(i, frame.pane);
            return;
        }
        i = i + 1;
    }
}

/// Keeps the scroll offset that a pane frame reports: forgets it when the
/// pane is live (offset zero).
pub fn normalize_session_scroll_from_pane_frame(scrolls: &mut HashMap<u32, usize>, frame: &SessionPaneFrame)
    ensures
        final(scrolls)@ == (if frame.pane.scroll_offset == 0 {
            old(scrolls)@.remove(frame.pane.id)
        } else {
            old(scrolls)@.insert(frame.pane.id, frame.pane.scroll_offset)
        }),
{
    if frame.pane.scroll_offset == 0 {
        scrolls.remove(&frame.pane.id);
    } else {
        scrolls.insert(frame.pane.id, frame.pane.scroll_offset);
    }
}

/// The scroll offset after a scroll request: a negative delta scrolls back
/// into history (adding, held at the maximum), a positive one towards live
/// output (subtracting, held at zero).
pub open spec fn scrolled_offset(current: usize, delta: i32) -> usize {
    if delta < 0 {
        if current + (-delta) > usize::MAX {
            usize::MAX
        } else {
            (current + (-delta)) as usize
        }
    } else if current >= delta {
        (current - delta) as usize
    } else {
        0
    }
}

/// Applies a scroll request to a pane's offset; an offset of zero is
/// forgotten.
pub fn apply_session_scroll(scrolls: &mut HashMap<u32, usize>, pane_id: u32, delta: i32)
    ensures
        ({
            let current = if old(scrolls)@.contains_key(pane_id) {
                old(scrolls)@[pane_id]
            } else {
                0
            };
            let next = scrolled_offset(current, delta);
            final(scrolls)@ == if next == 0 {
                old(scrolls)@.remove(pane_id)
            } else {
                old(scrolls)@.insert(pane_id, next)
            }
        }),
{
    let current: usize = match scrolls.get(&pane_id) {
        Some(v) => *v,
        None => 0,
    };
    let next: usize = if delta < 0 {
        let magnitude: u32 = if delta == i32::MIN {
            2147483648u32
        } else {
            (-delta) as u32
        };
        current.saturating_add(magnitude as usize)
    } else {
        current.saturating_sub(delta as usize)
    };
    if next == 0 {
        scrolls.remove(&pane_id);
    } else {
        scrolls.insert(pane_id, next);
    }
}

/// The scroll offsets a list of panes reports, later panes overriding
/// earlier ones with the same id.
pub open spec fn pane_offsets(panes: Seq<SessionPaneView>) -> Map<u32, usize>
    decreases panes.len(),
{
    if panes.len() == 0 {
        Map::empty()
    } else {
        pane_offsets(panes.drop_last()).insert(panes.last().id, panes.last().scroll_offset)
    }
}

/// Keeps only the scroll offsets of panes still in the snapshot, each set to
/// the offset the snapshot reports, and forgets those at zero.
pub open spec fn normalized_scrolls(scrolls: Map<u32, usize>, panes: Seq<SessionPaneView>) -> Map<u32, usize> {
    let current = pane_offsets(panes);
    Map::new(
        |k: u32| scrolls.contains_key(k) && current.contains_key(k) && current[k] > 0,
        |k: u32| current[k],
    )
}

/// The offsets of a prefix of the panes extend by the next pane.
proof fn lemma_pane_offsets_step(panes: Seq<SessionPaneView>, i: int)
    requires
        0 <= i < panes.len(),
    ensures
        pane_offsets(panes.subrange(0, i + 1)) == pane_offsets(panes.subrange(0, i)).insert(
            panes[i].id,
            panes[i].scroll_offset,
        ),
{
    assert(panes.subrange(0, i + 1).drop_last() =~= panes.subrange(0, i));
}

/// Re-reads every remembered scroll offset from a fresh snapshot.
pub fn normalize_session_scrolls(scrolls: &mut HashMap<u32, usize>, layout: &SessionLayout)
    ensures
        final(scrolls)@ == normalized_scrolls(old(scrolls)@, layout.panes@),
{
    let mut current: HashMap<u32, usize> = HashMap::new();
    let mut i: usize = 0;
    while i < layout.panes.len()
        invariant
            i <= layout.panes@.len(),
            current@ == pane_offsets(layout.panes@.subrange(0, i as int)),
        decreases layout.panes@.len() - i,
    {
        proof {
            lemma_pane_offsets_step(layout.panes@, i as int);
        }
        current.insert(layout.panes[i].id, layout.panes[i].scroll_offset);
        i = i + 1;
    }
    assert(layout.panes@.subrange(0, layout.panes@.len() as int) =~= layout.panes@);
    let mut kept: HashMap<u32, usize> = HashMap::new();
    let mut j: usize = 0;
    while j < layout.panes.len()
        invariant
            j <= layout.panes@.len(),
            current@ == pane_offsets(layout.panes@),
            scrolls@ == old(scrolls)@,
            forall|k: u32|
                #[trigger] kept@.contains_key(k) ==> normalized_scrolls(scrolls@, layout.panes@).contains_key(k)
                    && kept@[k] == current@[k],
            forall|a: int|
                0 <= a < j && normalized_scrolls(scrolls@, layout.panes@).contains_key(#[trigger] layout.panes@[a].id)
                    ==> kept@.contains_key(layout.panes@[a].id),
        decreases layout.panes@.len() - j,
    {
        let id = layout.panes[j].id;
        if scrolls.contains_key(&id) {
            match current.get(&id) {
                Some(offset) => {
                    if *offset > 0 {
                        kept.insert(id, *offset);
                    }
                },
                None => {},
            }
        }
        j = j + 1;
    }
    proof {
        assert forall|k: u32| #[trigger] normalized_scrolls(scrolls@, layout.panes@).contains_key(k) implies kept@.contains_key(k) by {
            lemma_pane_offsets_ids(layout.panes@, k);
            let a = choose|a: int| 0 <= a < layout.panes@.len() && layout.panes@[a].id == k;
            assert(normalized_scrolls(scrolls@, layout.panes@).contains_key(layout.panes@[a].id));
        }
        assert(kept@ =~= normalized_scrolls(old(scrolls)@, layout.panes@));
    }
    *scrolls = kept;
}

/// Every id with an offset is the id of some pane.
proof fn lemma_pane_offsets_ids(panes: Seq<SessionPaneView>, k: u32)
    ensures
        pane_offsets(panes).contains_key(k) ==> exists|a: int| 0 <= a < panes.len() && panes[a].id == k,
    decreases panes.len(),
{
    if panes.len() > 0 {
        lemma_pane_offsets_ids(panes.drop_last(), k);
        if pane_offsets(panes.drop_last()).contains_key(k) {
            let a = choose|a: int| 0 <= a < panes.drop_last().len() && panes.drop_last()[a].id == k;
            assert(panes[a].id == k);
        }
    }
}

/// Nanoseconds from `now` until `deadline`, zero once it has passed.
pub fn duration_until(deadline: u64, now: u64) -> (d: u64)
    ensures
        d == (if deadline >= now {
            deadline - now
        } else {
            0
        }),
{
    deadline.saturating_sub(now)
}

/// Whole seconds left before an expiry, if there is one and it has not
/// passed.
pub fn ttl_remaining_seconds(expires_at: Option<u64>, now: u64) -> (r: Option<u64>)
    ensures
        r == (match expires_at {
            Some(deadline) => if deadline >= now {
                Some(((deadline - now) / 1_000_000_000) as u64)
            } else {
                None::<u64>
            },
            None => None::<u64>,
        }),
{
    match expires_at {
        Some(deadline) => if deadline >= now {
            Some((deadline - now) / 1_000_000_000)
        } else {
            None
        },
        None => None,
    }
}

/// When to refresh a session after a change at `now`: after the debounce,
/// but no later than the longest wait counted from the first pending
/// change, which this remembers.
pub fn next_session_refresh_deadline(now: u64, pending_started_at: &mut Option<u64>, debounce: u64, max_wait: u64) -> (deadline: u64)
    requires
        now + debounce <= u64::MAX,
        (match *old(pending_started_at) {
            Some(s) => s,
            None => now,
        }) + max_wait <= u64::MAX,
    ensures
        *final(pending_started_at) == Some(match *old(pending_started_at) {
            Some(s) => s,
            None => now,
        }),
        ({
            let started = match *old(pending_started_at) {
                Some(s) => s,
                None => now,
            };
            deadline == if now + debounce <= started + max_wait {
                now + debounce
            } else {
                started + max_wait
            }
        }),
        deadline <= now + debounce,
        deadline <= (match *old(pending_started_at) {
            Some(s) => s,
            None => now,
        }) + max_wait,
{
    let started = match *pending_started_at {
        Some(s) => s,
        None => now,
    };
    *pending_started_at = Some(started);
    let by_debounce = now + debounce;
    let by_max_wait = started + max_wait;
    if by_debounce <= by_max_wait {
        by_debounce
    } else {
        by_max_wait
    }
}

} // verus!
