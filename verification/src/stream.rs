//! The decisions of a share's stream to one viewer. The stream waits on
//! several sources at once (terminal output, the viewer's messages, the
//! share's revocation, its expiry, a coalesced refresh and a periodic
//! liveness tick); each thing that happens is an event, and the stream
//! answers with the action to carry out. Actions whose outcome matters
//! (queuing a frame, taking a snapshot, handling operator input) are
//! answered by a reply event before anything else happens. Times are
//! nanoseconds on the stream's own clock.

use std::collections::HashMap;
use vstd::prelude::*;

use crate::rate_limit::{spec_try_acquire, OperatorRateLimiter};
use crate::session::{
    apply_session_scroll, is_recoverable_session_queue_pressure, next_session_refresh_deadline,
    scrolled_offset, OutboundQueueResult, SESSION_INTERACTIVE_DEBOUNCE_NANOS,
    SESSION_INTERACTIVE_MAX_WAIT_NANOS, SESSION_SNAPSHOT_DEBOUNCE_NANOS,
    SESSION_SNAPSHOT_MAX_WAIT_NANOS,
};
use crate::share::{WebShareConnectionCounts, WebShareRevokeReason};

verus! {

broadcast use vstd::std_specs::hash::group_hash_axioms;

/// Close code for a viewer whose queue cannot take more frames.
pub const SLOW_VIEWER_CLOSE_CODE: u16 = 4001;

/// Latest time the stream clock may show.
pub const STREAM_CLOCK_MAX: u64 = 0x7fff_ffff_ffff_ffff;

/// How far ahead an idle refresh timer is set: a year.
pub const IDLE_REFRESH_NANOS: u64 = 31_536_000_000_000_000;

/// What to do next.
#[derive(Debug, Clone, Copy, PartialEq, Eq, Structural)]
pub enum StreamAction {
    /// Nothing.
    Nothing,
    /// Queue the output that just arrived; reply with how queuing went.
    QueueOutput,
    /// Handle the viewer's text message; a session stream replies with its
    /// outcome.
    HandleClientText,
    /// Handle the operator's binary frame; a session stream replies with its
    /// outcome.
    HandleOperatorFrame,
    /// Answer the ping.
    Pong,
    /// Take a fresh snapshot and queue it as a keyframe; reply with how
    /// queuing went.
    QueueSnapshot,
    /// Refresh the session's layout view; reply with how queuing went.
    QueueView,
    /// Try to patch the one scrolled pane; reply with how that went.
    QueueScrollPatch,
    /// Take a fresh snapshot before the operator's input; reply with how
    /// queuing went.
    QueueSnapshotBeforeOperatorFrame,
    /// Tell the viewer the new connection counts.
    SendViewerCount(WebShareConnectionCounts),
    /// The viewer closed: close and end.
    CloseByClient,
    /// Tell the viewer the share was revoked, close and end.
    CloseRevoked(WebShareRevokeReason),
    /// A spectator sent input: close with 4006 `spectator_no_binary` and end.
    CloseSpectatorBinary,
    /// The viewer cannot keep up: close with 4001 `viewer_backpressure` and
    /// end.
    CloseSlowViewer,
}

/// The reply a stream waits for.
#[derive(Debug, Clone, Copy, PartialEq, Eq, Structural)]
pub enum Reply {
    OutputQueued,
    SnapshotQueued,
    ViewQueued,
    ScrollPatched,
    OperatorSnapshotQueued,
    OperatorFrameHandled,
    ClientTextHandled,
}

/// The close code and reason of an action that ends the stream with one.
pub fn close_code(action: StreamAction) -> (r: Option<(u16, &'static str)>)
    ensures
        match action {
            StreamAction::CloseSpectatorBinary => r matches Some((c, s)) && c == 4006 && s@
                == "spectator_no_binary"@,
            StreamAction::CloseSlowViewer => r matches Some((c, s)) && c == SLOW_VIEWER_CLOSE_CODE
                && s@ == "viewer_backpressure"@,
            StreamAction::CloseRevoked(reason) => r matches Some((c, s)) && c == 1000 && s@
                == crate::share::revoke_reason_name(reason),
            _ => r is None,
        },
{
    match action {
        StreamAction::CloseSpectatorBinary => Some((4006, "spectator_no_binary")),
        StreamAction::CloseSlowViewer => Some((SLOW_VIEWER_CLOSE_CODE, "viewer_backpressure")),
        StreamAction::CloseRevoked(reason) => Some((1000, reason.as_str())),
        _ => None,
    }
}

/// The reply an action asks for.
pub open spec fn reply_of(action: StreamAction, session: bool) -> Option<Reply> {
    match action {
        StreamAction::QueueOutput => Some(Reply::OutputQueued),
        StreamAction::QueueSnapshot => Some(Reply::SnapshotQueued),
        StreamAction::QueueView => Some(Reply::ViewQueued),
        StreamAction::QueueScrollPatch => Some(Reply::ScrollPatched),
        StreamAction::QueueSnapshotBeforeOperatorFrame => Some(Reply::OperatorSnapshotQueued),
        StreamAction::HandleOperatorFrame => if session {
            Some(Reply::OperatorFrameHandled)
        } else {
            None
        },
        StreamAction::HandleClientText => if session {
            Some(Reply::ClientTextHandled)
        } else {
            None
        },
        _ => None,
    }
}

/// When a refresh is due if one is scheduled at `now`, and when the
/// pending refresh counts from: the first change still pending, or now.
pub open spec fn scheduled(pending_started_at: Option<u64>, now: u64, debounce: u64, max_wait: u64) -> (Option<u64>, u64) {
    let started = match pending_started_at {
        Some(s) => s,
        None => now,
    };
    (Some(started), if now + debounce <= started + max_wait {
        (now + debounce) as u64
    } else {
        (started + max_wait) as u64
    })
}

/// Something that happens to a pane stream.
#[derive(Debug, Clone, Copy, PartialEq, Eq, Structural)]
pub enum PaneStreamEvent {
    /// Terminal output arrived.
    Output,
    /// Terminal output was missed.
    Gap,
    /// Reply: how queuing the output went.
    OutputQueued(OutboundQueueResult),
    /// The viewer sent text.
    ClientText,
    /// The viewer sent a binary frame.
    ClientBinary,
    /// The viewer closed.
    ClientClose,
    /// The viewer pinged.
    Ping,
    /// The viewer ponged.
    Pong,
    /// The share was revoked.
    Revoked(WebShareRevokeReason),
    /// The share expired.
    TtlExpired,
    /// The refresh timer fired.
    RefreshDue,
    /// Reply: how queuing the fresh snapshot went.
    SnapshotQueued(OutboundQueueResult),
    /// The liveness tick: whether the pane is still there, and the current
    /// connection counts.
    AliveTick(bool, WebShareConnectionCounts),
}

/// The reply a pane event is, if it is one.
pub open spec fn pane_event_reply(e: PaneStreamEvent) -> Option<Reply> {
    match e {
        PaneStreamEvent::OutputQueued(_) => Some(Reply::OutputQueued),
        PaneStreamEvent::SnapshotQueued(_) => Some(Reply::SnapshotQueued),
        _ => None,
    }
}

/// What a pane stream keeps.
pub struct PaneStreamView {
    pub is_operator: bool,
    pub snapshot_pending: bool,
    pub pending_started_at: Option<u64>,
    pub refresh_at: u64,
    pub last_counts: WebShareConnectionCounts,
    pub allowance: u16,
    pub window_start: u64,
    pub awaiting: Option<Reply>,
}

/// A pane stream's state.
pub struct PaneStream {
    is_operator: bool,
    snapshot_pending: bool,
    pending_started_at: Option<u64>,
    refresh_at: u64,
    last_counts: WebShareConnectionCounts,
    rate: OperatorRateLimiter,
    awaiting: Option<Reply>,
}

impl View for PaneStream {
    type V = PaneStreamView;

    closed spec fn view(&self) -> PaneStreamView {
        PaneStreamView {
            is_operator: self.is_operator,
            snapshot_pending: self.snapshot_pending,
            pending_started_at: self.pending_started_at,
            refresh_at: self.refresh_at,
            last_counts: self.last_counts,
            allowance: self.rate.allowance(),
            window_start: self.rate.window_start(),
            awaiting: self.awaiting,
        }
    }
}

/// The pane stream's invariant: a pending snapshot is due no later than the
/// longest wait after the first change it covers.
pub open spec fn pane_wf(v: PaneStreamView) -> bool {
    &&& v.pending_started_at matches Some(t) ==> t <= STREAM_CLOCK_MAX
    &&& v.snapshot_pending ==> (v.pending_started_at matches Some(t) && v.refresh_at <= t
        + SESSION_SNAPSHOT_MAX_WAIT_NANOS)
}

/// The pane stream after `e` at `now`, and the action to carry out.
pub open spec fn spec_pane_step(v: PaneStreamView, e: PaneStreamEvent, now: u64) -> (PaneStreamView, StreamAction) {
    let resync = {
        let (started, at) = scheduled(
            v.pending_started_at,
            now,
            SESSION_SNAPSHOT_DEBOUNCE_NANOS,
            SESSION_SNAPSHOT_MAX_WAIT_NANOS,
        );
        PaneStreamView { snapshot_pending: true, pending_started_at: started, refresh_at: at, awaiting: None, ..v }
    };
    let done = PaneStreamView { awaiting: None, ..v };
    match e {
        PaneStreamEvent::Output => if v.snapshot_pending {
            (done, StreamAction::Nothing)
        } else {
            (PaneStreamView { awaiting: Some(Reply::OutputQueued), ..v }, StreamAction::QueueOutput)
        },
        PaneStreamEvent::OutputQueued(r) => if r == OutboundQueueResult::Queued {
            (done, StreamAction::Nothing)
        } else if r == OutboundQueueResult::Backpressure || r == OutboundQueueResult::Full {
            (resync, StreamAction::Nothing)
        } else {
            (done, StreamAction::CloseSlowViewer)
        },
        PaneStreamEvent::Gap => (resync, StreamAction::Nothing),
        PaneStreamEvent::ClientText => {
            let (ok, allowance, start) = spec_try_acquire(v.allowance, v.window_start, now);
            let w = PaneStreamView { allowance, window_start: start, awaiting: None, ..v };
            (w, if ok {
                StreamAction::HandleClientText
            } else {
                StreamAction::Nothing
            })
        },
        PaneStreamEvent::ClientBinary => if !v.is_operator {
            (done, StreamAction::CloseSpectatorBinary)
        } else {
            let (ok, allowance, start) = spec_try_acquire(v.allowance, v.window_start, now);
            let w = PaneStreamView { allowance, window_start: start, awaiting: None, ..v };
            (w, if ok {
                StreamAction::HandleOperatorFrame
            } else {
                StreamAction::Nothing
            })
        },
        PaneStreamEvent::ClientClose => (done, StreamAction::CloseByClient),
        PaneStreamEvent::Ping => (done, StreamAction::Pong),
        PaneStreamEvent::Pong => (done, StreamAction::Nothing),
        PaneStreamEvent::Revoked(reason) => (done, StreamAction::CloseRevoked(reason)),
        PaneStreamEvent::TtlExpired => (done, StreamAction::CloseRevoked(WebShareRevokeReason::TtlExpired)),
        PaneStreamEvent::RefreshDue => if v.snapshot_pending {
            (PaneStreamView { awaiting: Some(Reply::SnapshotQueued), ..v }, StreamAction::QueueSnapshot)
        } else {
            (done, StreamAction::Nothing)
        },
        PaneStreamEvent::SnapshotQueued(r) => if r == OutboundQueueResult::Queued {
            (PaneStreamView { snapshot_pending: false, pending_started_at: None, awaiting: None, ..v }, StreamAction::Nothing)
        } else if r == OutboundQueueResult::Backpressure || r == OutboundQueueResult::Full {
            let (started, at) = scheduled(
                None,
                now,
                SESSION_SNAPSHOT_DEBOUNCE_NANOS,
                SESSION_SNAPSHOT_MAX_WAIT_NANOS,
            );
            (PaneStreamView { snapshot_pending: true, pending_started_at: started, refresh_at: at, awaiting: None, ..v }, StreamAction::Nothing)
        } else {
            (done, StreamAction::CloseSlowViewer)
        },
        PaneStreamEvent::AliveTick(alive, counts) => if !alive {
            (done, StreamAction::CloseRevoked(WebShareRevokeReason::PaneGone))
        } else if counts != v.last_counts {
            (PaneStreamView { last_counts: counts, awaiting: None, ..v }, StreamAction::SendViewerCount(counts))
        } else {
            (done, StreamAction::Nothing)
        },
    }
}

impl PaneStream {
    /// A stream that has just queued its first snapshot, with a full input
    /// allowance and the given connection counts.
    pub fn new(is_operator: bool, counts: WebShareConnectionCounts) -> (s: Self)
        ensures
            pane_wf(s@),
            s@.is_operator == is_operator,
            !s@.snapshot_pending,
            s@.pending_started_at is None,
            s@.refresh_at == IDLE_REFRESH_NANOS,
            s@.last_counts == counts,
            s@.allowance == crate::rate_limit::OPERATOR_RATE_LIMIT,
            s@.window_start == 0,
            s@.awaiting is None,
    {
        PaneStream {
            is_operator,
            snapshot_pending: false,
            pending_started_at: None,
            refresh_at: IDLE_REFRESH_NANOS,
            last_counts: counts,
            rate: OperatorRateLimiter::new(),
            awaiting: None,
        }
    }

    /// Whether the refresh timer counts: only while a snapshot is pending.
    pub fn refresh_armed(&self) -> (r: bool)
        ensures
            r == self@.snapshot_pending,
    {
        self.snapshot_pending
    }

    /// When the refresh timer fires.
    pub fn refresh_at(&self) -> (t: u64)
        ensures
            t == self@.refresh_at,
    {
        self.refresh_at
    }

    /// Schedules the coalesced refresh.
    fn schedule(&mut self, now: u64)
        requires
            now <= STREAM_CLOCK_MAX,
            old(self).pending_started_at matches Some(t) ==> t <= STREAM_CLOCK_MAX,
        ensures
            (final(self).pending_started_at, final(self).refresh_at) == scheduled(
                old(self).pending_started_at,
                now,
                SESSION_SNAPSHOT_DEBOUNCE_NANOS,
                SESSION_SNAPSHOT_MAX_WAIT_NANOS,
            ),
            final(self).snapshot_pending == old(self).snapshot_pending,
            final(self).is_operator == old(self).is_operator,
            final(self).last_counts == old(self).last_counts,
            final(self).rate == old(self).rate,
            final(self).awaiting == old(self).awaiting,
    {
        self.refresh_at = next_session_refresh_deadline(
            now,
            &mut self.pending_started_at,
            SESSION_SNAPSHOT_DEBOUNCE_NANOS,
            SESSION_SNAPSHOT_MAX_WAIT_NANOS,
        );
    }

    /// Decides what to do about `event` at `now`. A reply must come exactly
    /// when the stream waits for one, and be that one.
    pub fn step(&mut self, event: PaneStreamEvent, now: u64) -> (action: StreamAction)
        requires
            pane_wf(old(self)@),
            now <= STREAM_CLOCK_MAX,
            pane_event_reply(event) == old(self)@.awaiting,
        ensures
            (final(self)@, action) == spec_pane_step(old(self)@, event, now),
            pane_wf(final(self)@),
            final(self)@.awaiting == reply_of(action, false),
    {
        let action = match event {
            PaneStreamEvent::Output => if self.snapshot_pending {
                self.awaiting = None;
                StreamAction::Nothing
            } else {
                self.awaiting = Some(Reply::OutputQueued);
                StreamAction::QueueOutput
            },
            PaneStreamEvent::OutputQueued(r) => {
                self.awaiting = None;
                if r == OutboundQueueResult::Queued {
                    StreamAction::Nothing
                } else if is_recoverable_session_queue_pressure(r) {
                    self.snapshot_pending = true;
                    self.schedule(now);
                    StreamAction::Nothing
                } else {
                    StreamAction::CloseSlowViewer
                }
            },
            PaneStreamEvent::Gap => {
                self.awaiting = None;
                self.snapshot_pending = true;
                self.schedule(now);
                StreamAction::Nothing
            },
            PaneStreamEvent::ClientText => {
                self.awaiting = None;
                if self.rate.try_acquire_at(now) {
                    StreamAction::HandleClientText
                } else {
                    StreamAction::Nothing
                }
            },
            PaneStreamEvent::ClientBinary => {
                self.awaiting = None;
                if !self.is_operator {
                    StreamAction::CloseSpectatorBinary
                } else if self.rate.try_acquire_at(now) {
                    StreamAction::HandleOperatorFrame
                } else {
                    StreamAction::Nothing
                }
            },
            PaneStreamEvent::ClientClose => {
                self.awaiting = None;
                StreamAction::CloseByClient
            },
            PaneStreamEvent::Ping => {
                self.awaiting = None;
                StreamAction::Pong
            },
            PaneStreamEvent::Pong => {
                self.awaiting = None;
                StreamAction::Nothing
            },
            PaneStreamEvent::Revoked(reason) => {
                self.awaiting = None;
                StreamAction::CloseRevoked(reason)
            },
            PaneStreamEvent::TtlExpired => {
                self.awaiting = None;
                StreamAction::CloseRevoked(WebShareRevokeReason::TtlExpired)
            },
            PaneStreamEvent::RefreshDue => if self.snapshot_pending {
                self.awaiting = Some(Reply::SnapshotQueued);
                StreamAction::QueueSnapshot
            } else {
                self.awaiting = None;
                StreamAction::Nothing
            },
            PaneStreamEvent::SnapshotQueued(r) => {
                self.awaiting = None;
                if r == OutboundQueueResult::Queued {
                    self.snapshot_pending = false;
                    self.pending_started_at = None;
                    StreamAction::Nothing
                } else if is_recoverable_session_queue_pressure(r) {
                    self.snapshot_pending = true;
                    self.pending_started_at = None;
                    self.schedule(now);
                    StreamAction::Nothing
                } else {
                    StreamAction::CloseSlowViewer
                }
            },
            PaneStreamEvent::AliveTick(alive, counts) => {
                self.awaiting = None;
                if !alive {
                    StreamAction::CloseRevoked(WebShareRevokeReason::PaneGone)
                } else if counts != self.last_counts {
                    self.last_counts = counts;
                    StreamAction::SendViewerCount(counts)
                } else {
                    StreamAction::Nothing
                }
            },
        };
        action
    }
}

/// What handling a viewer's text gave a session stream.
#[derive(Debug, Clone, Copy, PartialEq, Eq, Structural)]
pub enum SessionTextOutcome {
    /// Nothing more to do.
    Done,
    /// The viewer scrolled a pane by `delta` lines (negative: into history).
    Scroll(u32, i32),
    /// The viewer asked for a fresh snapshot.
    Snapshot,
}

/// What handling operator input gave a session stream.
#[derive(Debug, Clone, Copy, PartialEq, Eq, Structural)]
pub enum SessionOperatorOutcome {
    /// Nothing more to do.
    Done,
    /// The operator resized the session.
    Resize,
    /// The operator asked for a fresh snapshot.
    Snapshot,
}

/// Something that happens to a session stream.
#[derive(Debug, Clone, Copy, PartialEq, Eq, Structural)]
pub enum SessionStreamEvent {
    /// Attached output arrived.
    AttachData,
    /// The attached session was resized.
    AttachResize,
    /// The attached session is gone.
    AttachEnded,
    /// Reply: how queuing the output went.
    OutputQueued(OutboundQueueResult),
    /// The viewer sent text.
    ClientText,
    /// Reply: what handling the text gave.
    ClientTextHandled(SessionTextOutcome),
    /// Reply: how patching the scrolled pane went, if it was tried.
    ScrollPatched(Option<OutboundQueueResult>),
    /// The viewer sent a binary frame.
    ClientBinary,
    /// Reply: how queuing the snapshot before operator input went.
    OperatorSnapshotQueued(OutboundQueueResult),
    /// Reply: what handling the operator's input gave.
    OperatorFrameHandled(SessionOperatorOutcome),
    /// The viewer closed.
    ClientClose,
    /// The viewer pinged.
    Ping,
    /// The viewer ponged.
    Pong,
    /// The share was revoked.
    Revoked(WebShareRevokeReason),
    /// The share expired.
    TtlExpired,
    /// The refresh timer fired.
    RefreshDue,
    /// Reply: how queuing the fresh snapshot went.
    SnapshotQueued(OutboundQueueResult),
    /// Reply: how queuing the refreshed view went.
    ViewQueued(OutboundQueueResult),
    /// The liveness tick: whether the session is still there, and the
    /// current connection counts.
    AliveTick(bool, WebShareConnectionCounts),
}

/// The reply a session event is, if it is one.
pub open spec fn session_event_reply(e: SessionStreamEvent) -> Option<Reply> {
    match e {
        SessionStreamEvent::OutputQueued(_) => Some(Reply::OutputQueued),
        SessionStreamEvent::ClientTextHandled(_) => Some(Reply::ClientTextHandled),
        SessionStreamEvent::ScrollPatched(_) => Some(Reply::ScrollPatched),
        SessionStreamEvent::OperatorSnapshotQueued(_) => Some(Reply::OperatorSnapshotQueued),
        SessionStreamEvent::OperatorFrameHandled(_) => Some(Reply::OperatorFrameHandled),
        SessionStreamEvent::SnapshotQueued(_) => Some(Reply::SnapshotQueued),
        SessionStreamEvent::ViewQueued(_) => Some(Reply::ViewQueued),
        _ => None,
    }
}

/// What a session stream keeps.
pub struct SessionStreamView {
    pub is_operator: bool,
    pub snapshot_pending: bool,
    pub view_pending: bool,
    pub pending_started_at: Option<u64>,
    pub refresh_at: u64,
    pub last_counts: WebShareConnectionCounts,
    pub allowance: u16,
    pub window_start: u64,
    pub awaiting: Option<Reply>,
    pub scrolls: Map<u32, usize>,
}

/// A session stream's state. The scroll offsets are the viewer's, per pane;
/// refreshing the snapshot normalises them.
pub struct SessionStream {
    is_operator: bool,
    snapshot_pending: bool,
    view_pending: bool,
    pending_started_at: Option<u64>,
    refresh_at: u64,
    last_counts: WebShareConnectionCounts,
    rate: OperatorRateLimiter,
    awaiting: Option<Reply>,
    scrolls: HashMap<u32, usize>,
}

impl View for SessionStream {
    type V = SessionStreamView;

    closed spec fn view(&self) -> SessionStreamView {
        SessionStreamView {
            is_operator: self.is_operator,
            snapshot_pending: self.snapshot_pending,
            view_pending: self.view_pending,
            pending_started_at: self.pending_started_at,
            refresh_at: self.refresh_at,
            last_counts: self.last_counts,
            allowance: self.rate.allowance(),
            window_start: self.rate.window_start(),
            awaiting: self.awaiting,
            scrolls: self.scrolls@,
        }
    }
}

impl SessionStream {
    /// The scroll offset of each pane the viewer scrolled, by pane id.
    pub fn scrolls(&self) -> (r: &HashMap<u32, usize>)
        ensures
            r@ == self@.scrolls,
    {
        &self.scrolls
    }
}

/// The session stream's invariant: anything pending is due no later than
/// the longest wait after the first change it covers, and a scroll patch is
/// only tried with nothing pending.
pub open spec fn session_wf(v: SessionStreamView) -> bool {
    &&& v.pending_started_at matches Some(t) ==> t <= STREAM_CLOCK_MAX
    &&& (v.snapshot_pending || v.view_pending) ==> (v.pending_started_at matches Some(t)
        && v.refresh_at <= t + SESSION_SNAPSHOT_MAX_WAIT_NANOS)
    &&& v.awaiting == Some(Reply::ScrollPatched) ==> !v.snapshot_pending && !v.view_pending
}

/// The scroll offsets after a scroll request.
pub open spec fn scrolled(m: Map<u32, usize>, pane_id: u32, delta: i32) -> Map<u32, usize> {
    let current = if m.contains_key(pane_id) {
        m[pane_id]
    } else {
        0
    };
    let next = scrolled_offset(current, delta);
    if next == 0 {
        m.remove(pane_id)
    } else {
        m.insert(pane_id, next)
    }
}

/// A session stream that needs a fresh snapshot, refreshed after the given
/// debounce and longest wait.
pub open spec fn session_resync(v: SessionStreamView, now: u64, debounce: u64, max_wait: u64) -> SessionStreamView {
    let (started, at) = scheduled(v.pending_started_at, now, debounce, max_wait);
    SessionStreamView {
        snapshot_pending: true,
        view_pending: false,
        pending_started_at: started,
        refresh_at: at,
        awaiting: None,
        ..v
    }
}

/// The session stream after `e` at `now`, and the action to carry out.
pub open spec fn spec_session_step(v: SessionStreamView, e: SessionStreamEvent, now: u64) -> (SessionStreamView, StreamAction) {
    let done = SessionStreamView { awaiting: None, ..v };
    let resync = session_resync(v, now, SESSION_SNAPSHOT_DEBOUNCE_NANOS, SESSION_SNAPSHOT_MAX_WAIT_NANOS);
    let fresh_resync = session_resync(
        SessionStreamView { pending_started_at: None, ..v },
        now,
        SESSION_SNAPSHOT_DEBOUNCE_NANOS,
        SESSION_SNAPSHOT_MAX_WAIT_NANOS,
    );
    let quick_resync = session_resync(
        v,
        now,
        SESSION_INTERACTIVE_DEBOUNCE_NANOS,
        SESSION_INTERACTIVE_MAX_WAIT_NANOS,
    );
    match e {
        SessionStreamEvent::AttachData => if v.snapshot_pending {
            (done, StreamAction::Nothing)
        } else {
            (SessionStreamView { awaiting: Some(Reply::OutputQueued), ..v }, StreamAction::QueueOutput)
        },
        SessionStreamEvent::OutputQueued(r) => if r == OutboundQueueResult::Queued {
            let (started, at) = scheduled(
                v.pending_started_at,
                now,
                SESSION_SNAPSHOT_DEBOUNCE_NANOS,
                SESSION_SNAPSHOT_MAX_WAIT_NANOS,
            );
            (SessionStreamView { view_pending: true, pending_started_at: started, refresh_at: at, awaiting: None, ..v }, StreamAction::Nothing)
        } else if r == OutboundQueueResult::Backpressure || r == OutboundQueueResult::Full {
            (resync, StreamAction::Nothing)
        } else {
            (done, StreamAction::CloseSlowViewer)
        },
        SessionStreamEvent::AttachResize => (resync, StreamAction::Nothing),
        SessionStreamEvent::AttachEnded => (done, StreamAction::CloseRevoked(WebShareRevokeReason::SessionGone)),
        SessionStreamEvent::ClientText => {
            let (ok, allowance, start) = spec_try_acquire(v.allowance, v.window_start, now);
            if ok {
                (SessionStreamView { allowance, window_start: start, awaiting: Some(Reply::ClientTextHandled), ..v }, StreamAction::HandleClientText)
            } else {
                (SessionStreamView { allowance, window_start: start, awaiting: None, ..v }, StreamAction::Nothing)
            }
        },
        SessionStreamEvent::ClientTextHandled(outcome) => match outcome {
            SessionTextOutcome::Done => (done, StreamAction::Nothing),
            SessionTextOutcome::Scroll(pane_id, delta) => {
                let w = SessionStreamView { scrolls: scrolled(v.scrolls, pane_id, delta), ..v };
                if !v.snapshot_pending && !v.view_pending {
                    (SessionStreamView { awaiting: Some(Reply::ScrollPatched), ..w }, StreamAction::QueueScrollPatch)
                } else {
                    (session_resync(w, now, SESSION_INTERACTIVE_DEBOUNCE_NANOS, SESSION_INTERACTIVE_MAX_WAIT_NANOS), StreamAction::Nothing)
                }
            },
            SessionTextOutcome::Snapshot => (resync, StreamAction::Nothing),
        },
        SessionStreamEvent::ScrollPatched(result) => match result {
            Some(r) => if r == OutboundQueueResult::Queued {
                (SessionStreamView { pending_started_at: None, awaiting: None, ..v }, StreamAction::Nothing)
            } else if r == OutboundQueueResult::Backpressure || r == OutboundQueueResult::Full {
                (quick_resync, StreamAction::Nothing)
            } else {
                (done, StreamAction::CloseSlowViewer)
            },
            None => (quick_resync, StreamAction::Nothing),
        },
        SessionStreamEvent::ClientBinary => if !v.is_operator {
            (done, StreamAction::CloseSpectatorBinary)
        } else {
            let (ok, allowance, start) = spec_try_acquire(v.allowance, v.window_start, now);
            if !ok {
                (SessionStreamView { allowance, window_start: start, awaiting: None, ..v }, StreamAction::Nothing)
            } else if !v.scrolls.is_empty() {
                (SessionStreamView {
                    allowance,
                    window_start: start,
                    scrolls: Map::empty(),
                    awaiting: Some(Reply::OperatorSnapshotQueued),
                    ..v
                }, StreamAction::QueueSnapshotBeforeOperatorFrame)
            } else {
                (SessionStreamView { allowance, window_start: start, awaiting: Some(Reply::OperatorFrameHandled), ..v }, StreamAction::HandleOperatorFrame)
            }
        },
        SessionStreamEvent::OperatorSnapshotQueued(r) => if r == OutboundQueueResult::Queued {
            (SessionStreamView { awaiting: Some(Reply::OperatorFrameHandled), ..v }, StreamAction::HandleOperatorFrame)
        } else if r == OutboundQueueResult::Backpressure || r == OutboundQueueResult::Full {
            (SessionStreamView { awaiting: Some(Reply::OperatorFrameHandled), ..fresh_resync }, StreamAction::HandleOperatorFrame)
        } else {
            (done, StreamAction::CloseSlowViewer)
        },
        SessionStreamEvent::OperatorFrameHandled(outcome) => match outcome {
            SessionOperatorOutcome::Done => (done, StreamAction::Nothing),
            _ => (resync, StreamAction::Nothing),
        },
        SessionStreamEvent::ClientClose => (done, StreamAction::CloseByClient),
        SessionStreamEvent::Ping => (done, StreamAction::Pong),
        SessionStreamEvent::Pong => (done, StreamAction::Nothing),
        SessionStreamEvent::Revoked(reason) => (done, StreamAction::CloseRevoked(reason)),
        SessionStreamEvent::TtlExpired => (done, StreamAction::CloseRevoked(WebShareRevokeReason::TtlExpired)),
        SessionStreamEvent::RefreshDue => if v.snapshot_pending {
            (SessionStreamView { awaiting: Some(Reply::SnapshotQueued), ..v }, StreamAction::QueueSnapshot)
        } else if v.view_pending {
            (SessionStreamView { awaiting: Some(Reply::ViewQueued), ..v }, StreamAction::QueueView)
        } else {
            (done, StreamAction::Nothing)
        },
        SessionStreamEvent::SnapshotQueued(r) => if r == OutboundQueueResult::Queued {
            (SessionStreamView { snapshot_pending: false, view_pending: false, pending_started_at: None, awaiting: None, ..v }, StreamAction::Nothing)
        } else if r == OutboundQueueResult::Backpressure || r == OutboundQueueResult::Full {
            (fresh_resync, StreamAction::Nothing)
        } else {
            (done, StreamAction::CloseSlowViewer)
        },
        SessionStreamEvent::ViewQueued(r) => if r == OutboundQueueResult::Queued {
            (SessionStreamView {
                view_pending: false,
                pending_started_at: if v.snapshot_pending {
                    v.pending_started_at
                } else {
                    None
                },
                awaiting: None,
                ..v
            }, StreamAction::Nothing)
        } else if r == OutboundQueueResult::Backpressure || r == OutboundQueueResult::Full {
            (fresh_resync, StreamAction::Nothing)
        } else {
            (done, StreamAction::CloseSlowViewer)
        },
        SessionStreamEvent::AliveTick(alive, counts) => if !alive {
            (done, StreamAction::CloseRevoked(WebShareRevokeReason::SessionGone))
        } else if counts != v.last_counts {
            (SessionStreamView { last_counts: counts, awaiting: None, ..v }, StreamAction::SendViewerCount(counts))
        } else {
            (done, StreamAction::Nothing)
        },
    }
}

impl SessionStream {
    /// A stream that has just queued its first keyframe, with no scrolled
    /// panes, a full input allowance and the given connection counts.
    pub fn new(is_operator: bool, counts: WebShareConnectionCounts) -> (s: Self)
        ensures
            session_wf(s@),
            s@.is_operator == is_operator,
            !s@.snapshot_pending,
            !s@.view_pending,
            s@.pending_started_at is None,
            s@.refresh_at == IDLE_REFRESH_NANOS,
            s@.last_counts == counts,
            s@.allowance == crate::rate_limit::OPERATOR_RATE_LIMIT,
            s@.window_start == 0,
            s@.awaiting is None,
            s@.scrolls == Map::<u32, usize>::empty(),
    {
        SessionStream {
            is_operator,
            snapshot_pending: false,
            view_pending: false,
            pending_started_at: None,
            refresh_at: IDLE_REFRESH_NANOS,
            last_counts: counts,
            rate: OperatorRateLimiter::new(),
            awaiting: None,
            scrolls: HashMap::new(),
        }
    }

    /// Whether the refresh timer counts: while a snapshot or a view refresh
    /// is pending.
    pub fn refresh_armed(&self) -> (r: bool)
        ensures
            r == (self@.snapshot_pending || self@.view_pending),
    {
        self.snapshot_pending || self.view_pending
    }

    /// When the refresh timer fires.
    pub fn refresh_at(&self) -> (t: u64)
        ensures
            t == self@.refresh_at,
    {
        self.refresh_at
    }

    /// Marks a fresh snapshot pending and schedules it with the given
    /// debounce and longest wait.
    fn resync(&mut self, now: u64, debounce: u64, max_wait: u64)
        requires
            now <= STREAM_CLOCK_MAX,
            debounce <= SESSION_SNAPSHOT_DEBOUNCE_NANOS,
            max_wait <= SESSION_SNAPSHOT_MAX_WAIT_NANOS,
            old(self).pending_started_at matches Some(t) ==> t <= STREAM_CLOCK_MAX,
        ensures
            final(self).snapshot_pending,
            !final(self).view_pending,
            (final(self).pending_started_at, final(self).refresh_at) == scheduled(
                old(self).pending_started_at,
                now,
                debounce,
                max_wait,
            ),
            final(self).is_operator == old(self).is_operator,
            final(self).last_counts == old(self).last_counts,
            final(self).rate == old(self).rate,
            final(self).awaiting == old(self).awaiting,
            final(self).scrolls@ == old(self).scrolls@,
    {
        self.snapshot_pending = true;
        self.view_pending = false;
        self.refresh_at = next_session_refresh_deadline(now, &mut self.pending_started_at, debounce, max_wait);
    }

    /// Decides what to do about `event` at `now`. A reply must come exactly
    /// when the stream waits for one, and be that one.
    #[verifier::rlimit(60)]
    pub fn step(&mut self, event: SessionStreamEvent, now: u64) -> (action: StreamAction)
        requires
            session_wf(old(self)@),
            now <= STREAM_CLOCK_MAX,
            session_event_reply(event) == old(self)@.awaiting,
        ensures
            (final(self)@, action) == spec_session_step(old(self)@, event, now),
            session_wf(final(self)@),
            final(self)@.awaiting == reply_of(action, true),
    {
        match event {
            SessionStreamEvent::AttachData => if self.snapshot_pending {
                self.awaiting = None;
                StreamAction::Nothing
            } else {
                self.awaiting = Some(Reply::OutputQueued);
                StreamAction::QueueOutput
            },
            SessionStreamEvent::OutputQueued(r) => {
                self.awaiting = None;
                if r == OutboundQueueResult::Queued {
                    self.view_pending = true;
                    self.refresh_at = next_session_refresh_deadline(
                        now,
                        &mut self.pending_started_at,
                        SESSION_SNAPSHOT_DEBOUNCE_NANOS,
                        SESSION_SNAPSHOT_MAX_WAIT_NANOS,
                    );
                    StreamAction::Nothing
                } else if is_recoverable_session_queue_pressure(r) {
                    self.resync(now, SESSION_SNAPSHOT_DEBOUNCE_NANOS, SESSION_SNAPSHOT_MAX_WAIT_NANOS);
                    StreamAction::Nothing
                } else {
                    StreamAction::CloseSlowViewer
                }
            },
            SessionStreamEvent::AttachResize => {
                self.awaiting = None;
                self.resync(now, SESSION_SNAPSHOT_DEBOUNCE_NANOS, SESSION_SNAPSHOT_MAX_WAIT_NANOS);
                StreamAction::Nothing
            },
            SessionStreamEvent::AttachEnded => {
                self.awaiting = None;
                StreamAction::CloseRevoked(WebShareRevokeReason::SessionGone)
            },
            SessionStreamEvent::ClientText => {
                if self.rate.try_acquire_at(now) {
                    self.awaiting = Some(Reply::ClientTextHandled);
                    StreamAction::HandleClientText
                } else {
                    self.awaiting = None;
                    StreamAction::Nothing
                }
            },
            SessionStreamEvent::ClientTextHandled(outcome) => {
                self.awaiting = None;
                match outcome {
                    SessionTextOutcome::Done => StreamAction::Nothing,
                    SessionTextOutcome::Scroll(pane_id, delta) => {
                        apply_session_scroll(&mut self.scrolls, pane_id, delta);
                        if !self.snapshot_pending && !self.view_pending {
                            self.awaiting = Some(Reply::ScrollPatched);
                            StreamAction::QueueScrollPatch
                        } else {
                            self.resync(now, SESSION_INTERACTIVE_DEBOUNCE_NANOS, SESSION_INTERACTIVE_MAX_WAIT_NANOS);
                            StreamAction::Nothing
                        }
                    },
                    SessionTextOutcome::Snapshot => {
                        self.resync(now, SESSION_SNAPSHOT_DEBOUNCE_NANOS, SESSION_SNAPSHOT_MAX_WAIT_NANOS);
                        StreamAction::Nothing
                    },
                }
            },
            SessionStreamEvent::ScrollPatched(result) => {
                self.awaiting = None;
                match result {
                    Some(r) => if r == OutboundQueueResult::Queued {
                        self.pending_started_at = None;
                        StreamAction::Nothing
                    } else if is_recoverable_session_queue_pressure(r) {
                        self.resync(now, SESSION_INTERACTIVE_DEBOUNCE_NANOS, SESSION_INTERACTIVE_MAX_WAIT_NANOS);
                        StreamAction::Nothing
                    } else {
                        StreamAction::CloseSlowViewer
                    },
                    None => {
                        self.resync(now, SESSION_INTERACTIVE_DEBOUNCE_NANOS, SESSION_INTERACTIVE_MAX_WAIT_NANOS);
                        StreamAction::Nothing
                    },
                }
            },
            SessionStreamEvent::ClientBinary => {
                if !self.is_operator {
                    self.awaiting = None;
                    StreamAction::CloseSpectatorBinary
                } else if !self.rate.try_acquire_at(now) {
                    self.awaiting = None;
                    StreamAction::Nothing
                } else if !self.scrolls.is_empty() {
                    self.scrolls.clear();
                    self.awaiting = Some(Reply::OperatorSnapshotQueued);
                    StreamAction::QueueSnapshotBeforeOperatorFrame
                } else {
                    self.awaiting = Some(Reply::OperatorFrameHandled);
                    StreamAction::HandleOperatorFrame
                }
            },
            SessionStreamEvent::OperatorSnapshotQueued(r) => {
                if r == OutboundQueueResult::Queued {
                    self.awaiting = Some(Reply::OperatorFrameHandled);
                    StreamAction::HandleOperatorFrame
                } else if is_recoverable_session_queue_pressure(r) {
                    self.pending_started_at = None;
                    self.resync(now, SESSION_SNAPSHOT_DEBOUNCE_NANOS, SESSION_SNAPSHOT_MAX_WAIT_NANOS);
                    self.awaiting = Some(Reply::OperatorFrameHandled);
                    StreamAction::HandleOperatorFrame
                } else {
                    self.awaiting = None;
                    StreamAction::CloseSlowViewer
                }
            },
            SessionStreamEvent::OperatorFrameHandled(outcome) => {
                self.awaiting = None;
                match outcome {
                    SessionOperatorOutcome::Done => StreamAction::Nothing,
                    _ => {
                        self.resync(now, SESSION_SNAPSHOT_DEBOUNCE_NANOS, SESSION_SNAPSHOT_MAX_WAIT_NANOS);
                        StreamAction::Nothing
                    },
                }
            },
            SessionStreamEvent::ClientClose => {
                self.awaiting = None;
                StreamAction::CloseByClient
            },
            SessionStreamEvent::Ping => {
                self.awaiting = None;
                StreamAction::Pong
            },
            SessionStreamEvent::Pong => {
                self.awaiting = None;
                StreamAction::Nothing
            },
            SessionStreamEvent::Revoked(reason) => {
                self.awaiting = None;
                StreamAction::CloseRevoked(reason)
            },
            SessionStreamEvent::TtlExpired => {
                self.awaiting = None;
                StreamAction::CloseRevoked(WebShareRevokeReason::TtlExpired)
            },
            SessionStreamEvent::RefreshDue => if self.snapshot_pending {
                self.awaiting = Some(Reply::SnapshotQueued);
                StreamAction::QueueSnapshot
            } else if self.view_pending {
                self.awaiting = Some(Reply::ViewQueued);
                StreamAction::QueueView
            } else {
                self.awaiting = None;
                StreamAction::Nothing
            },
            SessionStreamEvent::SnapshotQueued(r) => {
                self.awaiting = None;
                if r == OutboundQueueResult::Queued {
                    self.snapshot_pending = false;
                    self.view_pending = false;
                    self.pending_started_at = None;
                    StreamAction::Nothing
                } else if is_recoverable_session_queue_pressure(r) {
                    self.pending_started_at = None;
                    self.resync(now, SESSION_SNAPSHOT_DEBOUNCE_NANOS, SESSION_SNAPSHOT_MAX_WAIT_NANOS);
                    StreamAction::Nothing
                } else {
                    StreamAction::CloseSlowViewer
                }
            },
            SessionStreamEvent::ViewQueued(r) => {
                self.awaiting = None;
                if r == OutboundQueueResult::Queued {
                    self.view_pending = false;
                    if !self.snapshot_pending {
                        self.pending_started_at = None;
                    }
                    StreamAction::Nothing
                } else if is_recoverable_session_queue_pressure(r) {
                    self.pending_started_at = None;
                    self.resync(now, SESSION_SNAPSHOT_DEBOUNCE_NANOS, SESSION_SNAPSHOT_MAX_WAIT_NANOS);
                    StreamAction::Nothing
                } else {
                    StreamAction::CloseSlowViewer
                }
            },
            SessionStreamEvent::AliveTick(alive, counts) => {
                self.awaiting = None;
                if !alive {
                    StreamAction::CloseRevoked(WebShareRevokeReason::SessionGone)
                } else if counts != self.last_counts {
                    self.last_counts = counts;
                    StreamAction::SendViewerCount(counts)
                } else {
                    StreamAction::Nothing
                }
            },
        }
    }
}

/// While a fresh snapshot is pending, live output is dropped rather than
/// queued: the snapshot will carry it.
pub proof fn lemma_pending_snapshot_drops_live_output(p: PaneStreamView, s: SessionStreamView, now: u64)
    ensures
        p.snapshot_pending ==> spec_pane_step(p, PaneStreamEvent::Output, now) == (
            PaneStreamView { awaiting: None, ..p },
            StreamAction::Nothing,
        ),
        s.snapshot_pending ==> spec_session_step(s, SessionStreamEvent::AttachData, now) == (
            SessionStreamView { awaiting: None, ..s },
            StreamAction::Nothing,
        ),
{
}

/// A spectator that sends input is closed, whatever else holds.
pub proof fn lemma_spectator_input_closes(p: PaneStreamView, s: SessionStreamView, now: u64)
    ensures
        !p.is_operator ==> spec_pane_step(p, PaneStreamEvent::ClientBinary, now).1
            == StreamAction::CloseSpectatorBinary,
        !s.is_operator ==> spec_session_step(s, SessionStreamEvent::ClientBinary, now).1
            == StreamAction::CloseSpectatorBinary,
{
}

/// Revocation and expiry always end the stream with the reason.
pub proof fn lemma_revocation_ends_the_stream(
    p: PaneStreamView,
    s: SessionStreamView,
    reason: WebShareRevokeReason,
    now: u64,
)
    ensures
        spec_pane_step(p, PaneStreamEvent::Revoked(reason), now).1 == StreamAction::CloseRevoked(
            reason,
        ),
        spec_session_step(s, SessionStreamEvent::Revoked(reason), now).1
            == StreamAction::CloseRevoked(reason),
        spec_pane_step(p, PaneStreamEvent::TtlExpired, now).1 == StreamAction::CloseRevoked(
            WebShareRevokeReason::TtlExpired,
        ),
        spec_session_step(s, SessionStreamEvent::TtlExpired, now).1
            == StreamAction::CloseRevoked(WebShareRevokeReason::TtlExpired),
{
}

/// Viewer counts are sent exactly when they changed since the last ones
/// sent, and are then remembered.
pub proof fn lemma_viewer_counts_sent_on_change(
    p: PaneStreamView,
    s: SessionStreamView,
    counts: WebShareConnectionCounts,
    now: u64,
)
    ensures
        (spec_pane_step(p, PaneStreamEvent::AliveTick(true, counts), now).1
            == StreamAction::SendViewerCount(counts)) <==> counts != p.last_counts,
        spec_pane_step(p, PaneStreamEvent::AliveTick(true, counts), now).0.last_counts == counts,
        (spec_session_step(s, SessionStreamEvent::AliveTick(true, counts), now).1
            == StreamAction::SendViewerCount(counts)) <==> counts != s.last_counts,
        spec_session_step(s, SessionStreamEvent::AliveTick(true, counts), now).0.last_counts
            == counts,
{
}

/// Operator input passes the rate limit at most as often as the allowance
/// allows: within one window, an accepted frame spends one unit of it, and
/// none is accepted once it is spent.
pub proof fn lemma_operator_input_spends_the_allowance(p: PaneStreamView, now: u64)
    requires
        p.is_operator,
        !(now >= p.window_start && now - p.window_start >= crate::rate_limit::RATE_WINDOW_NANOS),
    ensures
        spec_pane_step(p, PaneStreamEvent::ClientBinary, now).1 == StreamAction::HandleOperatorFrame
            <==> p.allowance > 0,
        p.allowance > 0 ==> spec_pane_step(p, PaneStreamEvent::ClientBinary, now).0.allowance
            == p.allowance - 1,
{
}

} // verus!
