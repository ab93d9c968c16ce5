use rmux_web::session::{
    OutboundQueueResult, SESSION_INTERACTIVE_MAX_WAIT_NANOS, SESSION_SNAPSHOT_DEBOUNCE_NANOS,
    SESSION_SNAPSHOT_MAX_WAIT_NANOS,
};
use rmux_web::share::{WebShareConnectionCounts, WebShareRevokeReason};
use rmux_web::stream::{
    close_code, PaneStream, PaneStreamEvent, SessionOperatorOutcome, SessionStream,
    SessionStreamEvent, SessionTextOutcome, StreamAction, IDLE_REFRESH_NANOS,
};

const MS: u64 = 1_000_000;

fn counts(readers: u16) -> WebShareConnectionCounts {
    WebShareConnectionCounts::new(readers, 5, false)
}

#[test]
fn pane_output_is_queued_until_the_viewer_falls_behind() {
    let mut s = PaneStream::new(false, counts(0));
    assert_eq!(s.step(PaneStreamEvent::Output, 0), StreamAction::QueueOutput);
    assert_eq!(s.step(PaneStreamEvent::OutputQueued(OutboundQueueResult::Queued), 0), StreamAction::Nothing);
    assert!(!s.refresh_armed());
    assert_eq!(s.refresh_at(), IDLE_REFRESH_NANOS);

    assert_eq!(s.step(PaneStreamEvent::Output, 10 * MS), StreamAction::QueueOutput);
    assert_eq!(
        s.step(PaneStreamEvent::OutputQueued(OutboundQueueResult::Backpressure), 10 * MS),
        StreamAction::Nothing
    );
    assert!(s.refresh_armed());
    assert_eq!(s.refresh_at(), 10 * MS + SESSION_SNAPSHOT_DEBOUNCE_NANOS);
    // While the snapshot is pending, live output is dropped.
    assert_eq!(s.step(PaneStreamEvent::Output, 20 * MS), StreamAction::Nothing);
    // Later misses push the refresh back, but never past the longest wait.
    assert_eq!(s.step(PaneStreamEvent::Gap, 180 * MS), StreamAction::Nothing);
    assert_eq!(s.refresh_at(), 10 * MS + SESSION_SNAPSHOT_MAX_WAIT_NANOS);

    assert_eq!(s.step(PaneStreamEvent::RefreshDue, 210 * MS), StreamAction::QueueSnapshot);
    assert_eq!(
        s.step(PaneStreamEvent::SnapshotQueued(OutboundQueueResult::Queued), 210 * MS),
        StreamAction::Nothing
    );
    assert!(!s.refresh_armed());
    assert_eq!(s.step(PaneStreamEvent::Output, 220 * MS), StreamAction::QueueOutput);
    assert_eq!(
        s.step(PaneStreamEvent::OutputQueued(OutboundQueueResult::Closed), 220 * MS),
        StreamAction::CloseSlowViewer
    );
}

#[test]
fn a_snapshot_that_meets_pressure_is_retried_from_now() {
    let mut s = PaneStream::new(false, counts(0));
    assert_eq!(s.step(PaneStreamEvent::Gap, 0), StreamAction::Nothing);
    assert_eq!(s.step(PaneStreamEvent::RefreshDue, 50 * MS), StreamAction::QueueSnapshot);
    assert_eq!(
        s.step(PaneStreamEvent::SnapshotQueued(OutboundQueueResult::Full), 50 * MS),
        StreamAction::Nothing
    );
    assert!(s.refresh_armed());
    assert_eq!(s.refresh_at(), 100 * MS);
    assert_eq!(s.step(PaneStreamEvent::RefreshDue, 100 * MS), StreamAction::QueueSnapshot);
    assert_eq!(
        s.step(PaneStreamEvent::SnapshotQueued(OutboundQueueResult::Closed), 100 * MS),
        StreamAction::CloseSlowViewer
    );
}

#[test]
fn pane_viewers_send_input_only_as_operators_and_within_the_rate() {
    let mut spectator = PaneStream::new(false, counts(1));
    assert_eq!(spectator.step(PaneStreamEvent::ClientBinary, 0), StreamAction::CloseSpectatorBinary);
    assert_eq!(
        close_code(StreamAction::CloseSpectatorBinary),
        Some((4006, "spectator_no_binary"))
    );
    assert_eq!(spectator.step(PaneStreamEvent::ClientText, 0), StreamAction::HandleClientText);

    let mut operator = PaneStream::new(true, counts(0));
    for _ in 0..200 {
        assert_eq!(operator.step(PaneStreamEvent::ClientBinary, 5), StreamAction::HandleOperatorFrame);
    }
    assert_eq!(operator.step(PaneStreamEvent::ClientBinary, 6), StreamAction::Nothing);
    assert_eq!(operator.step(PaneStreamEvent::ClientText, 7), StreamAction::Nothing);
    assert_eq!(
        operator.step(PaneStreamEvent::ClientBinary, 1_000_000_000),
        StreamAction::HandleOperatorFrame
    );
}

#[test]
fn pane_streams_end_on_close_revocation_expiry_and_a_gone_pane() {
    let mut s = PaneStream::new(false, counts(1));
    assert_eq!(s.step(PaneStreamEvent::Ping, 0), StreamAction::Pong);
    assert_eq!(s.step(PaneStreamEvent::Pong, 0), StreamAction::Nothing);
    assert_eq!(s.step(PaneStreamEvent::AliveTick(true, counts(1)), 0), StreamAction::Nothing);
    assert_eq!(
        s.step(PaneStreamEvent::AliveTick(true, counts(2)), 0),
        StreamAction::SendViewerCount(counts(2))
    );
    assert_eq!(s.step(PaneStreamEvent::AliveTick(true, counts(2)), 0), StreamAction::Nothing);
    assert_eq!(
        s.step(PaneStreamEvent::AliveTick(false, counts(2)), 0),
        StreamAction::CloseRevoked(WebShareRevokeReason::PaneGone)
    );
    assert_eq!(
        s.step(PaneStreamEvent::Revoked(WebShareRevokeReason::StoppedByOwner), 0),
        StreamAction::CloseRevoked(WebShareRevokeReason::StoppedByOwner)
    );
    assert_eq!(
        s.step(PaneStreamEvent::TtlExpired, 0),
        StreamAction::CloseRevoked(WebShareRevokeReason::TtlExpired)
    );
    assert_eq!(
        close_code(StreamAction::CloseRevoked(WebShareRevokeReason::TtlExpired)),
        Some((1000, "ttl_expired"))
    );
    assert_eq!(close_code(StreamAction::CloseSlowViewer), Some((4001, "viewer_backpressure")));
    assert_eq!(s.step(PaneStreamEvent::ClientClose, 0), StreamAction::CloseByClient);
    assert_eq!(close_code(StreamAction::CloseByClient), None);
}

#[test]
fn session_output_schedules_a_view_refresh() {
    let mut s = SessionStream::new(false, counts(0));
    assert_eq!(s.step(SessionStreamEvent::AttachData, 0), StreamAction::QueueOutput);
    assert_eq!(
        s.step(SessionStreamEvent::OutputQueued(OutboundQueueResult::Queued), 0),
        StreamAction::Nothing
    );
    assert!(s.refresh_armed());
    assert_eq!(s.refresh_at(), SESSION_SNAPSHOT_DEBOUNCE_NANOS);
    assert_eq!(s.step(SessionStreamEvent::RefreshDue, 50 * MS), StreamAction::QueueView);
    assert_eq!(
        s.step(SessionStreamEvent::ViewQueued(OutboundQueueResult::Queued), 50 * MS),
        StreamAction::Nothing
    );
    assert!(!s.refresh_armed());
    assert_eq!(s.step(SessionStreamEvent::RefreshDue, 60 * MS), StreamAction::Nothing);
}

#[test]
fn session_resizes_replace_the_view_refresh_with_a_snapshot() {
    let mut s = SessionStream::new(false, counts(0));
    assert_eq!(s.step(SessionStreamEvent::AttachData, 0), StreamAction::QueueOutput);
    assert_eq!(
        s.step(SessionStreamEvent::OutputQueued(OutboundQueueResult::Queued), 0),
        StreamAction::Nothing
    );
    assert_eq!(s.step(SessionStreamEvent::AttachResize, 5 * MS), StreamAction::Nothing);
    assert_eq!(s.step(SessionStreamEvent::AttachData, 6 * MS), StreamAction::Nothing);
    assert_eq!(s.step(SessionStreamEvent::RefreshDue, 55 * MS), StreamAction::QueueSnapshot);
    assert_eq!(
        s.step(SessionStreamEvent::SnapshotQueued(OutboundQueueResult::Queued), 55 * MS),
        StreamAction::Nothing
    );
    assert!(!s.refresh_armed());
    assert_eq!(
        s.step(SessionStreamEvent::AttachEnded, 60 * MS),
        StreamAction::CloseRevoked(WebShareRevokeReason::SessionGone)
    );
}

#[test]
fn session_scrolls_try_a_pane_patch_then_fall_back_to_a_quick_snapshot() {
    let mut s = SessionStream::new(false, counts(0));
    assert_eq!(s.step(SessionStreamEvent::ClientText, 0), StreamAction::HandleClientText);
    assert_eq!(
        s.step(SessionStreamEvent::ClientTextHandled(SessionTextOutcome::Scroll(7, -3)), 0),
        StreamAction::QueueScrollPatch
    );
    assert_eq!(s.scrolls().get(&7), Some(&3));
    assert_eq!(s.step(SessionStreamEvent::ScrollPatched(None), 0), StreamAction::Nothing);
    assert!(s.refresh_armed());
    assert!(s.refresh_at() <= SESSION_INTERACTIVE_MAX_WAIT_NANOS);

    // With a refresh already pending, a scroll only brings the snapshot on.
    assert_eq!(s.step(SessionStreamEvent::ClientText, 1), StreamAction::HandleClientText);
    assert_eq!(
        s.step(SessionStreamEvent::ClientTextHandled(SessionTextOutcome::Scroll(7, 3)), 1),
        StreamAction::Nothing
    );
    assert!(!s.scrolls().contains_key(&7));
    assert_eq!(s.step(SessionStreamEvent::ClientText, 2), StreamAction::HandleClientText);
    assert_eq!(
        s.step(SessionStreamEvent::ClientTextHandled(SessionTextOutcome::Done), 2),
        StreamAction::Nothing
    );
}

#[test]
fn operator_input_first_returns_scrolled_panes_to_live_output() {
    let mut s = SessionStream::new(true, counts(0));
    assert_eq!(s.step(SessionStreamEvent::ClientText, 0), StreamAction::HandleClientText);
    assert_eq!(
        s.step(SessionStreamEvent::ClientTextHandled(SessionTextOutcome::Scroll(1, -10)), 0),
        StreamAction::QueueScrollPatch
    );
    assert_eq!(
        s.step(SessionStreamEvent::ScrollPatched(Some(OutboundQueueResult::Queued)), 0),
        StreamAction::Nothing
    );
    assert_eq!(s.step(SessionStreamEvent::ClientBinary, 1), StreamAction::QueueSnapshotBeforeOperatorFrame);
    assert!(s.scrolls().is_empty());
    assert_eq!(
        s.step(SessionStreamEvent::OperatorSnapshotQueued(OutboundQueueResult::Queued), 1),
        StreamAction::HandleOperatorFrame
    );
    assert_eq!(
        s.step(SessionStreamEvent::OperatorFrameHandled(SessionOperatorOutcome::Resize), 1),
        StreamAction::Nothing
    );
    assert!(s.refresh_armed());
    assert_eq!(s.step(SessionStreamEvent::ClientBinary, 2), StreamAction::HandleOperatorFrame);
    assert_eq!(
        s.step(SessionStreamEvent::OperatorFrameHandled(SessionOperatorOutcome::Done), 2),
        StreamAction::Nothing
    );
    let mut spectator = SessionStream::new(false, counts(0));
    assert_eq!(spectator.step(SessionStreamEvent::ClientBinary, 0), StreamAction::CloseSpectatorBinary);
}
