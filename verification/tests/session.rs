use rmux_web::ansi::{
    ansi_sequence_end, osc_sequence_end, status_justify, status_justify_name, StatusJustify,
    WebPaneSnapshot,
};
use rmux_web::protocol::{
    WS_RESIZE_NOTIFY, WS_SESSION_PANE_FRAME, WS_SESSION_VIEW, WS_SNAPSHOT_FULL,
};
use rmux_web::refresh::{AttachRefreshScheduler, AttachStatusRefreshScheduler};
use rmux_web::session::{
    apply_session_scroll, backlog_exceeds, duration_until, frame_is_stale,
    is_recoverable_session_queue_pressure, next_session_refresh_deadline,
    normalize_session_scroll_from_pane_frame, normalize_session_scrolls,
    pane_frame_matches_snapshot, saturating_u32, session_keyframe_payloads,
    session_pane_frame_payload, subtract_backlog, ttl_remaining_seconds,
    update_session_snapshot_pane, OutboundQueueResult, SessionLayout, SessionPaneFrame,
    SessionPaneView, TerminalSize, BACKLOG_BYTES_MAX, SESSION_INTERACTIVE_DEBOUNCE_NANOS,
    SESSION_INTERACTIVE_MAX_WAIT_NANOS, SESSION_SNAPSHOT_DEBOUNCE_NANOS,
    SESSION_SNAPSHOT_MAX_WAIT_NANOS,
};
use std::collections::HashMap;

fn pane(id: u32, scroll_offset: usize) -> SessionPaneView {
    SessionPaneView {
        id,
        x: 0,
        y: 0,
        cols: 80,
        rows: 23,
        active: true,
        history_size: 120,
        scroll_offset,
        alternate_on: false,
        mouse_on: false,
    }
}

fn frame_of(view: SessionPaneView) -> SessionPaneFrame {
    SessionPaneFrame { size: TerminalSize { cols: 80, rows: 24 }, pane: view, frame: Vec::new() }
}

#[test]
fn web_snapshot_bytes_preserve_ansi_style_and_cursor() {
    let snapshot = WebPaneSnapshot {
        cols: 80,
        rows: 24,
        output_sequence: 7,
        ansi_lines: vec![b"\x1b[32muser@host\x1b[0m".to_vec()],
        cursor_row: 3,
        cursor_col: 7,
        cursor_visible: true,
    };

    let bytes = snapshot.ansi_bytes();
    let rendered = String::from_utf8(bytes).expect("snapshot bytes are utf8");

    assert!(rendered.contains("\x1b[32muser@host"));
    assert!(rendered.contains("\x1b[4;8H\x1b[?25h"));
}

#[test]
fn web_snapshot_bytes_are_preamble_lines_and_cursor() {
    let snapshot = WebPaneSnapshot {
        cols: 10,
        rows: 2,
        output_sequence: 0,
        ansi_lines: vec![b"ab".to_vec(), b"cd".to_vec()],
        cursor_row: 9,
        cursor_col: 40,
        cursor_visible: false,
    };
    assert_eq!(
        snapshot.ansi_bytes(),
        b"\x1b[0m\x1b[?25l\x1b[2J\x1b[H\x1b[0mab\r\n\x1b[0mcd\x1b[0m\x1b[2;10H\x1b[?25l".to_vec()
    );
}

#[test]
fn escape_sequences_end_after_their_final_byte() {
    let line = b"\x1b[32mX";
    assert_eq!(ansi_sequence_end(line, 0), 5);
    let osc = b"\x1b]0;title\x07rest";
    assert_eq!(ansi_sequence_end(osc, 0), 10);
    let st = b"\x1b]0;t\x1b\\z";
    assert_eq!(osc_sequence_end(st, 0), 7);
    assert_eq!(ansi_sequence_end(b"\x1b7x", 0), 2);
    assert_eq!(ansi_sequence_end(b"\x1b", 0), 1);
    assert_eq!(ansi_sequence_end(b"\x1b[12", 0), 4);
}

#[test]
fn status_justify_reads_and_names_the_option() {
    assert_eq!(status_justify(Some("right")), StatusJustify::Right);
    assert_eq!(status_justify(Some("center")), StatusJustify::Centre);
    assert_eq!(status_justify(Some("absolute-centre")), StatusJustify::Centre);
    assert_eq!(status_justify(Some("bogus")), StatusJustify::Left);
    assert_eq!(status_justify(None), StatusJustify::Left);
    for j in [StatusJustify::Left, StatusJustify::Centre, StatusJustify::Right] {
        assert_eq!(status_justify(Some(status_justify_name(j))), j);
    }
}

#[test]
fn session_output_pressure_is_recoverable_until_writer_closes() {
    assert!(is_recoverable_session_queue_pressure(OutboundQueueResult::Backpressure));
    assert!(is_recoverable_session_queue_pressure(OutboundQueueResult::Full));
    assert!(!is_recoverable_session_queue_pressure(OutboundQueueResult::Closed));
    assert!(!is_recoverable_session_queue_pressure(OutboundQueueResult::Queued));
}

#[test]
fn backlog_is_bounded_and_never_negative() {
    assert!(!backlog_exceeds(BACKLOG_BYTES_MAX - 10, 10));
    assert!(backlog_exceeds(BACKLOG_BYTES_MAX - 10, 11));
    assert!(backlog_exceeds(usize::MAX, 1));
    assert_eq!(subtract_backlog(10, 4), 6);
    assert_eq!(subtract_backlog(4, 10), 0);
    assert!(frame_is_stale(3, 4));
    assert!(!frame_is_stale(4, 4));
    assert_eq!(saturating_u32(7), 7);
    assert_eq!(saturating_u32(usize::MAX), u32::MAX);
}

#[test]
fn session_refresh_deadline_is_bounded_by_max_wait() {
    let started = 5_000_000_000u64;
    let mut pending_started_at = None;

    assert_eq!(
        next_session_refresh_deadline(
            started,
            &mut pending_started_at,
            SESSION_SNAPSHOT_DEBOUNCE_NANOS,
            SESSION_SNAPSHOT_MAX_WAIT_NANOS,
        ),
        started + SESSION_SNAPSHOT_DEBOUNCE_NANOS
    );
    assert_eq!(pending_started_at, Some(started));

    let later = started + SESSION_SNAPSHOT_MAX_WAIT_NANOS - 10_000_000;
    assert_eq!(
        next_session_refresh_deadline(
            later,
            &mut pending_started_at,
            SESSION_SNAPSHOT_DEBOUNCE_NANOS,
            SESSION_SNAPSHOT_MAX_WAIT_NANOS,
        ),
        started + SESSION_SNAPSHOT_MAX_WAIT_NANOS
    );
}

#[test]
fn interactive_session_refresh_uses_short_latency_budget() {
    let started = 5_000_000_000u64;
    let mut pending_started_at = None;

    assert_eq!(
        next_session_refresh_deadline(
            started,
            &mut pending_started_at,
            SESSION_INTERACTIVE_DEBOUNCE_NANOS,
            SESSION_INTERACTIVE_MAX_WAIT_NANOS,
        ),
        started + SESSION_INTERACTIVE_DEBOUNCE_NANOS
    );

    let later = started + SESSION_INTERACTIVE_MAX_WAIT_NANOS - 2_000_000;
    assert_eq!(
        next_session_refresh_deadline(
            later,
            &mut pending_started_at,
            SESSION_INTERACTIVE_DEBOUNCE_NANOS,
            SESSION_INTERACTIVE_MAX_WAIT_NANOS,
        ),
        started + SESSION_INTERACTIVE_MAX_WAIT_NANOS
    );
}

#[test]
fn pane_frame_scroll_normalization_keeps_clamped_offset() {
    let mut scrolls = HashMap::from([(7u32, 10_000usize)]);
    let frame = frame_of(pane(7, 37));

    normalize_session_scroll_from_pane_frame(&mut scrolls, &frame);

    assert_eq!(scrolls.get(&7), Some(&37));
}

#[test]
fn pane_frame_scroll_normalization_removes_live_offset() {
    let mut scrolls = HashMap::from([(7u32, 12usize)]);
    let frame = frame_of(pane(7, 0));

    normalize_session_scroll_from_pane_frame(&mut scrolls, &frame);

    assert!(!scrolls.contains_key(&7));
}

#[test]
fn scroll_requests_move_into_history_and_back() {
    let mut scrolls: HashMap<u32, usize> = HashMap::new();
    apply_session_scroll(&mut scrolls, 3, -5);
    assert_eq!(scrolls.get(&3), Some(&5));
    apply_session_scroll(&mut scrolls, 3, 2);
    assert_eq!(scrolls.get(&3), Some(&3));
    apply_session_scroll(&mut scrolls, 3, 10);
    assert!(!scrolls.contains_key(&3));
    apply_session_scroll(&mut scrolls, 4, i32::MIN);
    assert_eq!(scrolls.get(&4), Some(&2_147_483_648));
}

#[test]
fn snapshot_normalization_keeps_only_scrolled_panes_still_present() {
    let mut scrolls = HashMap::from([(1u32, 9usize), (2, 4), (3, 6)]);
    let layout = SessionLayout {
        size: TerminalSize { cols: 80, rows: 24 },
        panes: vec![pane(1, 20), pane(2, 0), pane(4, 8)],
    };
    normalize_session_scrolls(&mut scrolls, &layout);
    assert_eq!(scrolls, HashMap::from([(1u32, 20usize)]));
}

#[test]
fn session_keyframe_keeps_resize_snapshot_and_view_atomic_order() {
    let size = TerminalSize { cols: 80, rows: 24 };
    let frames = session_keyframe_payloads(Some(size), b"paint", b"{}");

    assert_eq!(frames.len(), 3);
    assert_eq!(frames[0][0], WS_RESIZE_NOTIFY);
    assert_eq!(frames[1][0], WS_SNAPSHOT_FULL);
    assert_eq!(frames[2][0], WS_SESSION_VIEW);
    assert_eq!(&frames[0][1..], &[0, 80, 0, 24]);
    assert_eq!(&frames[1][1..], b"paint");

    let frames = session_keyframe_payloads(None, b"paint", b"{}");
    assert_eq!(frames.len(), 2);
    assert_eq!(frames[0][0], WS_SNAPSHOT_FULL);
}

#[test]
fn session_pane_frame_payload_uses_fixed_header_and_ansi_body() {
    let size = TerminalSize { cols: 120, rows: 40 };
    let frame = SessionPaneFrame {
        size,
        pane: SessionPaneView {
            id: 7,
            x: 41,
            y: 2,
            cols: 39,
            rows: 20,
            active: true,
            history_size: 50_000,
            scroll_offset: 12,
            alternate_on: false,
            mouse_on: false,
        },
        frame: b"\x1b[3;42Hrow".to_vec(),
    };

    let payload = session_pane_frame_payload(&frame);

    assert_eq!(payload[0], WS_SESSION_PANE_FRAME);
    assert_eq!(u32::from_be_bytes(payload[1..5].try_into().unwrap()), 7);
    assert_eq!(u16::from_be_bytes(payload[5..7].try_into().unwrap()), 120);
    assert_eq!(u16::from_be_bytes(payload[7..9].try_into().unwrap()), 40);
    assert_eq!(u16::from_be_bytes(payload[9..11].try_into().unwrap()), 41);
    assert_eq!(u16::from_be_bytes(payload[11..13].try_into().unwrap()), 2);
    assert_eq!(u16::from_be_bytes(payload[13..15].try_into().unwrap()), 39);
    assert_eq!(u16::from_be_bytes(payload[15..17].try_into().unwrap()), 20);
    assert_eq!(u32::from_be_bytes(payload[17..21].try_into().unwrap()), 12);
    assert_eq!(u32::from_be_bytes(payload[21..25].try_into().unwrap()), 50_000);
    assert_eq!(&payload[25..], b"\x1b[3;42Hrow");
}

#[test]
fn pane_frames_apply_only_to_the_matching_snapshot() {
    let size = TerminalSize { cols: 80, rows: 24 };
    let mut layout = SessionLayout { size, panes: vec![pane(1, 0), pane(2, 0)] };
    let frame = frame_of(pane(2, 5));
    assert!(pane_frame_matches_snapshot(size, &layout, &frame));
    assert!(!pane_frame_matches_snapshot(TerminalSize { cols: 81, rows: 24 }, &layout, &frame));
    let mut moved = pane(2, 0);
    moved.x = 3;
    assert!(!pane_frame_matches_snapshot(size, &layout, &frame_of(moved)));

    update_session_snapshot_pane(&mut layout, &frame);
    assert_eq!(layout.panes[1].scroll_offset, 5);
    assert_eq!(layout.panes[0], pane(1, 0));
    update_session_snapshot_pane(&mut layout, &frame_of(pane(9, 1)));
    assert_eq!(layout.panes.len(), 2);
}

#[test]
fn expiry_times_count_down_in_whole_seconds() {
    assert_eq!(duration_until(10, 4), 6);
    assert_eq!(duration_until(4, 10), 0);
    assert_eq!(ttl_remaining_seconds(Some(5_500_000_000), 1_000_000_000), Some(4));
    assert_eq!(ttl_remaining_seconds(Some(1), 2), None);
    assert_eq!(ttl_remaining_seconds(None, 2), None);
}

#[test]
fn schedule_keeps_the_first_deadline_until_cleared() {
    let mut scheduler = AttachRefreshScheduler::default();
    let first = 1_000u64;
    let second = first + scheduler.interval + scheduler.interval;

    scheduler.schedule(first);
    let first_deadline = scheduler.deadline().expect("scheduled deadline");
    scheduler.schedule(second);

    assert_eq!(scheduler.deadline(), Some(first_deadline));
    assert_eq!(first_deadline, first + 16_000_000);
    assert!(scheduler.is_pending());
    scheduler.clear();
    assert!(!scheduler.is_pending());
    scheduler.schedule(second);
    assert_ne!(scheduler.deadline(), Some(first_deadline));

    let mut status = AttachStatusRefreshScheduler::new(Some(15), 100);
    assert_eq!(status.deadline(), Some(115));
    status.reschedule(None, 200);
    assert_eq!(status.deadline(), None);
}
