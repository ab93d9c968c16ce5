use rmux_web::exited_outputs::{
    same_target, PaneTarget, RetainedExitedPaneOutputs, EXITED_PANE_OUTPUT_RETENTION_TTL_NANOS,
};
use rmux_web::order::{bytes_less, slot_less};
use rmux_web::subscriptions::{
    cursor_event_limit, lag_recent_output, subscription_limit_error, SubscriptionLimitError,
};
use rmux_web::passthrough::{defer_passthroughs, DEFERRED_PASSTHROUGH_LIMIT};

fn target(session: &str, window: u32, pane: u32) -> PaneTarget {
    PaneTarget { session_name: session.to_owned(), window_index: window, pane_index: pane }
}

#[test]
fn deferred_passthroughs_keep_the_newest() {
    let mut queue: Vec<u32> = Vec::new();
    defer_passthroughs(&mut queue, Vec::new());
    assert!(queue.is_empty());
    defer_passthroughs(&mut queue, (0..10).collect());
    assert_eq!(queue, (0..10).collect::<Vec<u32>>());
    defer_passthroughs(&mut queue, (10..20).collect());
    assert_eq!(queue.len(), DEFERRED_PASSTHROUGH_LIMIT);
    assert_eq!(queue, (4..20).collect::<Vec<u32>>());
    defer_passthroughs(&mut queue, Vec::new());
    assert_eq!(queue, (4..20).collect::<Vec<u32>>());
}

#[test]
fn retained_output_is_read_until_it_expires() {
    let mut retained: RetainedExitedPaneOutputs<&str> = RetainedExitedPaneOutputs::new();
    let ttl = EXITED_PANE_OUTPUT_RETENTION_TTL_NANOS;
    assert_eq!(ttl, 5_000_000_000);
    retained.insert(target("a", 0, 1), "ring", 100, ttl);
    assert_eq!(retained.get(&target("a", 0, 1), 100 + ttl - 1), Some(&"ring"));
    assert_eq!(retained.get(&target("a", 0, 2), 100), None);
    assert!(!retained.is_empty(100 + ttl - 1));
    assert_eq!(retained.get(&target("a", 0, 1), 100 + ttl), None);
    assert!(retained.is_empty(100 + ttl));
}

#[test]
fn retaining_again_replaces_and_extends() {
    let mut retained: RetainedExitedPaneOutputs<u32> = RetainedExitedPaneOutputs::default();
    retained.insert(target("a", 0, 0), 1, 0, 10);
    retained.insert(target("b", 0, 0), 2, 5, 10);
    retained.insert(target("a", 0, 0), 3, 8, 10);
    assert_eq!(retained.get(&target("b", 0, 0), 14), Some(&2));
    assert_eq!(retained.get(&target("a", 0, 0), 17), Some(&3));
    assert_eq!(retained.get(&target("b", 0, 0), 17), None);
}

#[test]
fn cleanup_of_one_target_and_clear() {
    let mut retained: RetainedExitedPaneOutputs<u32> = RetainedExitedPaneOutputs::new();
    retained.insert(target("a", 1, 0), 1, 0, 10);
    retained.insert(target("a", 2, 0), 2, 0, 20);
    retained.cleanup_target_if_expired(&target("a", 1, 0), 9);
    assert_eq!(retained.get(&target("a", 1, 0), 9), Some(&1));
    retained.cleanup_target_if_expired(&target("a", 1, 0), 10);
    retained.cleanup_target_if_expired(&target("a", 2, 0), 10);
    assert!(!retained.is_empty(10));
    retained.clear();
    assert!(retained.is_empty(0));
    assert!(same_target(&target("x", 1, 2), &target("x", 1, 2)));
    assert!(!same_target(&target("x", 1, 2), &target("x", 1, 3)));
}

#[test]
fn slot_order_is_by_name_bytes_then_index() {
    assert!(bytes_less(b"ab", b"b"));
    assert!(bytes_less(b"a", b"ab"));
    assert!(!bytes_less(b"ab", b"ab"));
    assert!(slot_less("a", 9, "b", 0));
    assert!(slot_less("a", 1, "a", 2));
    assert!(!slot_less("a", 2, "a", 2));
    assert!(!slot_less("B", 0, "A", 5));
}

#[test]
fn cursor_event_limit_caps_and_refuses_zero() {
    assert_eq!(cursor_event_limit(None, 64), Ok(64));
    assert_eq!(cursor_event_limit(Some(10), 64), Ok(10));
    assert_eq!(cursor_event_limit(Some(500), 64), Ok(64));
    assert_eq!(
        cursor_event_limit(Some(0), 64),
        Err("pane output cursor max_events must be greater than zero".to_owned())
    );
}

#[test]
fn lag_notice_keeps_the_newest_recent_bytes() {
    let (bytes, oldest) = lag_recent_output(b"abcdef".to_vec(), Some(7), 4);
    assert_eq!(bytes, b"cdef".to_vec());
    assert_eq!(oldest, None);
    let (bytes, oldest) = lag_recent_output(b"ab".to_vec(), Some(7), 4);
    assert_eq!(bytes, b"ab".to_vec());
    assert_eq!(oldest, Some(7));
}

#[test]
fn subscription_limit_messages_name_the_limit() {
    assert_eq!(
        subscription_limit_error(SubscriptionLimitError::PerConnection { limit: 32 }),
        "pane output subscription limit exceeded for connection (limit 32)"
    );
    assert_eq!(
        subscription_limit_error(SubscriptionLimitError::PerPane { limit: 8 }),
        "pane output subscription limit exceeded for pane (limit 8)"
    );
}
