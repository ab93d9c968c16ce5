use rmux_web::backoff::{
    AuthBackoff, GC_AFTER_NANOS, INITIAL_DELAY_NANOS, MAX_BACKOFF_ENTRIES, MAX_DELAY_NANOS,
    RESET_AFTER_NANOS,
};
use std::time::Duration;

fn delay(backoff: &mut AuthBackoff, share: &str) -> Duration {
    Duration::from_nanos(backoff.delay_before_next_attempt(share))
}

#[test]
fn no_delay_on_first_attempt() {
    let mut backoff = AuthBackoff::new();
    assert_eq!(delay(&mut backoff, "share1"), Duration::ZERO);
}

#[test]
fn delay_doubles_after_failures() {
    let mut backoff = AuthBackoff::new();
    backoff.record_failure("share1");
    assert!(delay(&mut backoff, "share1") <= Duration::from_millis(100));
    backoff.record_failure("share1");
    assert!(delay(&mut backoff, "share1") >= Duration::from_millis(150));
}

#[test]
fn delay_caps_at_10_seconds() {
    let mut backoff = AuthBackoff::new();
    for _ in 0..20 {
        backoff.record_failure("share1");
    }
    let d = delay(&mut backoff, "share1");
    assert!(d <= Duration::from_secs(10));
    assert!(d >= Duration::from_secs(9));
}

#[test]
fn success_resets_backoff() {
    let mut backoff = AuthBackoff::new();
    backoff.record_failure("share1");
    backoff.record_failure("share1");
    backoff.record_success("share1");
    assert_eq!(delay(&mut backoff, "share1"), Duration::ZERO);
}

#[test]
fn backoff_is_per_share_isolated() {
    let mut backoff = AuthBackoff::new();
    for _ in 0..5 {
        backoff.record_failure("victim");
    }
    assert!(delay(&mut backoff, "victim") > Duration::from_millis(500));
    assert_eq!(delay(&mut backoff, "innocent"), Duration::ZERO);
}

#[test]
fn unknown_share_id_still_records_failure() {
    let mut backoff = AuthBackoff::new();
    backoff.record_failure("nonexistent");
    backoff.record_failure("nonexistent");
    assert!(delay(&mut backoff, "nonexistent") > Duration::from_millis(50));
}

#[test]
fn failure_table_evicts_old_entries_at_capacity() {
    let mut backoff = AuthBackoff::new();
    for index in 0..(MAX_BACKOFF_ENTRIES + 128) {
        backoff.record_failure(&format!("share-{index}"));
    }

    assert!(backoff.len() <= MAX_BACKOFF_ENTRIES);
    assert!(!backoff.contains("share-0"));
    assert!(backoff.contains(&format!("share-{}", MAX_BACKOFF_ENTRIES + 127)));
}

#[test]
fn failure_delays_double_from_100ms_to_the_cap() {
    let mut backoff = AuthBackoff::new();
    let expected = [100u64, 200, 400, 800, 1600, 3200, 6400, 10_000, 10_000];
    for (i, ms) in expected.iter().enumerate() {
        let f = backoff.record_failure_at("s", 1_000);
        assert_eq!(f.fails as usize, i + 1);
        assert_eq!(f.next_delay_nanos, ms * 1_000_000);
    }
    assert_eq!(INITIAL_DELAY_NANOS, 100_000_000);
    assert_eq!(MAX_DELAY_NANOS, 10_000_000_000);
}

#[test]
fn delay_counts_down_from_the_last_failure() {
    let mut backoff = AuthBackoff::new();
    backoff.record_failure_at("s", 1_000);
    backoff.record_failure_at("s", 2_000);
    assert_eq!(backoff.delay_before_next_attempt_at("s", 2_000), 200_000_000);
    assert_eq!(backoff.delay_before_next_attempt_at("s", 102_000), 199_900_000);
    assert_eq!(backoff.delay_before_next_attempt_at("s", 2_000 + 200_000_000), 0);
    // The share is still tracked until it has been idle long enough.
    assert!(backoff.contains("s"));
}

#[test]
fn idle_shares_reset_after_five_minutes() {
    let mut backoff = AuthBackoff::new();
    for _ in 0..8 {
        backoff.record_failure_at("s", 0);
    }
    assert_eq!(backoff.delay_before_next_attempt_at("s", RESET_AFTER_NANOS - 1), 0);
    assert!(backoff.contains("s"));
    assert_eq!(backoff.delay_before_next_attempt_at("s", RESET_AFTER_NANOS), 0);
    assert!(!backoff.contains("s"));
    let f = backoff.record_failure_at("s", RESET_AFTER_NANOS);
    assert_eq!(f.fails, 1);
}

#[test]
fn long_idle_shares_are_forgotten_on_any_call() {
    let mut backoff = AuthBackoff::new();
    backoff.record_failure_at("old", 0);
    backoff.record_failure_at("recent", GC_AFTER_NANOS);
    assert_eq!(backoff.len(), 2);
    assert_eq!(backoff.delay_before_next_attempt_at("other", GC_AFTER_NANOS), 0);
    // Idle for exactly the window, the old share is still kept.
    assert!(backoff.contains("old"));
    assert_eq!(backoff.delay_before_next_attempt_at("other", GC_AFTER_NANOS + 1), 0);
    assert!(!backoff.contains("old"));
    assert!(backoff.contains("recent"));
    assert_eq!(backoff.len(), 1);
}

#[test]
fn a_full_table_evicts_the_share_idle_longest() {
    let mut backoff = AuthBackoff::new();
    for index in 0..MAX_BACKOFF_ENTRIES {
        let at = if index == 17 { 5 } else { 10 + index as u64 };
        backoff.record_failure_at(&format!("share-{index}"), at);
    }
    assert_eq!(backoff.len(), MAX_BACKOFF_ENTRIES);
    backoff.record_failure_at("newcomer", 100_000);
    assert_eq!(backoff.len(), MAX_BACKOFF_ENTRIES);
    assert!(!backoff.contains("share-17"));
    assert!(backoff.contains("share-0"));
    assert!(backoff.contains("newcomer"));
    // A tracked share does not evict anyone.
    backoff.record_failure_at("share-0", 100_001);
    assert_eq!(backoff.len(), MAX_BACKOFF_ENTRIES);
    assert!(backoff.contains("newcomer"));
}

#[test]
fn clock_reads_never_go_back_and_bound_the_wait() {
    let mut backoff = AuthBackoff::new();
    let failure = backoff.record_failure("share");
    assert_eq!(failure.next_delay_nanos, 100_000_000);
    let wait = backoff.delay_before_next_attempt("share");
    assert!(wait <= failure.next_delay_nanos);
    assert_eq!(backoff.delay_before_next_attempt("other"), 0);
}
