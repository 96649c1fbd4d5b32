use herdr_federation::origin::OriginKey;
use herdr_federation::status::{
    now_unix_seconds, unix_seconds, FederationStatusTracker, OriginStatus,
};

#[test]
fn status_tracker_starts_empty() {
    let tracker = FederationStatusTracker::new();
    assert_eq!(tracker.reachable_count(), 0);
    assert_eq!(tracker.unreachable_count(), 0);
}

#[test]
fn status_tracker_marks_success() {
    let mut tracker = FederationStatusTracker::new();
    let key = OriginKey::new("test-origin").unwrap();
    tracker.mark_success(&key);
    assert_eq!(tracker.get_status(&key), OriginStatus::Reachable);
    assert_eq!(tracker.reachable_count(), 1);
    assert_eq!(tracker.unreachable_count(), 0);
}

#[test]
fn status_tracker_marks_failure() {
    let mut tracker = FederationStatusTracker::new();
    let key = OriginKey::new("test-origin").unwrap();
    tracker.mark_failure(&key, "connection timeout");
    let status = tracker.get_status(&key);
    assert!(matches!(status, OriginStatus::Unreachable { .. }));
    assert_eq!(tracker.reachable_count(), 0);
    assert_eq!(tracker.unreachable_count(), 1);
}

#[test]
fn status_tracker_counts_multiple_origins() {
    let mut tracker = FederationStatusTracker::new();
    let key1 = OriginKey::new("origin1").unwrap();
    let key2 = OriginKey::new("origin2").unwrap();
    let key3 = OriginKey::new("origin3").unwrap();

    tracker.mark_success(&key1);
    tracker.mark_success(&key2);
    tracker.mark_failure(&key3, "socket error");

    assert_eq!(tracker.reachable_count(), 2);
    assert_eq!(tracker.unreachable_count(), 1);
}

#[test]
fn status_recovery_from_failure() {
    let mut tracker = FederationStatusTracker::new();
    let key = OriginKey::new("test-origin").unwrap();

    tracker.mark_failure(&key, "timeout");
    assert_eq!(
        tracker.get_status(&key),
        OriginStatus::Unreachable { error: "timeout".to_string() }
    );

    // Recovery resets the failure count.
    tracker.mark_success(&key);
    let detail = tracker.get_detail(&key);
    assert_eq!(detail.status, OriginStatus::Reachable);
    assert_eq!(detail.failure_count, 0);
}

#[test]
fn details_keep_times_and_count_failures() {
    let mut tracker = FederationStatusTracker::default();
    let key = OriginKey::new("n1").unwrap();
    let other = OriginKey::new("n2").unwrap();
    tracker.mark_success_at(&other, 7);
    tracker.mark_success_at(&key, 100);
    tracker.mark_failure_at(&key, "one", 200);
    tracker.mark_failure_at(&key, "two", 300);

    let detail = tracker.get_detail(&key);
    assert_eq!(detail.status.to_string(), "unreachable: two");
    assert_eq!(detail.last_poll_at, Some(300));
    assert_eq!(detail.last_success_at, Some(100));
    assert_eq!(detail.failure_count, 2);

    let untouched = tracker.get_detail(&other);
    assert_eq!(untouched.status.to_string(), "reachable");
    assert_eq!(untouched.last_poll_at, Some(7));

    let unknown = tracker.get_detail(&OriginKey::new("n3").unwrap());
    assert_eq!(unknown.status.to_string(), "unknown");
    assert_eq!(unknown.last_poll_at, None);

    let mut all: Vec<(String, String)> = tracker
        .all_statuses()
        .into_iter()
        .map(|(key, status)| (key.to_string(), status.to_string()))
        .collect();
    all.sort();
    assert_eq!(
        all,
        vec![
            ("n1".to_string(), "unreachable: two".to_string()),
            ("n2".to_string(), "reachable".to_string()),
        ]
    );
    assert_eq!(tracker.reachable_count() + tracker.unreachable_count(), all.len());
}

#[test]
fn clock_readings_before_the_epoch_are_zero() {
    assert_eq!(unix_seconds(None), 0);
    assert_eq!(unix_seconds(Some(12)), 12);
}

#[test]
fn clock_is_read() {
    // Some day after the first of January 2024, in seconds, and not in smaller units.
    let now = now_unix_seconds();
    assert!(now > 1_704_067_200);
    assert!(now < 100_000_000_000);
}

#[test]
fn the_failure_count_is_the_run_of_failures() {
    let mut tracker = FederationStatusTracker::new();
    let key = OriginKey::new("n1").unwrap();
    let mut run = 0;
    for (now, up) in [false, false, true, false, false, false].into_iter().enumerate() {
        if up {
            tracker.mark_success_at(&key, now as u64);
            run = 0;
        } else {
            tracker.mark_failure_at(&key, "down", now as u64);
            run += 1;
        }
        assert_eq!(tracker.get_detail(&key).failure_count, run);
    }
    assert_eq!(run, 3);
    assert_eq!(tracker.get_detail(&key).last_success_at, Some(2));
}

#[test]
fn each_origin_has_its_own_history() {
    let mut tracker = FederationStatusTracker::new();
    let key = |text: &str| OriginKey::new(text).unwrap();
    tracker.mark_failure_at(&key("a"), "a1", 1);
    tracker.mark_success_at(&key("b"), 2);
    tracker.mark_failure_at(&key("a"), "a2", 3);
    tracker.mark_failure_at(&key("b"), "b1", 4);
    tracker.mark_success_at(&key("c"), 5);

    let a = tracker.get_detail(&key("a"));
    assert_eq!((a.failure_count, a.last_poll_at, a.last_success_at), (2, Some(3), None));
    let b = tracker.get_detail(&key("b"));
    assert_eq!((b.failure_count, b.last_poll_at, b.last_success_at), (1, Some(4), Some(2)));
    assert_eq!(tracker.get_status(&key("d")), OriginStatus::Unknown);

    let all = tracker.all_statuses();
    assert_eq!(all.len(), 3);
    for (key, status) in &all {
        assert_eq!(*status, tracker.get_status(key));
        assert_ne!(*status, OriginStatus::Unknown);
    }
    let reachable = all.iter().filter(|(_, status)| *status == OriginStatus::Reachable).count();
    assert_eq!(reachable, tracker.reachable_count());
    assert_eq!(all.len() - reachable, tracker.unreachable_count());
}
