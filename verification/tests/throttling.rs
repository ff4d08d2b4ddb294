use ferrotick::retry::{apply_jitter, default_retry_statuses, jittered_delay_ms, should_retry_status};
use ferrotick::throttling::{within_retry_budget, PendingRetries};

#[test]
fn pending_retries_count_the_oldest() {
    let mut q = PendingRetries::new();
    assert_eq!(q.register_retry(), None);
    q.buffer();
    q.buffer();
    assert_eq!(q.len(), 2);
    assert_eq!(q.register_retry(), Some(1));
    assert_eq!(q.register_retry(), Some(2));
    q.complete_one();
    assert_eq!(q.len(), 1);
    assert_eq!(q.register_retry(), Some(1));
    q.complete_one();
    q.complete_one();
    assert_eq!(q.len(), 0);
}

#[test]
fn retry_budget() {
    assert!(within_retry_budget(0, 3));
    assert!(within_retry_budget(3, 3));
    assert!(!within_retry_budget(4, 3));
}

#[test]
fn jitter_stays_within_half() {
    for _ in 0..200 {
        let d = jittered_delay_ms(1_000);
        assert!((500..=1_500).contains(&d));
    }
    assert_eq!(jittered_delay_ms(0), 0);
    let d = jittered_delay_ms(1);
    assert_eq!(d, 1);
}

#[test]
fn jitter_offset_and_retry_statuses() {
    assert_eq!(apply_jitter(1_000, 0), 500);
    assert_eq!(apply_jitter(1_000, 1_000), 1_500);
    assert_eq!(apply_jitter(7, 2), 6);
    let statuses = default_retry_statuses();
    assert_eq!(statuses, vec![408, 429, 500, 502, 503, 504]);
    assert!(should_retry_status(&statuses, 429));
    assert!(should_retry_status(&statuses, 504));
    assert!(!should_retry_status(&statuses, 400));
    assert!(!should_retry_status(&statuses, 401));
    assert!(!should_retry_status(&Vec::new(), 500));
}
