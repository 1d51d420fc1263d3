use latency_server::stats::{OnlineStats, REPORT_EVERY};

#[test]
fn new_stats_are_empty() {
    let stats = OnlineStats::new();
    assert_eq!(stats.count, 0);
    assert_eq!(stats.sum(), 0);
    assert_eq!(stats.sum_sq(), 0);
    assert_eq!(stats.min(), i64::MAX);
    assert_eq!(stats.max(), i64::MIN);
    assert_eq!(stats.mean(), None);
    assert_eq!(stats.variance(), None);
    assert!(!stats.report_due());
}

#[test]
fn record_updates_every_field() {
    let mut stats = OnlineStats::new();
    for x in [4i64, -2, 10, 7] {
        assert!(stats.can_record(x));
        stats.record(x);
    }
    assert_eq!(stats.count, 4);
    assert_eq!(stats.sum(), 19);
    assert_eq!(stats.sum_sq(), 16 + 4 + 100 + 49);
    assert_eq!(stats.min(), -2);
    assert_eq!(stats.max(), 10);
}

#[test]
fn mean_and_variance_round_towards_zero() {
    let mut stats = OnlineStats::new();
    for x in [4i64, -2, 10, 7] {
        stats.record(x);
    }
    assert_eq!(stats.mean(), Some(4));
    assert_eq!(stats.variance(), Some(169 / 4 - 16));
    let mut negative = OnlineStats::new();
    negative.record(-1);
    negative.record(-2);
    assert_eq!(negative.mean(), Some(-1));
    assert_eq!(negative.variance(), Some(2 - 1));
}

#[test]
fn reset_forgets_everything() {
    let mut stats = OnlineStats::new();
    stats.record(5);
    stats.record(9);
    stats.reset();
    assert_eq!(stats.count, 0);
    assert_eq!(stats.sum(), 0);
    assert_eq!(stats.sum_sq(), 0);
    assert_eq!(stats.min(), i64::MAX);
    assert_eq!(stats.max(), i64::MIN);
    stats.record(-3);
    assert_eq!(stats.min(), -3);
    assert_eq!(stats.max(), -3);
    assert_eq!(stats.count, 1);
}

#[test]
fn can_record_refuses_what_does_not_fit() {
    let mut stats = OnlineStats::new();
    assert!(!stats.can_record(i64::MAX));
    assert!(!stats.can_record(i64::MIN));
    assert!(!stats.can_record(3_037_000_500));
    assert!(stats.can_record(3_037_000_499));
    stats.record(3_037_000_499);
    assert_eq!(stats.sum_sq(), 3_037_000_499i64 * 3_037_000_499);
    // The square alone fits, the sum of squares would not.
    assert!(!stats.can_record(3_037_000_499));
    assert!(stats.can_record(1));
}

#[test]
fn report_is_due_above_the_threshold() {
    assert_eq!(REPORT_EVERY, 50000);
    let mut stats = OnlineStats::new();
    for _ in 0..50000 {
        stats.record(1);
    }
    assert!(!stats.report_due());
    stats.record(1);
    assert_eq!(stats.count, 50001);
    assert!(stats.report_due());
    stats.reset();
    assert!(!stats.report_due());
}
