use bottom::time_series::TimeSeries;

#[test]
fn evict_keeps_only_points_inside_the_window() {
    // Ingest points at t = 0, 10000, ..., 70000 with a 60000 ms window;
    // after evicting at t = 70000 only timestamps >= 10000 remain.
    let mut series: TimeSeries<u64> = TimeSeries::new();
    for i in 0..8u64 {
        assert!(series.push(i * 10000, i));
    }
    series.evict(70000, 60000);
    assert_eq!(series.len(), 7);
    assert_eq!(series.points[0].timestamp_ms, 10000);
    for p in &series.points {
        assert!(70000 - p.timestamp_ms <= 60000);
    }
}

#[test]
fn evict_can_empty_a_series() {
    let mut series: TimeSeries<u64> = TimeSeries::new();
    assert!(series.push(5, 1));
    assert!(series.push(6, 2));
    series.evict(1000, 10);
    assert_eq!(series.len(), 0);
    // Evicting an empty series is fine.
    series.evict(2000, 10);
    assert_eq!(series.len(), 0);
}

#[test]
fn evict_without_stale_points_changes_nothing() {
    let mut series: TimeSeries<u64> = TimeSeries::new();
    assert!(series.push(100, 1));
    assert!(series.push(200, 2));
    series.evict(250, 300);
    assert_eq!(series.len(), 2);
    assert_eq!(series.points[0].timestamp_ms, 100);
    assert_eq!(series.points[1].timestamp_ms, 200);
}

#[test]
fn push_rejects_non_increasing_timestamps() {
    let mut series: TimeSeries<u64> = TimeSeries::new();
    assert!(series.push(10, 1));
    assert!(!series.push(10, 2));
    assert!(!series.push(5, 3));
    assert_eq!(series.len(), 1);
    assert!(series.push(11, 4));
    assert_eq!(series.len(), 2);
    assert!(series.points[0].timestamp_ms < series.points[1].timestamp_ms);
}

#[test]
fn reset_clears_everything() {
    let mut series: TimeSeries<u64> = TimeSeries::new();
    assert!(series.push(1, 1));
    assert!(series.push(2, 2));
    series.reset();
    assert_eq!(series.len(), 0);
    // After a reset, old timestamps are acceptable again.
    assert!(series.push(1, 9));
    assert_eq!(series.len(), 1);
}
