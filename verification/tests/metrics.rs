use flashblocks_rpc::metrics::{Counter, Gauge, Histogram, Metrics};

#[test]
fn metrics_start_blank() {
    let metrics = Metrics::default();
    assert_eq!(metrics.reconnect_attempts.count(), 0);
    assert_eq!(metrics.upstream_messages.count(), 0);
    assert_eq!(metrics.pending_snapshot_height.value(), None);
    assert_eq!(metrics.pending_snapshot_fb_index.value(), None);
    assert!(metrics.flashblocks_in_block.samples().is_empty());
    assert!(metrics.total_transactions_executed.samples().is_empty());
}

#[test]
fn counter_counts_and_wraps() {
    let mut counter = Counter::new();
    counter.increment(1);
    counter.increment(41);
    assert_eq!(counter.count(), 42);
    counter.increment(u64::MAX);
    assert_eq!(counter.count(), 41);
}

#[test]
fn gauge_keeps_the_latest_value() {
    let mut gauge = Gauge::new();
    gauge.set(3);
    gauge.set(7);
    assert_eq!(gauge.value(), Some(7));
}

#[test]
fn histogram_keeps_all_samples_in_order() {
    let mut histogram = Histogram::new();
    histogram.record(3);
    histogram.record(1);
    histogram.record(3);
    assert_eq!(histogram.samples(), &vec![3, 1, 3]);
}

#[test]
fn a_clone_of_metrics_reports_the_same() {
    let mut metrics = Metrics::default();
    metrics.upstream_errors.increment(2);
    metrics.flashblocks_in_block.record(4);
    metrics.flashblocks_in_block.record(3);
    metrics.pending_snapshot_height.set(10);
    let copy = metrics.clone();
    metrics.upstream_errors.increment(1);
    metrics.flashblocks_in_block.record(5);
    assert_eq!(copy.upstream_errors.count(), 2);
    assert_eq!(copy.upstream_messages.count(), 0);
    assert_eq!(copy.flashblocks_in_block.samples(), &vec![4, 3]);
    assert_eq!(copy.pending_snapshot_height.value(), Some(10));
    assert_eq!(copy.pending_snapshot_fb_index.value(), None);
}
