use warpbench::metrics::{compute_report, latency_stats, total_latency, Counters};
use warpbench::sort::sort_latencies;

#[test]
fn counters_start_at_zero() {
    let c = Counters::new();
    assert_eq!((c.total, c.success, c.failed), (0, 0, 0));
}

#[test]
fn counters_record_success_and_failure() {
    let mut c = Counters::new();
    c.record(true);
    c.record(false);
    c.record(true);
    assert_eq!((c.total, c.success, c.failed), (3, 2, 1));
    assert_eq!(c.total, c.success + c.failed);
}

#[test]
fn counters_wrap_at_u64_max() {
    let mut c = Counters { total: u64::MAX, success: u64::MAX, failed: 0 };
    c.record(true);
    assert_eq!((c.total, c.success, c.failed), (0, 0, 0));
    c.record(false);
    assert_eq!((c.total, c.success, c.failed), (1, 0, 1));
}

#[test]
fn sort_orders_ascending() {
    assert_eq!(sort_latencies(&vec![5, 1, 4, 1, 3]), vec![1, 1, 3, 4, 5]);
    assert_eq!(sort_latencies(&vec![]), Vec::<u64>::new());
    assert_eq!(sort_latencies(&vec![7]), vec![7]);
    let big: Vec<u64> = (0..1000u64).rev().collect();
    let sorted = sort_latencies(&big);
    assert_eq!(sorted, (0..1000u64).collect::<Vec<u64>>());
}

#[test]
fn total_latency_sums_or_reports_overflow() {
    assert_eq!(total_latency(&vec![1, 2, 3]), Some(6));
    assert_eq!(total_latency(&vec![]), Some(0));
    assert_eq!(total_latency(&vec![u64::MAX, 0]), Some(u64::MAX));
    assert_eq!(total_latency(&vec![u64::MAX, 1]), None);
}

#[test]
fn report_without_latencies_has_no_stats() {
    let mut c = Counters::new();
    c.record(false);
    let r = compute_report(vec![], &c);
    assert_eq!((r.total, r.success, r.failed), (1, 0, 1));
    assert!(r.latency.is_none());
}

#[test]
fn report_percentiles_of_one_to_hundred() {
    let latencies: Vec<u64> = (1..=100u64).rev().collect();
    let mut c = Counters::new();
    for _ in 0..100 {
        c.record(true);
    }
    let r = compute_report(latencies, &c);
    assert_eq!((r.total, r.success, r.failed), (100, 100, 0));
    let s = r.latency.unwrap();
    assert_eq!((s.min, s.avg, s.p50, s.p95, s.p99, s.max), (1, 50, 51, 96, 100, 100));
}

#[test]
fn stats_of_small_sample() {
    // len = 3: p50 index 1, p95 index 2, p99 index 2
    let s = latency_stats(&vec![30, 10, 20]);
    assert_eq!((s.min, s.avg, s.p50, s.p95, s.p99, s.max), (10, 20, 20, 30, 30, 30));
    let one = latency_stats(&vec![42]);
    assert_eq!((one.min, one.avg, one.p50, one.p95, one.p99, one.max), (42, 42, 42, 42, 42, 42));
}

#[test]
fn stats_are_ordered() {
    let s = latency_stats(&vec![9, 1000, 3, 3, 250, 7, 1, 88, 13]);
    assert!(s.min <= s.p50 && s.p50 <= s.p95 && s.p95 <= s.p99 && s.p99 <= s.max);
    assert!(s.min <= s.avg && s.avg <= s.max);
    assert_eq!((s.min, s.max), (1, 1000));
}

#[test]
fn report_ignores_sample_order() {
    let c = Counters::new();
    let a = compute_report(vec![5, 900, 12, 12, 40, 3, 77], &c).latency.unwrap();
    let b = compute_report(vec![77, 12, 3, 900, 40, 12, 5], &c).latency.unwrap();
    assert_eq!(
        (a.min, a.avg, a.p50, a.p95, a.p99, a.max),
        (b.min, b.avg, b.p50, b.p95, b.p99, b.max)
    );
    assert_eq!((a.min, a.avg, a.p50, a.p95, a.p99, a.max), (3, 149, 12, 900, 900, 900));
}
