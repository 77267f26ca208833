use std::collections::{BTreeMap, HashMap};

use landscape::metric_ingest::{
    add_iface_realtime_contribution, bucket_start, drain_iface_buckets, day_refresh_slot, hour_refresh_slot,
    initial_rate_contribution, minute_slot, rate_from_delta, record_iface_delta,
    remove_iface_realtime_contribution, scale_u64, second_ring_capacity, second_window_ms,
    BucketKind, ConnectMetric, ConnectStatusType, FlowRateContribution, IfaceBucketAcc, IfaceRealtimeAcc,
    MetricDelta, IFACE_BUCKET_MS, MS_PER_DAY, MS_PER_HOUR, MS_PER_MINUTE,
};

fn delta(ib: u64, ip: u64, eb: u64, ep: u64) -> MetricDelta {
    MetricDelta { ingress_bytes: ib, ingress_packets: ip, egress_bytes: eb, egress_packets: ep }
}

fn key(ifindex: u32, start: u64) -> u128 {
    ((start as u128) << 32) + ifindex as u128
}

fn metric(report_time: u64, ib: u64, eb: u64) -> ConnectMetric {
    ConnectMetric {
        key: 1,
        ifindex: 3,
        create_time_ms: 1_000,
        report_time,
        ingress_bytes: ib,
        ingress_packets: ib / 100,
        egress_bytes: eb,
        egress_packets: eb / 100,
        status: ConnectStatusType::Active,
    }
}

#[test]
fn buckets_and_slots() {
    assert_eq!(MS_PER_DAY, 86_400_000);
    assert_eq!(bucket_start(12_345, 5_000), 10_000);
    assert_eq!(minute_slot(125_000), 120_000);
    assert_eq!(hour_refresh_slot(MS_PER_HOUR + 601_000), MS_PER_HOUR + 600_000);
    assert_eq!(day_refresh_slot(3 * MS_PER_HOUR + 5), 3 * MS_PER_HOUR);
    assert_eq!(BucketKind::Minute.table_name(), "conn_metrics_1m");
    assert_eq!(BucketKind::Hour.table_name(), "conn_metrics_1h");
    assert_eq!(BucketKind::Day.table_name(), "conn_metrics_1d");
}

#[test]
fn second_window_sizes() {
    assert_eq!(second_window_ms(0), MS_PER_MINUTE);
    assert_eq!(second_window_ms(5), 5 * MS_PER_MINUTE);
    assert_eq!(second_window_ms(u64::MAX), u64::MAX);
    assert_eq!(second_ring_capacity(1), 32);
    assert_eq!(second_ring_capacity(10), 128);
    assert_eq!(second_ring_capacity(1000), 4096);
}

#[test]
fn deltas_saturate() {
    let prev = metric(1_000, 500, 900);
    let cur = metric(2_000, 700, 800);
    let d = MetricDelta::from_metrics(&prev, &cur);
    assert_eq!(d, delta(200, 2, 0, 0));
    assert!(!d.is_zero());
    assert!(delta(0, 0, 0, 0).is_zero());
    assert_eq!(MetricDelta::from_initial(&cur), delta(700, 7, 800, 8));
    assert_eq!(d.scale(1, 4), delta(50, 0, 0, 0));
    assert_eq!(d.scale(1, 0), delta(0, 0, 0, 0));
    assert_eq!(scale_u64(u64::MAX, 3, 3), u64::MAX);
    assert_eq!(delta(u64::MAX, 1, 0, 0).saturating_add(delta(1, 1, 0, 0)), delta(u64::MAX, 2, 0, 0));
    assert_eq!(delta(1, 5, 0, 0).saturating_sub(delta(2, 1, 0, 0)), delta(0, 4, 0, 0));
}

#[test]
fn rates_per_second() {
    let r = rate_from_delta(4, delta(1_000, 10, 500, 5), 2_000);
    assert_eq!(r, FlowRateContribution { ifindex: 4, ingress_bps: 4_000, egress_bps: 2_000, ingress_pps: 5, egress_pps: 2 });
    let none = rate_from_delta(4, delta(1_000, 10, 500, 5), 0);
    assert_eq!((none.ingress_bps, none.egress_pps), (0, 0));
    let first = initial_rate_contribution(&metric(3_000, 1_000, 0));
    assert_eq!(first.ingress_bps, 4_000);
    let early = ConnectMetric { create_time_ms: 9_000, ..metric(3_000, 1_000, 0) };
    assert_eq!(initial_rate_contribution(&early).ingress_bps, 0);
}

#[test]
fn realtime_sums_add_and_remove() {
    let mut m: HashMap<u32, IfaceRealtimeAcc> = HashMap::new();
    let c = FlowRateContribution { ifindex: 2, ingress_bps: 10, egress_bps: 20, ingress_pps: 1, egress_pps: 2 };
    add_iface_realtime_contribution(&mut m, c, 100);
    add_iface_realtime_contribution(&mut m, c, 50);
    let acc = m[&2];
    assert_eq!((acc.ingress_bps, acc.egress_bps, acc.active_conns, acc.last_report_time), (20, 40, 2, 100));
    remove_iface_realtime_contribution(&mut m, c);
    assert_eq!(m[&2].active_conns, 1);
    assert_eq!(m[&2].ingress_bps, 10);
    remove_iface_realtime_contribution(&mut m, c);
    assert!(!m.contains_key(&2));
    remove_iface_realtime_contribution(&mut m, c);
    assert!(m.is_empty());
}

#[test]
fn delta_is_split_over_buckets_in_proportion() {
    let mut buckets: BTreeMap<u128, IfaceBucketAcc> = BTreeMap::new();
    // 2_500 ms in the first bucket, 5_000 in the second, 2_500 in the third.
    record_iface_delta(&mut buckets, 7, 2_500, 12_500, delta(1_000, 100, 0, 3));
    assert_eq!(buckets.len(), 3);
    let b0 = buckets[&key(7, 0)];
    let b1 = buckets[&key(7, IFACE_BUCKET_MS)];
    let b2 = buckets[&key(7, 2 * IFACE_BUCKET_MS)];
    assert_eq!((b0.ingress_bytes, b1.ingress_bytes, b2.ingress_bytes), (250, 500, 250));
    assert_eq!((b0.egress_packets, b1.egress_packets, b2.egress_packets), (0, 1, 2));
    assert_eq!(b0.ingress_bytes + b1.ingress_bytes + b2.ingress_bytes, 1_000);
    assert_eq!((b0.last_report_time, b1.last_report_time, b2.last_report_time), (5_000, 10_000, 12_500));
}

#[test]
fn instant_delta_goes_to_end_bucket_and_zero_changes_nothing() {
    let mut buckets: BTreeMap<u128, IfaceBucketAcc> = BTreeMap::new();
    record_iface_delta(&mut buckets, 1, 9_000, 9_000, delta(5, 1, 0, 0));
    record_iface_delta(&mut buckets, 1, 9_000, 7_000, delta(5, 1, 0, 0));
    assert_eq!(buckets.len(), 1);
    assert_eq!(buckets[&key(1, 5_000)].ingress_bytes, 10);
    record_iface_delta(&mut buckets, 1, 0, 100_000, delta(0, 0, 0, 0));
    assert_eq!(buckets.len(), 1);
}

#[test]
fn drain_orders_by_start_then_interface() {
    let mut buckets: BTreeMap<u128, IfaceBucketAcc> = BTreeMap::new();
    record_iface_delta(&mut buckets, 9, 4_000, 4_000, delta(1, 1, 1, 1));
    record_iface_delta(&mut buckets, 2, 6_000, 6_000, delta(2, 2, 2, 2));
    record_iface_delta(&mut buckets, 5, 1_000, 1_000, delta(3, 3, 3, 3));
    let mut realtime: HashMap<u32, IfaceRealtimeAcc> = HashMap::new();
    let c = FlowRateContribution { ifindex: 5, ingress_bps: 0, egress_bps: 0, ingress_pps: 0, egress_pps: 0 };
    add_iface_realtime_contribution(&mut realtime, c, 1);
    add_iface_realtime_contribution(&mut realtime, c, 1);
    let writes = drain_iface_buckets(&mut buckets, &realtime);
    assert!(buckets.is_empty());
    let order: Vec<(u64, u32)> = writes.iter().map(|w| (w.report_time, w.ifindex)).collect();
    assert_eq!(order, vec![(0, 5), (0, 9), (5_000, 2)]);
    assert_eq!(writes[0].active_conns, 2);
    assert_eq!(writes[1].active_conns, 0);
    assert_eq!(writes[2].ingress_bytes, 2);
}
