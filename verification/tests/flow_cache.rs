use std::collections::{BTreeMap, HashMap};

use landscape::flow_cache::{
    cleanup_flow_cache, collect_connect_infos, collect_realtime_iface_stats, finalize_all_flows,
    process_connect_metric, second_points_by_key, sort_by_rank_desc, ConnectRealtimeStatus,
    FlowState, PersistenceBatch,
};
use landscape::metric_ingest::{
    BucketKind, ConnectMetric, ConnectStatusType, IfaceBucketAcc, IfaceBucketWrite,
    IfaceRealtimeAcc, STALE_TIMEOUT_MS,
};

const WINDOW: u64 = 60_000;
const CAP: usize = 32;

fn report(key: u64, ifindex: u32, report_time: u64, ib: u64, eb: u64) -> ConnectMetric {
    ConnectMetric {
        key,
        ifindex,
        create_time_ms: 0,
        report_time,
        ingress_bytes: ib,
        ingress_packets: ib / 100,
        egress_bytes: eb,
        egress_packets: eb / 100,
        status: ConnectStatusType::Active,
    }
}

struct Engine {
    flows: HashMap<u64, FlowState>,
    sums: HashMap<u32, IfaceRealtimeAcc>,
    buckets: BTreeMap<u128, IfaceBucketAcc>,
}

impl Engine {
    fn new() -> Engine {
        Engine { flows: HashMap::new(), sums: HashMap::new(), buckets: BTreeMap::new() }
    }

    fn take(&mut self, m: ConnectMetric) -> PersistenceBatch {
        process_connect_metric(&mut self.flows, &mut self.sums, &mut self.buckets, m, WINDOW, CAP)
    }
}

#[test]
fn first_report_counts_the_flow_on_its_interface() {
    let mut e = Engine::new();
    let batch = e.take(report(7, 2, 10_000, 10_000, 5_000));
    assert!(batch.is_empty());
    let state = &e.flows[&7];
    assert!(state.counted_in_iface_realtime);
    assert!(!state.finalized);
    assert_eq!(state.realtime.ingress_bps, 8_000);
    assert_eq!(state.realtime.egress_bps, 4_000);
    assert_eq!(state.realtime.ingress_pps, 10);
    assert_eq!(state.realtime.egress_pps, 5);
    assert_eq!(state.second_ring.len(), 1);
    let acc = e.sums[&2];
    assert_eq!((acc.active_conns, acc.ingress_bps, acc.egress_bps, acc.last_report_time), (1, 8_000, 4_000, 10_000));
    assert!(e.buckets.is_empty());
}

#[test]
fn next_minute_owes_a_minute_rollup_and_spreads_the_gain() {
    let mut e = Engine::new();
    let _ = e.take(report(7, 2, 10_000, 10_000, 5_000));
    let second = report(7, 2, 70_000, 70_000, 5_000);
    let batch = e.take(second);
    assert_eq!(batch.bucket_writes.len(), 1);
    assert_eq!(batch.bucket_writes[0].kind, BucketKind::Minute);
    assert_eq!(batch.bucket_writes[0].bucket_report_time, 0);
    assert_eq!(batch.bucket_writes[0].metric, second);
    assert_eq!(batch.summary_metrics, vec![second]);
    assert_eq!(batch.op_count(), 2);
    let acc = e.sums[&2];
    assert_eq!((acc.active_conns, acc.ingress_bps, acc.egress_bps), (1, 8_000, 0));
    assert_eq!(e.buckets.len(), 12);
    let spread: u64 = e.buckets.values().map(|b| b.ingress_bytes).sum();
    assert_eq!(spread, 60_000);
    let state = &e.flows[&7];
    assert_eq!(state.last_minute_slot, 60_000);
    assert_eq!(second_points_by_key(&e.flows, 7, 0).len(), 2);
    assert_eq!(second_points_by_key(&e.flows, 7, 10_001).len(), 1);
    assert!(second_points_by_key(&e.flows, 8, 0).is_empty());
}

#[test]
fn late_report_changes_nothing() {
    let mut e = Engine::new();
    let _ = e.take(report(7, 2, 70_000, 70_000, 0));
    let batch = e.take(report(7, 2, 5_000, 1, 1));
    assert!(batch.is_empty());
    assert_eq!(e.flows[&7].last_metric.report_time, 70_000);
    assert_eq!(e.sums[&2].active_conns, 1);
}

#[test]
fn closing_report_finalizes_and_empties_the_interface() {
    let mut e = Engine::new();
    let _ = e.take(report(7, 2, 10_000, 10_000, 0));
    let mut last = report(7, 2, 20_000, 20_000, 0);
    last.status = ConnectStatusType::Disabled;
    let batch = e.take(last);
    assert!(e.sums.is_empty());
    let state = &e.flows[&7];
    assert!(state.finalized);
    assert!(!state.counted_in_iface_realtime);
    assert_eq!(state.realtime.status, ConnectStatusType::Disabled);
    let kinds: Vec<BucketKind> = batch.bucket_writes.iter().map(|w| w.kind).collect();
    assert_eq!(kinds, vec![BucketKind::Minute, BucketKind::Hour, BucketKind::Day]);
    assert_eq!(batch.summary_metrics.len(), 1);
    assert_eq!(batch.summary_metrics[0].status, ConnectStatusType::Disabled);
}

#[test]
fn unknown_status_keeps_the_shown_status() {
    let mut e = Engine::new();
    let _ = e.take(report(7, 2, 10_000, 10_000, 0));
    let mut m = report(7, 2, 15_000, 10_000, 0);
    m.status = ConnectStatusType::Unknow;
    let _ = e.take(m);
    assert_eq!(e.flows[&7].realtime.status, ConnectStatusType::Active);
    assert_eq!(e.flows[&7].last_metric.status, ConnectStatusType::Unknow);
}

#[test]
fn sweep_finalizes_stale_flows_and_drops_expired_ones() {
    let mut e = Engine::new();
    let _ = e.take(report(1, 2, 10_000, 1_000, 0));
    let now = 10_000 + STALE_TIMEOUT_MS + 1;
    let _ = e.take(report(2, 2, now - 1_000, 1_000, 0));
    let (stats, batch) = cleanup_flow_cache(&mut e.flows, &mut e.sums, now, WINDOW);
    assert_eq!(stats.finalized_in_run, 1);
    assert_eq!(stats.finalized_flows, 1);
    assert_eq!(stats.active_flows, 1);
    assert_eq!(batch.bucket_writes.len(), 3);
    assert_eq!(batch.summary_metrics.len(), 1);
    assert_eq!(batch.summary_metrics[0].key, 1);
    assert!(!e.flows.contains_key(&1));
    assert!(e.flows.contains_key(&2));
    assert_eq!(e.sums[&2].active_conns, 1);
}

#[test]
fn shutdown_finalizes_everything() {
    let mut e = Engine::new();
    let _ = e.take(report(1, 2, 10_000, 1_000, 0));
    let _ = e.take(report(2, 3, 11_000, 1_000, 0));
    let batch = finalize_all_flows(&mut e.flows, &mut e.sums);
    assert!(e.sums.is_empty());
    assert_eq!(batch.bucket_writes.len(), 6);
    assert_eq!(batch.summary_metrics.len(), 2);
    assert!(e.flows.values().all(|s| s.finalized));
    let again = finalize_all_flows(&mut e.flows, &mut e.sums);
    assert!(again.is_empty());
}

#[test]
fn connect_infos_newest_first_and_only_live() {
    let mut e = Engine::new();
    let _ = e.take(report(1, 2, 10_000, 1_000, 0));
    let _ = e.take(report(2, 2, 30_000, 1_000, 0));
    let _ = e.take(report(3, 2, 20_000, 1_000, 0));
    let mut closed = report(4, 2, 40_000, 1_000, 0);
    closed.status = ConnectStatusType::Disabled;
    let _ = e.take(closed);
    let infos = collect_connect_infos(&e.flows, 40_000);
    let keys: Vec<u64> = infos.iter().map(|r| r.key).collect();
    assert_eq!(keys, vec![2, 3, 1]);
    assert!(collect_connect_infos(&e.flows, 30_000 + STALE_TIMEOUT_MS + 1).is_empty());
}

#[test]
fn interface_stats_busiest_first() {
    let mut e = Engine::new();
    let _ = e.take(report(1, 1, 10_000, 10_000, 0));
    let _ = e.take(report(2, 1, 10_000, 10_000, 0));
    let _ = e.take(report(3, 2, 10_000, 30_000, 0));
    let stats = collect_realtime_iface_stats(&e.flows, 10_000);
    assert_eq!(stats.len(), 2);
    assert_eq!(stats[0].ifindex, 2);
    assert_eq!(stats[0].stats.ingress_bps, 24_000);
    assert_eq!(stats[0].stats.active_conns, 1);
    assert_eq!(stats[1].ifindex, 1);
    assert_eq!(stats[1].stats.ingress_bps, 16_000);
    assert_eq!(stats[1].stats.active_conns, 2);
    assert_eq!(stats[1].last_report_time, 10_000);
}

#[test]
fn ring_keeps_its_capacity_and_window() {
    let mut state = FlowState::new(report(1, 1, 1_000, 0, 0), WINDOW, 2);
    for t in [2_000u64, 3_000, 4_000] {
        state.update_from_metric(report(1, 1, t, t, 0), WINDOW, 2);
    }
    let times: Vec<u64> = state.second_ring.iter().map(|p| p.report_time).collect();
    assert_eq!(times, vec![3_000, 4_000]);
    state.update_from_metric(report(1, 1, 100_000, 100_000, 0), WINDOW, 2);
    let times: Vec<u64> = state.second_ring.iter().map(|p| p.report_time).collect();
    assert_eq!(times, vec![100_000]);
    let mut single = FlowState::new(report(1, 1, 1_000, 0, 0), WINDOW, 0);
    single.update_from_metric(report(1, 1, 2_000, 0, 0), WINDOW, 0);
    assert_eq!(single.second_ring.len(), 1);
    assert!(single.is_active(2_000));
    single.mark_finalized();
    assert!(!single.is_active(2_000));
    assert!(!single.should_count_iface_realtime());
}

#[test]
fn batches_extend_in_order() {
    let mut a = PersistenceBatch::default();
    assert!(a.is_empty());
    a.push_summary(report(1, 1, 1, 0, 0));
    let mut b = PersistenceBatch::default();
    b.push_summary(report(2, 1, 1, 0, 0));
    b.push_bucket(BucketKind::Hour, report(2, 1, 1, 0, 0), 0);
    b.extend_iface_buckets(vec![IfaceBucketWrite {
        ifindex: 1,
        report_time: 0,
        ingress_bytes: 1,
        ingress_packets: 1,
        egress_bytes: 1,
        egress_packets: 1,
        active_conns: 1,
    }]);
    a.extend(b);
    let keys: Vec<u64> = a.summary_metrics.iter().map(|m| m.key).collect();
    assert_eq!(keys, vec![1, 2]);
    assert_eq!(a.op_count(), 4);
}

#[test]
fn rank_sort_orders_highest_first() {
    let mk = |t: u64| ConnectRealtimeStatus {
        key: t,
        ifindex: 0,
        create_time_ms: 0,
        ingress_bps: 0,
        egress_bps: 0,
        ingress_pps: 0,
        egress_pps: 0,
        last_report_time: t,
        status: ConnectStatusType::Active,
    };
    let sorted = sort_by_rank_desc(vec![mk(3), mk(9), mk(1), mk(9), mk(4)]);
    let times: Vec<u64> = sorted.iter().map(|r| r.last_report_time).collect();
    assert_eq!(times, vec![9, 9, 4, 3, 1]);
}
