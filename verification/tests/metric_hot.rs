use landscape::metric_hot::{ConnectMetricManager, DnsMetricManager, HotAction, HotLoopConfig, MetricHotLoop};
use landscape::metric_ingest::{ConnectMetric, ConnectStatusType, MS_PER_DAY, STALE_TIMEOUT_MS};

fn report(key: u64, report_time: u64, status: ConnectStatusType) -> ConnectMetric {
    ConnectMetric {
        key,
        ifindex: 1,
        create_time_ms: 0,
        report_time,
        ingress_bytes: report_time,
        ingress_packets: 1,
        egress_bytes: 0,
        egress_packets: 0,
        status,
    }
}

fn flushes(actions: &[HotAction]) -> Vec<(usize, usize, bool)> {
    actions
        .iter()
        .filter_map(|a| match a {
            HotAction::Flush { batch, to_cold } => Some((batch.summary_metrics.len(), batch.bucket_writes.len(), *to_cold)),
            _ => None,
        })
        .collect()
}

#[test]
fn config_defaults() {
    let c = HotLoopConfig::new(60_000, 32, 0, 7);
    assert_eq!(c.write_batch_size, 1);
    assert_eq!(c.summary_retention_ms, 7 * MS_PER_DAY);
}

#[test]
fn reports_are_written_once_the_batch_is_full() {
    let mut hot = MetricHotLoop::new(HotLoopConfig::new(60_000, 32, 5, 1));
    assert!(hot.on_connect(report(1, 1_000, ConnectStatusType::Active), true).is_empty());
    let closed = hot.on_connect(report(1, 2_000, ConnectStatusType::Disabled), true);
    assert!(closed.is_empty());
    assert_eq!(hot.pending.op_count(), 4);
    assert!(hot.on_connect(report(2, 3_000, ConnectStatusType::Disabled), false).len() == 1);
    assert!(hot.pending.is_empty());
}

#[test]
fn flush_tick_writes_what_is_owed() {
    let mut hot = MetricHotLoop::new(HotLoopConfig::new(60_000, 32, 100, 1));
    assert!(hot.on_flush_tick(true).is_empty());
    let _ = hot.on_connect(report(1, 1_000, ConnectStatusType::Disabled), true);
    assert_eq!(flushes(&hot.on_flush_tick(true)), vec![(1, 3, true)]);
    let _ = hot.on_connect(report(2, 1_000, ConnectStatusType::Disabled), false);
    assert_eq!(flushes(&hot.on_flush_tick(false)), vec![(1, 3, false)]);
    assert!(hot.on_flush_tick(true).is_empty());
}

#[test]
fn cleanup_tick_sweeps_and_asks_for_summary_cleanup() {
    let mut hot = MetricHotLoop::new(HotLoopConfig::new(60_000, 32, 100, 1));
    let _ = hot.on_connect(report(1, 1_000, ConnectStatusType::Active), true);
    let now = 1_000 + STALE_TIMEOUT_MS + 1;
    let actions = hot.on_cleanup_tick(now, true);
    assert_eq!(flushes(&actions), vec![(1, 3, true)]);
    match actions.last() {
        Some(HotAction::CleanupSummaries { cutoff }) => assert_eq!(*cutoff, 0),
        _ => panic!("expected a summary cleanup"),
    }
    let later = hot.on_cleanup_tick(2 * MS_PER_DAY, true);
    match later.last() {
        Some(HotAction::CleanupSummaries { cutoff }) => assert_eq!(*cutoff, MS_PER_DAY),
        _ => panic!("expected a summary cleanup"),
    }
    assert!(hot.flows.is_empty());
}

#[test]
fn dns_metrics_pass_on_only_when_cold_store_is_ready() {
    let hot = MetricHotLoop::new(HotLoopConfig::new(60_000, 32, 100, 1));
    assert!(matches!(hot.on_dns(true).as_slice(), [HotAction::EnqueueColdDns]));
    assert!(hot.on_dns(false).is_empty());
}

#[test]
fn both_channels_closed_finalizes_and_stops() {
    let mut hot = MetricHotLoop::new(HotLoopConfig::new(60_000, 32, 100, 1));
    let _ = hot.on_connect(report(1, 1_000, ConnectStatusType::Active), true);
    assert!(hot.on_closed(true, true).is_empty());
    let actions = hot.on_closed(false, true);
    assert_eq!(flushes(&actions), vec![(1, 3, true)]);
    assert!(matches!(actions.last(), Some(HotAction::Stop)));
    assert!(hot.iface_realtime.is_empty());
}

#[test]
fn shutdown_writes_owed_then_final_rows() {
    let mut hot = MetricHotLoop::new(HotLoopConfig::new(60_000, 32, 100, 1));
    let _ = hot.on_connect(report(1, 1_000, ConnectStatusType::Active), true);
    let _ = hot.on_connect(report(1, 70_000, ConnectStatusType::Active), true);
    let actions = hot.on_shutdown(true);
    assert_eq!(flushes(&actions), vec![(1, 1, true), (1, 3, true)]);
    assert!(matches!(actions.last(), Some(HotAction::Stop)));
    assert!(hot.pending.is_empty());
}

#[test]
fn manager_lists_live_connections_newest_first() {
    let mut hot = MetricHotLoop::new(HotLoopConfig::new(60_000, 32, 100, 1));
    let _ = hot.on_connect(report(1, 1_000, ConnectStatusType::Active), true);
    let _ = hot.on_connect(report(2, 5_000, ConnectStatusType::Active), true);
    let _ = hot.on_connect(report(3, 3_000, ConnectStatusType::Disabled), true);
    let manager = ConnectMetricManager::with_store(hot);
    let keys: Vec<u64> = manager.connect_infos(6_000).iter().map(|r| r.key).collect();
    assert_eq!(keys, vec![2, 1]);
}

#[test]
fn dns_manager_forwards_to_cold_store() {
    let m = DnsMetricManager::with_store(MetricHotLoop::new(HotLoopConfig::new(60_000, 32, 100, 1)));
    assert!(matches!(m.insert_dns_metric(true).as_slice(), [HotAction::EnqueueColdDns]));
    assert!(m.insert_dns_metric(false).is_empty());
}
