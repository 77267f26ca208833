//! The decisions of the loop that persists connection metrics: each event
//! (a report, a timer, a closed channel, the shutdown) moves the flow cache
//! and the batch owed to the store, and yields what the loop is to do:
//! write a batch, clean up old summaries, pass on a DNS metric, or stop.
use std::collections::{BTreeMap, HashMap};
use vstd::prelude::*;

use crate::flow_cache::{
    active_realtimes, all_finalized, cleanup_flow_cache, collect_connect_infos, finalize_all_flows,
    flows_view, process_connect_metric, sorted_desc, swept, taken_in, BatchView,
    ConnectRealtimeStatus, FlowState, PersistenceBatch,
};
use crate::metric_ingest::{
    sat_sub, ConnectMetric, IfaceBucketAcc, IfaceRealtimeAcc, MS_PER_DAY,
};

verus! {

/// The numbers the loop runs by.
#[derive(Clone, Copy, Debug, PartialEq, Eq, Structural)]
pub struct HotLoopConfig {
    pub second_window_ms: u64,
    pub second_ring_cap: usize,
    pub write_batch_size: usize,
    pub summary_retention_ms: u64,
}

impl HotLoopConfig {
    /// The numbers of the loop: a write batch of at least one row, and
    /// summaries kept for `connect_1d_retention_days` days.
    pub fn new(
        second_window_ms: u64,
        second_ring_cap: usize,
        write_batch_size: usize,
        connect_1d_retention_days: u64,
    ) -> (r: Self)
        requires
            connect_1d_retention_days * MS_PER_DAY <= u64::MAX,
        ensures
            r.second_window_ms == second_window_ms,
            r.second_ring_cap == second_ring_cap,
            r.write_batch_size == if write_batch_size < 1 {
                1
            } else {
                write_batch_size
            },
            r.summary_retention_ms == connect_1d_retention_days * MS_PER_DAY,
    {
        HotLoopConfig {
            second_window_ms,
            second_ring_cap,
            write_batch_size: if write_batch_size < 1 {
                1
            } else {
                write_batch_size
            },
            summary_retention_ms: connect_1d_retention_days * MS_PER_DAY,
        }
    }
}

/// What the loop is to do.
pub enum HotAction {
    /// Write the batch to the hot store; pass its rollup rows on to the
    /// cold store as well where `to_cold`.
    Flush { batch: PersistenceBatch, to_cold: bool },
    /// Delete the hot summaries last reported before `cutoff`.
    CleanupSummaries { cutoff: u64 },
    /// Pass the DNS metric on to the cold store.
    EnqueueColdDns,
    /// Stop the loop.
    Stop,
}

/// An action as a value of the model.
pub enum HotActionView {
    Flush(BatchView, bool),
    CleanupSummaries(u64),
    EnqueueColdDns,
    Stop,
}

pub open spec fn action_view(a: HotAction) -> HotActionView {
    match a {
        HotAction::Flush { batch, to_cold } => HotActionView::Flush(batch@, to_cold),
        HotAction::CleanupSummaries { cutoff } => HotActionView::CleanupSummaries(cutoff),
        HotAction::EnqueueColdDns => HotActionView::EnqueueColdDns,
        HotAction::Stop => HotActionView::Stop,
    }
}

pub open spec fn actions_view(v: Seq<HotAction>) -> Seq<HotActionView> {
    v.map_values(|a: HotAction| action_view(a))
}

pub open spec fn batch_is_empty(b: BatchView) -> bool {
    b.summary_metrics.len() == 0 && b.bucket_writes.len() == 0 && b.iface_bucket_writes.len() == 0
}

/// `a` followed by `b`.
pub open spec fn joined(a: BatchView, b: BatchView) -> BatchView {
    BatchView {
        summary_metrics: a.summary_metrics + b.summary_metrics,
        bucket_writes: a.bucket_writes + b.bucket_writes,
        iface_bucket_writes: a.iface_bucket_writes + b.iface_bucket_writes,
    }
}

/// Flushing `b`: nothing where it is empty, else one write of it, its
/// rollup rows passed on where the cold store is ready and there are any.
pub open spec fn flush_of(b: BatchView, cold_ready: bool) -> Seq<HotActionView> {
    if batch_is_empty(b) {
        Seq::empty()
    } else {
        seq![HotActionView::Flush(b, cold_ready && b.bucket_writes.len() > 0)]
    }
}

/// The rows a batch writes, counted up to `usize::MAX`.
pub open spec fn ops_of(b: BatchView) -> int {
    let n = b.summary_metrics.len() + b.bucket_writes.len() + b.iface_bucket_writes.len();
    if n > usize::MAX {
        usize::MAX as int
    } else {
        n as int
    }
}

/// The loop's state: the flow cache and interface sums and buckets it
/// feeds, the batch it owes the store, and which channels are closed.
pub struct MetricHotLoop {
    pub flows: HashMap<u64, FlowState>,
    pub iface_realtime: HashMap<u32, IfaceRealtimeAcc>,
    pub iface_buckets: BTreeMap<u128, IfaceBucketAcc>,
    pub pending: PersistenceBatch,
    pub connect_closed: bool,
    pub dns_closed: bool,
    pub config: HotLoopConfig,
}

impl MetricHotLoop {
    pub fn new(config: HotLoopConfig) -> (r: Self)
        ensures
            r.flows@ == Map::<u64, FlowState>::empty(),
            r.iface_realtime@ == Map::<u32, IfaceRealtimeAcc>::empty(),
            r.iface_buckets@ == Map::<u128, IfaceBucketAcc>::empty(),
            r.pending@ == BatchView::empty(),
            !r.connect_closed && !r.dns_closed,
            r.config == config,
    {
        MetricHotLoop {
            flows: HashMap::new(),
            iface_realtime: HashMap::new(),
            iface_buckets: BTreeMap::new(),
            pending: PersistenceBatch::default(),
            connect_closed: false,
            dns_closed: false,
            config,
        }
    }

    /// Hands the owed batch over for writing, if there is one.
    fn flush(&mut self, cold_ready: bool, actions: &mut Vec<HotAction>)
        ensures
            final(self).pending@ == BatchView::empty(),
            actions_view(final(actions)@) == actions_view(old(actions)@) + flush_of(
                old(self).pending@,
                cold_ready,
            ),
            final(self).flows == old(self).flows,
            final(self).iface_realtime == old(self).iface_realtime,
            final(self).iface_buckets == old(self).iface_buckets,
            final(self).connect_closed == old(self).connect_closed,
            final(self).dns_closed == old(self).dns_closed,
            final(self).config == old(self).config,
    {
        let ghost before = actions_view(actions@);
        if self.pending.is_empty() {
            proof {
                assert(actions_view(actions@) =~= before + flush_of(old(self).pending@, cold_ready));
            }
            self.pending = PersistenceBatch::default();
            return;
        }
        let mut batch = PersistenceBatch::default();
        std::mem::swap(&mut batch, &mut self.pending);
        let to_cold = cold_ready && batch.bucket_writes.len() > 0;
        actions.push(HotAction::Flush { batch, to_cold });
        proof {
            assert(actions_view(actions@) =~= before + flush_of(old(self).pending@, cold_ready));
        }
    }

    /// The rows owed, counted up to `usize::MAX`.
    fn pending_ops(&self) -> (r: usize)
        ensures
            r == ops_of(self.pending@),
    {
        self.pending.summary_metrics.len().saturating_add(self.pending.bucket_writes.len()).saturating_add(
            self.pending.iface_bucket_writes.len(),
        )
    }

    /// Flushes what is owed, finalizes every connection, flushes what that
    /// owes, and stops.
    fn finish(&mut self, cold_ready: bool, actions: &mut Vec<HotAction>)
        ensures
            final(self).pending@ == BatchView::empty(),
            exists|ks: Seq<u64>|
                #![trigger all_finalized(flows_view(old(self).flows@), old(self).iface_realtime@, ks)]
                {
                    let out = all_finalized(flows_view(old(self).flows@), old(self).iface_realtime@, ks);
                    &&& ks.no_duplicates()
                    &&& ks.to_set() == old(self).flows@.dom()
                    &&& flows_view(final(self).flows@) == out.0
                    &&& final(self).iface_realtime@ == out.1
                    &&& actions_view(final(actions)@) == actions_view(old(actions)@) + flush_of(
                        old(self).pending@,
                        cold_ready,
                    ) + flush_of(out.2, cold_ready) + seq![HotActionView::Stop]
                },
            final(self).iface_buckets == old(self).iface_buckets,
            final(self).connect_closed == old(self).connect_closed,
            final(self).dns_closed == old(self).dns_closed,
            final(self).config == old(self).config,
    {
        self.flush(cold_ready, actions);
        let ghost mid = actions_view(actions@);
        let final_batch = finalize_all_flows(&mut self.flows, &mut self.iface_realtime);
        self.pending.extend(final_batch);
        let ghost owed = self.pending@;
        proof {
            assert(owed =~= BatchView {
                summary_metrics: owed.summary_metrics,
                bucket_writes: owed.bucket_writes,
                iface_bucket_writes: owed.iface_bucket_writes,
            });
        }
        self.flush(cold_ready, actions);
        let ghost mid2 = actions_view(actions@);
        actions.push(HotAction::Stop);
        proof {
            assert(actions_view(actions@) =~= mid2.push(HotActionView::Stop));
            let ks = choose|ks: Seq<u64>|
                #![trigger all_finalized(flows_view(old(self).flows@), old(self).iface_realtime@, ks)]
                {
                    let out = all_finalized(flows_view(old(self).flows@), old(self).iface_realtime@, ks);
                    &&& ks.no_duplicates()
                    &&& ks.to_set() == old(self).flows@.dom()
                    &&& flows_view(self.flows@) == out.0
                    &&& self.iface_realtime@ == out.1
                    &&& final_batch@ == out.2
                };
            let out = all_finalized(flows_view(old(self).flows@), old(self).iface_realtime@, ks);
            assert(owed =~= out.2);
            assert(actions_view(actions@) =~= actions_view(old(actions)@) + flush_of(
                old(self).pending@,
                cold_ready,
            ) + flush_of(out.2, cold_ready) + seq![HotActionView::Stop]);
        }
    }

    /// Takes in one report; the owed batch is written once it reaches the
    /// write batch size.
    pub fn on_connect(&mut self, metric: ConnectMetric, cold_ready: bool) -> (actions: Vec<HotAction>)
        ensures
            ({
                let out = taken_in(
                    flows_view(old(self).flows@),
                    old(self).iface_realtime@,
                    old(self).iface_buckets@,
                    metric,
                    old(self).config.second_window_ms,
                    old(self).config.second_ring_cap,
                );
                let owed = joined(old(self).pending@, out.3);
                &&& flows_view(final(self).flows@) == out.0
                &&& final(self).iface_realtime@ == out.1
                &&& final(self).iface_buckets@ == out.2
                &&& ops_of(owed) >= old(self).config.write_batch_size ==> {
                    &&& actions_view(actions@) == flush_of(owed, cold_ready)
                    &&& final(self).pending@ == BatchView::empty()
                }
                &&& ops_of(owed) < old(self).config.write_batch_size ==> {
                    &&& actions@.len() == 0
                    &&& final(self).pending@ == owed
                }
            }),
            final(self).config == old(self).config,
            final(self).connect_closed == old(self).connect_closed,
            final(self).dns_closed == old(self).dns_closed,
    {
        let mut actions: Vec<HotAction> = Vec::new();
        let batch = process_connect_metric(
            &mut self.flows,
            &mut self.iface_realtime,
            &mut self.iface_buckets,
            metric,
            self.config.second_window_ms,
            self.config.second_ring_cap,
        );
        self.pending.extend(batch);
        if self.pending_ops() >= self.config.write_batch_size {
            proof {
                assert(actions_view(actions@) =~= Seq::<HotActionView>::empty());
            }
            self.flush(cold_ready, &mut actions);
            proof {
                assert(Seq::<HotActionView>::empty() + flush_of(joined(old(self).pending@, batch@), cold_ready) =~= flush_of(joined(old(self).pending@, batch@), cold_ready));
            }
        }
        actions
    }

    /// A timer: writes what is owed.
    pub fn on_flush_tick(&mut self, cold_ready: bool) -> (actions: Vec<HotAction>)
        ensures
            actions_view(actions@) == flush_of(old(self).pending@, cold_ready),
            final(self).pending@ == BatchView::empty(),
            final(self).flows == old(self).flows,
            final(self).iface_realtime == old(self).iface_realtime,
            final(self).iface_buckets == old(self).iface_buckets,
            final(self).config == old(self).config,
            final(self).connect_closed == old(self).connect_closed,
            final(self).dns_closed == old(self).dns_closed,
    {
        let mut actions: Vec<HotAction> = Vec::new();
        proof {
            assert(actions_view(actions@) =~= Seq::<HotActionView>::empty());
        }
        self.flush(cold_ready, &mut actions);
        proof {
            assert(Seq::<HotActionView>::empty() + flush_of(old(self).pending@, cold_ready) =~= flush_of(old(self).pending@, cold_ready));
        }
        actions
    }

    /// The cleanup timer at `now_ms`: writes what is owed, sweeps the flow
    /// cache, writes what the sweep owes, and has the summaries older than
    /// the retention deleted.
    pub fn on_cleanup_tick(&mut self, now_ms: u64, cold_ready: bool) -> (actions: Vec<HotAction>)
        ensures
            exists|ks: Seq<u64>|
                #![trigger swept(flows_view(old(self).flows@), old(self).iface_realtime@, ks, now_ms, old(self).config.second_window_ms)]
                {
                    let out = swept(
                        flows_view(old(self).flows@),
                        old(self).iface_realtime@,
                        ks,
                        now_ms,
                        old(self).config.second_window_ms,
                    );
                    &&& ks.no_duplicates()
                    &&& ks.to_set() == old(self).flows@.dom()
                    &&& flows_view(final(self).flows@) == out.0
                    &&& final(self).iface_realtime@ == out.1
                    &&& actions_view(actions@) == flush_of(old(self).pending@, cold_ready) + flush_of(
                        out.2,
                        cold_ready,
                    ) + seq![
                        HotActionView::CleanupSummaries(
                            sat_sub(now_ms, old(self).config.summary_retention_ms),
                        ),
                    ]
                },
            final(self).pending@ == BatchView::empty(),
            final(self).iface_buckets == old(self).iface_buckets,
            final(self).config == old(self).config,
            final(self).connect_closed == old(self).connect_closed,
            final(self).dns_closed == old(self).dns_closed,
    {
        let mut actions: Vec<HotAction> = Vec::new();
        proof {
            assert(actions_view(actions@) =~= Seq::<HotActionView>::empty());
        }
        self.flush(cold_ready, &mut actions);
        let ghost a1 = actions_view(actions@);
        let (_stats, batch) = cleanup_flow_cache(
            &mut self.flows,
            &mut self.iface_realtime,
            now_ms,
            self.config.second_window_ms,
        );
        let ghost b = batch@;
        self.pending.extend(batch);
        proof {
            assert(self.pending@ =~= b);
        }
        self.flush(cold_ready, &mut actions);
        let ghost a2 = actions_view(actions@);
        let cutoff = now_ms.saturating_sub(self.config.summary_retention_ms);
        actions.push(HotAction::CleanupSummaries { cutoff });
        proof {
            assert(actions_view(actions@) =~= a2.push(HotActionView::CleanupSummaries(cutoff)));
            assert(Seq::<HotActionView>::empty() + flush_of(old(self).pending@, cold_ready) =~= flush_of(old(self).pending@, cold_ready));
        }
        actions
    }

    /// A DNS metric: passed on to the cold store where it is ready.
    pub fn on_dns(&self, cold_ready: bool) -> (actions: Vec<HotAction>)
        ensures
            cold_ready ==> actions_view(actions@) == seq![HotActionView::EnqueueColdDns],
            !cold_ready ==> actions@.len() == 0,
    {
        let mut actions: Vec<HotAction> = Vec::new();
        if cold_ready {
            actions.push(HotAction::EnqueueColdDns);
            proof {
                assert(actions_view(actions@) =~= seq![HotActionView::EnqueueColdDns]);
            }
        }
        actions
    }

    /// A channel closed: once both are, the loop finishes (see `finish`).
    pub fn on_closed(&mut self, connect: bool, cold_ready: bool) -> (actions: Vec<HotAction>)
        ensures
            final(self).connect_closed == (old(self).connect_closed || connect),
            final(self).dns_closed == (old(self).dns_closed || !connect),
            !(final(self).connect_closed && final(self).dns_closed) ==> {
                &&& actions@.len() == 0
                &&& final(self).flows == old(self).flows
                &&& final(self).iface_realtime == old(self).iface_realtime
                &&& final(self).pending@ == old(self).pending@
            },
            final(self).connect_closed && final(self).dns_closed ==> exists|ks: Seq<u64>|
                #![trigger all_finalized(flows_view(old(self).flows@), old(self).iface_realtime@, ks)]
                {
                    let out = all_finalized(flows_view(old(self).flows@), old(self).iface_realtime@, ks);
                    &&& ks.no_duplicates()
                    &&& ks.to_set() == old(self).flows@.dom()
                    &&& flows_view(final(self).flows@) == out.0
                    &&& final(self).iface_realtime@ == out.1
                    &&& actions_view(actions@) == flush_of(old(self).pending@, cold_ready)
                        + flush_of(out.2, cold_ready) + seq![HotActionView::Stop]
                },
    {
        let mut actions: Vec<HotAction> = Vec::new();
        if connect {
            self.connect_closed = true;
        } else {
            self.dns_closed = true;
        }
        if self.connect_closed && self.dns_closed {
            proof {
                assert(actions_view(actions@) =~= Seq::<HotActionView>::empty());
            }
            self.finish(cold_ready, &mut actions);
            proof {
                assert forall|ks: Seq<u64>| #![trigger all_finalized(flows_view(old(self).flows@), old(self).iface_realtime@, ks)]
                    true implies Seq::<HotActionView>::empty() + flush_of(old(self).pending@, cold_ready)
                        + flush_of(all_finalized(flows_view(old(self).flows@), old(self).iface_realtime@, ks).2, cold_ready) + seq![HotActionView::Stop]
                        =~= flush_of(old(self).pending@, cold_ready)
                        + flush_of(all_finalized(flows_view(old(self).flows@), old(self).iface_realtime@, ks).2, cold_ready) + seq![HotActionView::Stop] by {}
            }
        }
        actions
    }

    /// The shutdown: the loop finishes (see `finish`).
    pub fn on_shutdown(&mut self, cold_ready: bool) -> (actions: Vec<HotAction>)
        ensures
            exists|ks: Seq<u64>|
                #![trigger all_finalized(flows_view(old(self).flows@), old(self).iface_realtime@, ks)]
                {
                    let out = all_finalized(flows_view(old(self).flows@), old(self).iface_realtime@, ks);
                    &&& ks.no_duplicates()
                    &&& ks.to_set() == old(self).flows@.dom()
                    &&& flows_view(final(self).flows@) == out.0
                    &&& final(self).iface_realtime@ == out.1
                    &&& actions_view(actions@) == flush_of(old(self).pending@, cold_ready)
                        + flush_of(out.2, cold_ready) + seq![HotActionView::Stop]
                },
            final(self).pending@ == BatchView::empty(),
    {
        let mut actions: Vec<HotAction> = Vec::new();
        proof {
            assert(actions_view(actions@) =~= Seq::<HotActionView>::empty());
        }
        self.finish(cold_ready, &mut actions);
        proof {
            assert forall|ks: Seq<u64>| #![trigger all_finalized(flows_view(old(self).flows@), old(self).iface_realtime@, ks)]
                true implies Seq::<HotActionView>::empty() + flush_of(old(self).pending@, cold_ready)
                    + flush_of(all_finalized(flows_view(old(self).flows@), old(self).iface_realtime@, ks).2, cold_ready) + seq![HotActionView::Stop]
                    =~= flush_of(old(self).pending@, cold_ready)
                    + flush_of(all_finalized(flows_view(old(self).flows@), old(self).iface_realtime@, ks).2, cold_ready) + seq![HotActionView::Stop] by {}
        }
        actions
    }
}

/// The connection metrics as the rest of the router sees them: the store
/// they are kept in.
pub struct ConnectMetricManager {
    pub metric_store: MetricHotLoop,
}

impl ConnectMetricManager {
    pub fn with_store(metric_store: MetricHotLoop) -> (r: Self)
        ensures
            r.metric_store == metric_store,
    {
        ConnectMetricManager { metric_store }
    }

    /// The live connections at `now_ms`, the most recently heard from
    /// first; see `collect_connect_infos`.
    pub fn connect_infos(&self, now_ms: u64) -> (r: Vec<ConnectRealtimeStatus>)
        ensures
            sorted_desc(r@),
            exists|ks: Seq<u64>|
                #![trigger active_realtimes(flows_view(self.metric_store.flows@), ks, now_ms)]
                {
                    &&& ks.no_duplicates()
                    &&& ks.to_set() == self.metric_store.flows@.dom()
                    &&& r@.to_multiset() == active_realtimes(flows_view(self.metric_store.flows@), ks, now_ms).to_multiset()
                },
    {
        collect_connect_infos(&self.metric_store.flows, now_ms)
    }
}

/// The DNS metrics as the rest of the router sees them: the store they are
/// kept in.
pub struct DnsMetricManager {
    pub metric_store: MetricHotLoop,
}

impl DnsMetricManager {
    pub fn with_store(metric_store: MetricHotLoop) -> (r: Self)
        ensures
            r.metric_store == metric_store,
    {
        DnsMetricManager { metric_store }
    }

    /// What taking in a DNS metric asks of the persistence loop: see
    /// `MetricHotLoop::on_dns`.
    pub fn insert_dns_metric(&self, cold_ready: bool) -> (actions: Vec<HotAction>)
        ensures
            cold_ready ==> actions_view(actions@) == seq![HotActionView::EnqueueColdDns],
            !cold_ready ==> actions@.len() == 0,
    {
        self.metric_store.on_dns(cold_ready)
    }
}

} // verus!
