//! The live state of each connection: its last report, its current rates,
//! its per-second points, the rollup slots it has written, and whether it
//! is counted in its interface's realtime sums; and the cache of those
//! states, which takes in reports, finalizes closed or silent connections
//! and hands out what the store is owed.
use std::collections::{BTreeMap, HashMap, VecDeque};
use vstd::prelude::*;

use crate::metric_ingest::{
    add_iface_realtime_contribution, bucket_start, day_refresh_slot, hour_refresh_slot,
    initial_rate_contribution, minute_slot, rate_from_delta, realtime_added, realtime_removed,
    record_iface_delta, recorded_iface_delta, remove_iface_realtime_contribution, sat_sub,
    spec_bucket_start, spec_initial_rate, spec_rate, BucketKind, ConnectMetric,
    ConnectStatusType, FlowRateContribution, IfaceBucketAcc, IfaceBucketWrite, IfaceRealtimeAcc,
    MetricDelta, MS_PER_DAY, MS_PER_HOUR, MS_PER_MINUTE, MS_PER_TEN_MINUTES, STALE_TIMEOUT_MS,
};

verus! {

broadcast use {vstd::std_specs::hash::group_hash_axioms, vstd::std_specs::vecdeque::group_vec_dequeue_axioms};

/// One per-second point of a connection.
#[derive(Clone, Copy, Debug, PartialEq, Eq, Structural)]
pub struct ConnectMetricPoint {
    pub report_time: u64,
    pub ingress_bytes: u64,
    pub ingress_packets: u64,
    pub egress_bytes: u64,
    pub egress_packets: u64,
    pub status: ConnectStatusType,
}

/// The point that a report makes.
pub open spec fn point_of(m: ConnectMetric) -> ConnectMetricPoint {
    ConnectMetricPoint {
        report_time: m.report_time,
        ingress_bytes: m.ingress_bytes,
        ingress_packets: m.ingress_packets,
        egress_bytes: m.egress_bytes,
        egress_packets: m.egress_packets,
        status: m.status,
    }
}

pub fn metric_to_point(metric: &ConnectMetric) -> (r: ConnectMetricPoint)
    ensures
        r == point_of(*metric),
{
    ConnectMetricPoint {
        report_time: metric.report_time,
        ingress_bytes: metric.ingress_bytes,
        ingress_packets: metric.ingress_packets,
        egress_bytes: metric.egress_bytes,
        egress_packets: metric.egress_packets,
        status: metric.status,
    }
}

/// What is shown of a live connection: where it runs, its rates and its
/// status.
#[derive(Clone, Copy, Debug, PartialEq, Eq, Structural)]
pub struct ConnectRealtimeStatus {
    pub key: u64,
    pub ifindex: u32,
    pub create_time_ms: u64,
    pub ingress_bps: u64,
    pub egress_bps: u64,
    pub ingress_pps: u64,
    pub egress_pps: u64,
    pub last_report_time: u64,
    pub status: ConnectStatusType,
}

/// The realtime view of a first report, with no rate yet.
pub open spec fn realtime_of(m: ConnectMetric) -> ConnectRealtimeStatus {
    ConnectRealtimeStatus {
        key: m.key,
        ifindex: m.ifindex,
        create_time_ms: m.create_time_ms,
        ingress_bps: 0,
        egress_bps: 0,
        ingress_pps: 0,
        egress_pps: 0,
        last_report_time: m.report_time,
        status: m.status,
    }
}

/// `r` showing the rates of `rate`.
pub open spec fn with_rate(r: ConnectRealtimeStatus, rate: FlowRateContribution) -> ConnectRealtimeStatus {
    ConnectRealtimeStatus {
        ingress_bps: rate.ingress_bps,
        egress_bps: rate.egress_bps,
        ingress_pps: rate.ingress_pps,
        egress_pps: rate.egress_pps,
        ..r
    }
}

pub fn metric_to_realtime(metric: &ConnectMetric) -> (r: ConnectRealtimeStatus)
    ensures
        r == realtime_of(*metric),
{
    ConnectRealtimeStatus {
        key: metric.key,
        ifindex: metric.ifindex,
        create_time_ms: metric.create_time_ms,
        ingress_bps: 0,
        egress_bps: 0,
        ingress_pps: 0,
        egress_pps: 0,
        last_report_time: metric.report_time,
        status: metric.status,
    }
}

pub fn apply_rate_to_realtime(realtime: &mut ConnectRealtimeStatus, rate: FlowRateContribution)
    ensures
        *final(realtime) == with_rate(*old(realtime), rate),
{
    realtime.ingress_bps = rate.ingress_bps;
    realtime.egress_bps = rate.egress_bps;
    realtime.ingress_pps = rate.ingress_pps;
    realtime.egress_pps = rate.egress_pps;
}

/// The counters gained from `previous` to `current`, none below zero.
pub open spec fn delta_between(previous: ConnectMetric, current: ConnectMetric) -> MetricDelta {
    MetricDelta {
        ingress_bytes: sat_sub(current.ingress_bytes, previous.ingress_bytes),
        ingress_packets: sat_sub(current.ingress_packets, previous.ingress_packets),
        egress_bytes: sat_sub(current.egress_bytes, previous.egress_bytes),
        egress_packets: sat_sub(current.egress_packets, previous.egress_packets),
    }
}

/// The points of `ring` left once its leading points from before `cutoff`
/// are dropped.
pub open spec fn trimmed_before(ring: Seq<ConnectMetricPoint>, cutoff: u64) -> Seq<ConnectMetricPoint>
    decreases ring.len(),
{
    if ring.len() > 0 && ring[0].report_time < cutoff {
        trimmed_before(ring.drop_first(), cutoff)
    } else {
        ring
    }
}

/// How many points a ring of capacity `cap` keeps: at least one.
pub open spec fn ring_limit(cap: usize) -> int {
    if cap < 1 {
        1
    } else {
        cap as int
    }
}

/// The newest points of `ring` that a ring of capacity `cap` keeps.
pub open spec fn kept_last(ring: Seq<ConnectMetricPoint>, cap: usize) -> Seq<ConnectMetricPoint> {
    if ring.len() > ring_limit(cap) {
        ring.subrange(ring.len() - ring_limit(cap), ring.len() as int)
    } else {
        ring
    }
}

/// The ring of a connection last reported at `last`: the points of the last
/// `window` milliseconds, at most `cap` of them.
pub open spec fn trimmed_ring(
    ring: Seq<ConnectMetricPoint>,
    last: u64,
    window: u64,
    cap: usize,
) -> Seq<ConnectMetricPoint> {
    kept_last(trimmed_before(ring, sat_sub(last, window)), cap)
}

/// Drops the leading points of `ring` from before `cutoff`.
pub fn trim_ring_before(ring: &mut VecDeque<ConnectMetricPoint>, cutoff: u64)
    ensures
        final(ring)@ == trimmed_before(old(ring)@, cutoff),
{
    let ghost target = trimmed_before(ring@, cutoff);
    while ring.len() > 0 && ring[0].report_time < cutoff
        invariant
            trimmed_before(ring@, cutoff) == target,
        decreases ring@.len(),
    {
        let _ = ring.pop_front();
    }
}

/// Drops the oldest points of `ring` beyond its capacity `cap`.
pub fn keep_last_points(ring: &mut VecDeque<ConnectMetricPoint>, cap: usize)
    ensures
        final(ring)@ == kept_last(old(ring)@, cap),
{
    let limit: usize = if cap < 1 {
        1
    } else {
        cap
    };
    let ghost r0 = ring@;
    while ring.len() > limit
        invariant
            limit == ring_limit(cap),
            ring@.len() <= r0.len(),
            ring@ == r0.subrange(r0.len() - ring@.len(), r0.len() as int),
            r0.len() > limit ==> ring@.len() >= limit,
            r0.len() <= limit ==> ring@ == r0,
        decreases ring@.len(),
    {
        let _ = ring.pop_front();
    }
}

/// The per-second points of `ring` from `cutoff` on, in order.
pub open spec fn points_since(ring: Seq<ConnectMetricPoint>, cutoff: u64) -> Seq<ConnectMetricPoint>
    decreases ring.len(),
{
    if ring.len() == 0 {
        Seq::empty()
    } else {
        let rest = points_since(ring.drop_last(), cutoff);
        if ring.last().report_time >= cutoff {
            rest.push(ring.last())
        } else {
            rest
        }
    }
}

/// The live state of one connection.
pub struct FlowState {
    pub last_metric: ConnectMetric,
    pub realtime: ConnectRealtimeStatus,
    pub rate: FlowRateContribution,
    pub counted_in_iface_realtime: bool,
    pub second_ring: VecDeque<ConnectMetricPoint>,
    pub last_minute_slot: u64,
    pub last_hour_refresh_slot: u64,
    pub last_day_refresh_slot: u64,
    pub finalized: bool,
}

/// A connection's state with its ring as a sequence of points, oldest
/// first.
pub struct FlowStateView {
    pub last_metric: ConnectMetric,
    pub realtime: ConnectRealtimeStatus,
    pub rate: FlowRateContribution,
    pub counted_in_iface_realtime: bool,
    pub second_ring: Seq<ConnectMetricPoint>,
    pub last_minute_slot: u64,
    pub last_hour_refresh_slot: u64,
    pub last_day_refresh_slot: u64,
    pub finalized: bool,
}

impl View for FlowState {
    type V = FlowStateView;

    open spec fn view(&self) -> FlowStateView {
        FlowStateView {
            last_metric: self.last_metric,
            realtime: self.realtime,
            rate: self.rate,
            counted_in_iface_realtime: self.counted_in_iface_realtime,
            second_ring: self.second_ring@,
            last_minute_slot: self.last_minute_slot,
            last_hour_refresh_slot: self.last_hour_refresh_slot,
            last_day_refresh_slot: self.last_day_refresh_slot,
            finalized: self.finalized,
        }
    }
}

/// The state of a connection at its first report.
pub open spec fn new_flow(m: ConnectMetric, window: u64, cap: usize) -> FlowStateView {
    FlowStateView {
        last_metric: m,
        realtime: with_rate(realtime_of(m), spec_initial_rate(m)),
        rate: spec_initial_rate(m),
        counted_in_iface_realtime: false,
        second_ring: trimmed_ring(seq![point_of(m)], m.report_time, window, cap),
        last_minute_slot: spec_bucket_start(m.report_time, MS_PER_MINUTE),
        last_hour_refresh_slot: spec_bucket_start(m.report_time, MS_PER_TEN_MINUTES),
        last_day_refresh_slot: spec_bucket_start(m.report_time, MS_PER_HOUR),
        finalized: false,
    }
}

/// The rates after report `m`: over the time since the last report, or,
/// where `m` is no later, the last rates moved to `m`'s interface.
pub open spec fn next_rate(s: FlowStateView, m: ConnectMetric) -> FlowRateContribution {
    if m.report_time > s.last_metric.report_time {
        spec_rate(
            m.ifindex,
            delta_between(s.last_metric, m),
            (m.report_time - s.last_metric.report_time) as u64,
        )
    } else {
        FlowRateContribution { ifindex: m.ifindex, ..s.rate }
    }
}

/// The state once report `m` is taken in: the report becomes the last one,
/// the rates follow it, the status follows it unless it is unknown, its
/// point joins the ring, and the connection is live again.
pub open spec fn updated_flow(s: FlowStateView, m: ConnectMetric, window: u64, cap: usize) -> FlowStateView {
    let rate = next_rate(s, m);
    FlowStateView {
        last_metric: m,
        realtime: ConnectRealtimeStatus {
            key: s.realtime.key,
            ifindex: m.ifindex,
            create_time_ms: m.create_time_ms,
            ingress_bps: rate.ingress_bps,
            egress_bps: rate.egress_bps,
            ingress_pps: rate.ingress_pps,
            egress_pps: rate.egress_pps,
            last_report_time: m.report_time,
            status: if m.status != ConnectStatusType::Unknow {
                m.status
            } else {
                s.realtime.status
            },
        },
        rate,
        second_ring: trimmed_ring(s.second_ring.push(point_of(m)), m.report_time, window, cap),
        finalized: false,
        ..s
    }
}

/// The connection belongs in its interface's realtime sums.
pub open spec fn should_count(s: FlowStateView) -> bool {
    !s.finalized && s.realtime.status != ConnectStatusType::Disabled
}

/// The connection is live and was heard from in the last five minutes
/// before `now`.
pub open spec fn flow_is_active(s: FlowStateView, now: u64) -> bool {
    should_count(s) && s.realtime.last_report_time >= sat_sub(now, STALE_TIMEOUT_MS)
}

/// The state marked closed, counted nowhere, with nothing more owed.
pub open spec fn marked_finalized(s: FlowStateView) -> FlowStateView {
    FlowStateView {
        finalized: true,
        last_metric: ConnectMetric { status: ConnectStatusType::Disabled, ..s.last_metric },
        realtime: ConnectRealtimeStatus { status: ConnectStatusType::Disabled, ..s.realtime },
        ..s
    }
}

impl FlowState {
    pub fn new(metric: ConnectMetric, window_ms: u64, ring_cap: usize) -> (s: FlowState)
        ensures
            s@ == new_flow(metric, window_ms, ring_cap),
    {
        let report_time = metric.report_time;
        let mut second_ring = VecDeque::with_capacity(if ring_cap < 1 {
            1
        } else {
            ring_cap
        });
        second_ring.push_back(metric_to_point(&metric));
        let rate = initial_rate_contribution(&metric);
        let mut realtime = metric_to_realtime(&metric);
        apply_rate_to_realtime(&mut realtime, rate);
        let mut state = FlowState {
            realtime,
            last_metric: metric,
            rate,
            counted_in_iface_realtime: false,
            second_ring,
            last_minute_slot: minute_slot(report_time),
            last_hour_refresh_slot: hour_refresh_slot(report_time),
            last_day_refresh_slot: day_refresh_slot(report_time),
            finalized: false,
        };
        state.trim_second_ring(window_ms, ring_cap);
        proof {
            assert(seq![point_of(metric)] =~= Seq::<ConnectMetricPoint>::empty().push(point_of(metric)));
        }
        state
    }

    pub fn update_from_metric(&mut self, metric: ConnectMetric, window_ms: u64, ring_cap: usize)
        ensures
            final(self)@ == updated_flow(old(self)@, metric, window_ms, ring_cap),
    {
        let next_rate = if metric.report_time > self.last_metric.report_time {
            let delta_t = metric.report_time - self.last_metric.report_time;
            rate_from_delta(
                metric.ifindex,
                MetricDelta::from_metrics(&self.last_metric, &metric),
                delta_t,
            )
        } else {
            FlowRateContribution { ifindex: metric.ifindex, ..self.rate }
        };
        self.realtime.last_report_time = metric.report_time;
        self.realtime.ifindex = metric.ifindex;
        self.realtime.create_time_ms = metric.create_time_ms;
        apply_rate_to_realtime(&mut self.realtime, next_rate);
        if metric.status != ConnectStatusType::Unknow {
            self.realtime.status = metric.status;
        }
        self.last_metric = metric;
        self.rate = next_rate;
        self.second_ring.push_back(metric_to_point(&metric));
        self.finalized = false;
        self.trim_second_ring(window_ms, ring_cap);
    }

    /// Marks the connection closed.
    pub fn mark_finalized(&mut self)
        ensures
            final(self)@ == marked_finalized(old(self)@),
    {
        self.finalized = true;
        self.last_metric.status = ConnectStatusType::Disabled;
        self.realtime.status = ConnectStatusType::Disabled;
    }

    pub fn should_count_iface_realtime(&self) -> (r: bool)
        ensures
            r == should_count(self@),
    {
        !self.finalized && self.realtime.status != ConnectStatusType::Disabled
    }

    /// Keeps the points of the last `window_ms` before the last report, at
    /// most `ring_cap` of them (at least one).
    pub fn trim_second_ring(&mut self, window_ms: u64, ring_cap: usize)
        ensures
            final(self)@ == (FlowStateView {
                second_ring: trimmed_ring(
                    old(self)@.second_ring,
                    old(self).realtime.last_report_time,
                    window_ms,
                    ring_cap,
                ),
                ..old(self)@
            }),
    {
        let cutoff = self.realtime.last_report_time.saturating_sub(window_ms);
        trim_ring_before(&mut self.second_ring, cutoff);
        keep_last_points(&mut self.second_ring, ring_cap);
    }

    /// Drops the points from before `cutoff`.
    pub fn trim_second_ring_before(&mut self, cutoff: u64)
        ensures
            final(self)@ == (FlowStateView {
                second_ring: trimmed_before(old(self)@.second_ring, cutoff),
                ..old(self)@
            }),
    {
        trim_ring_before(&mut self.second_ring, cutoff);
    }

    /// The points from `cutoff` on, oldest first.
    pub fn second_points_since(&self, cutoff: u64) -> (r: Vec<ConnectMetricPoint>)
        ensures
            r@ == points_since(self@.second_ring, cutoff),
    {
        let mut r: Vec<ConnectMetricPoint> = Vec::new();
        let n = self.second_ring.len();
        let mut i: usize = 0;
        while i < n
            invariant
                n == self.second_ring@.len(),
                i <= n,
                r@ == points_since(self.second_ring@.take(i as int), cutoff),
            decreases n - i,
        {
            let p = self.second_ring[i];
            proof {
                let t = self.second_ring@.take(i + 1);
                assert(t.drop_last() =~= self.second_ring@.take(i as int));
                assert(t.last() == p);
            }
            if p.report_time >= cutoff {
                r.push(p);
            }
            i = i + 1;
        }
        proof {
            assert(self.second_ring@.take(n as int) =~= self.second_ring@);
        }
        r
    }

    pub fn is_active(&self, now_ms: u64) -> (r: bool)
        ensures
            r == flow_is_active(self@, now_ms),
    {
        !self.finalized && self.realtime.status != ConnectStatusType::Disabled
            && self.realtime.last_report_time >= now_ms.saturating_sub(STALE_TIMEOUT_MS)
    }
}

/// A rollup row owed to the store: the report to write and the start of
/// the bucket it goes to.
#[derive(Clone, Copy, Debug, PartialEq, Eq, Structural)]
pub struct BucketWrite {
    pub kind: BucketKind,
    pub metric: ConnectMetric,
    pub bucket_report_time: u64,
}

/// What the store is owed: connection summaries, rollup rows and interface
/// buckets, each in the order they were made.
pub struct PersistenceBatch {
    pub summary_metrics: Vec<ConnectMetric>,
    pub bucket_writes: Vec<BucketWrite>,
    pub iface_bucket_writes: Vec<IfaceBucketWrite>,
}

/// A batch as three sequences.
#[verifier::ext_equal]
pub struct BatchView {
    pub summary_metrics: Seq<ConnectMetric>,
    pub bucket_writes: Seq<BucketWrite>,
    pub iface_bucket_writes: Seq<IfaceBucketWrite>,
}

impl View for PersistenceBatch {
    type V = BatchView;

    open spec fn view(&self) -> BatchView {
        BatchView {
            summary_metrics: self.summary_metrics@,
            bucket_writes: self.bucket_writes@,
            iface_bucket_writes: self.iface_bucket_writes@,
        }
    }
}

impl BatchView {
    pub open spec fn empty() -> BatchView {
        BatchView {
            summary_metrics: Seq::empty(),
            bucket_writes: Seq::empty(),
            iface_bucket_writes: Seq::empty(),
        }
    }

    pub open spec fn with_summary(self, m: ConnectMetric) -> BatchView {
        BatchView { summary_metrics: self.summary_metrics.push(m), ..self }
    }

    pub open spec fn with_bucket(self, kind: BucketKind, m: ConnectMetric, t: u64) -> BatchView {
        BatchView {
            bucket_writes: self.bucket_writes.push(
                BucketWrite { kind, metric: m, bucket_report_time: t },
            ),
            ..self
        }
    }
}

impl Default for PersistenceBatch {
    fn default() -> (r: PersistenceBatch)
        ensures
            r@ == BatchView::empty(),
    {
        PersistenceBatch {
            summary_metrics: Vec::new(),
            bucket_writes: Vec::new(),
            iface_bucket_writes: Vec::new(),
        }
    }
}

impl PersistenceBatch {
    pub fn is_empty(&self) -> (r: bool)
        ensures
            r == (self@.summary_metrics.len() == 0 && self@.bucket_writes.len() == 0
                && self@.iface_bucket_writes.len() == 0),
    {
        self.summary_metrics.len() == 0 && self.bucket_writes.len() == 0
            && self.iface_bucket_writes.len() == 0
    }

    /// How many rows the batch writes.
    pub fn op_count(&self) -> (r: usize)
        requires
            self@.summary_metrics.len() + self@.bucket_writes.len()
                + self@.iface_bucket_writes.len() <= usize::MAX,
        ensures
            r == self@.summary_metrics.len() + self@.bucket_writes.len()
                + self@.iface_bucket_writes.len(),
    {
        self.summary_metrics.len() + self.bucket_writes.len() + self.iface_bucket_writes.len()
    }

    /// Appends everything that `other` owes after what this batch owes.
    pub fn extend(&mut self, other: PersistenceBatch)
        ensures
            final(self)@ == (BatchView {
                summary_metrics: old(self)@.summary_metrics + other@.summary_metrics,
                bucket_writes: old(self)@.bucket_writes + other@.bucket_writes,
                iface_bucket_writes: old(self)@.iface_bucket_writes + other@.iface_bucket_writes,
            }),
    {
        let mut other = other;
        self.summary_metrics.append(&mut other.summary_metrics);
        self.bucket_writes.append(&mut other.bucket_writes);
        self.iface_bucket_writes.append(&mut other.iface_bucket_writes);
    }

    pub fn push_summary(&mut self, metric: ConnectMetric)
        ensures
            final(self)@ == old(self)@.with_summary(metric),
    {
        self.summary_metrics.push(metric);
    }

    pub fn push_bucket(&mut self, kind: BucketKind, metric: ConnectMetric, bucket_report_time: u64)
        ensures
            final(self)@ == old(self)@.with_bucket(kind, metric, bucket_report_time),
    {
        self.bucket_writes.push(BucketWrite { kind, metric, bucket_report_time });
    }

    pub fn extend_iface_buckets(&mut self, writes: Vec<IfaceBucketWrite>)
        ensures
            final(self)@ == (BatchView {
                iface_bucket_writes: old(self)@.iface_bucket_writes + writes@,
                ..old(self)@
            }),
    {
        let mut writes = writes;
        self.iface_bucket_writes.append(&mut writes);
    }
}

/// The interface sums once the connection's rates, where they are counted,
/// are taken off.
pub open spec fn flow_removed(rt: Map<u32, IfaceRealtimeAcc>, s: FlowStateView) -> Map<
    u32,
    IfaceRealtimeAcc,
> {
    if s.counted_in_iface_realtime {
        realtime_removed(rt, s.rate)
    } else {
        rt
    }
}

/// The state counted nowhere.
pub open spec fn uncounted(s: FlowStateView) -> FlowStateView {
    FlowStateView { counted_in_iface_realtime: false, ..s }
}

/// The interface sums once the connection's rates are added, where it is
/// live and not counted yet.
pub open spec fn flow_added(rt: Map<u32, IfaceRealtimeAcc>, s: FlowStateView) -> Map<
    u32,
    IfaceRealtimeAcc,
> {
    if !s.counted_in_iface_realtime && should_count(s) {
        realtime_added(rt, s.rate, s.realtime.last_report_time)
    } else {
        rt
    }
}

/// The state once `flow_added` has counted it.
pub open spec fn recounted(s: FlowStateView) -> FlowStateView {
    if !s.counted_in_iface_realtime && should_count(s) {
        FlowStateView { counted_in_iface_realtime: true, ..s }
    } else {
        s
    }
}

/// Takes the connection's rates off its interface's sums, if they are
/// counted there.
pub fn remove_state_iface_realtime(
    iface_realtime: &mut HashMap<u32, IfaceRealtimeAcc>,
    state: &mut FlowState,
)
    ensures
        final(iface_realtime)@ == flow_removed(old(iface_realtime)@, old(state)@),
        final(state)@ == uncounted(old(state)@),
{
    if !state.counted_in_iface_realtime {
        return;
    }
    remove_iface_realtime_contribution(iface_realtime, state.rate);
    state.counted_in_iface_realtime = false;
}

/// Adds the connection's rates to its interface's sums, if it is live and
/// not counted yet.
pub fn add_state_iface_realtime(
    iface_realtime: &mut HashMap<u32, IfaceRealtimeAcc>,
    state: &mut FlowState,
)
    ensures
        final(iface_realtime)@ == flow_added(old(iface_realtime)@, old(state)@),
        final(state)@ == recounted(old(state)@),
{
    if state.counted_in_iface_realtime || !state.should_count_iface_realtime() {
        return;
    }
    add_iface_realtime_contribution(iface_realtime, state.rate, state.realtime.last_report_time);
    state.counted_in_iface_realtime = true;
}

/// The last report of a finalized connection, marked closed where asked.
pub open spec fn final_metric(s: FlowStateView, mark_disabled: bool) -> ConnectMetric {
    if mark_disabled {
        ConnectMetric { status: ConnectStatusType::Disabled, ..s.last_metric }
    } else {
        s.last_metric
    }
}

/// `b` with the last rows of a connection whose last report is `m`: its
/// minute, hour and day rollups and its summary.
pub open spec fn finalize_writes(b: BatchView, m: ConnectMetric) -> BatchView {
    b.with_bucket(BucketKind::Minute, m, spec_bucket_start(m.report_time, MS_PER_MINUTE)).with_bucket(
        BucketKind::Hour,
        m,
        spec_bucket_start(m.report_time, MS_PER_HOUR),
    ).with_bucket(BucketKind::Day, m, spec_bucket_start(m.report_time, MS_PER_DAY)).with_summary(m)
}

/// The state once finalized: counted nowhere, closed where asked, and done.
/// A finalized state stays as it is.
pub open spec fn finalized_flow(s: FlowStateView, mark_disabled: bool) -> FlowStateView {
    if s.finalized {
        s
    } else if mark_disabled {
        marked_finalized(uncounted(s))
    } else {
        FlowStateView { finalized: true, ..uncounted(s) }
    }
}

pub open spec fn finalized_realtime(rt: Map<u32, IfaceRealtimeAcc>, s: FlowStateView) -> Map<
    u32,
    IfaceRealtimeAcc,
> {
    if s.finalized {
        rt
    } else {
        flow_removed(rt, s)
    }
}

pub open spec fn finalized_batch(b: BatchView, s: FlowStateView, mark_disabled: bool) -> BatchView {
    if s.finalized {
        b
    } else {
        finalize_writes(b, final_metric(s, mark_disabled))
    }
}

/// Closes the books on a connection: takes it off its interface's sums,
/// marks it closed where asked, and owes the store its last rollups and
/// summary. A connection already finalized owes nothing more.
pub fn finalize_state_batch(
    state: &mut FlowState,
    mark_disabled: bool,
    batch: &mut PersistenceBatch,
    iface_realtime: &mut HashMap<u32, IfaceRealtimeAcc>,
)
    ensures
        final(state)@ == finalized_flow(old(state)@, mark_disabled),
        final(batch)@ == finalized_batch(old(batch)@, old(state)@, mark_disabled),
        final(iface_realtime)@ == finalized_realtime(old(iface_realtime)@, old(state)@),
{
    if state.finalized {
        return;
    }
    remove_state_iface_realtime(iface_realtime, state);
    let mut metric = state.last_metric;
    if mark_disabled {
        metric.status = ConnectStatusType::Disabled;
        state.last_metric.status = ConnectStatusType::Disabled;
        state.realtime.status = ConnectStatusType::Disabled;
    }
    batch.push_bucket(BucketKind::Minute, metric, minute_slot(metric.report_time));
    batch.push_bucket(BucketKind::Hour, metric, bucket_start(metric.report_time, MS_PER_HOUR));
    batch.push_bucket(BucketKind::Day, metric, bucket_start(metric.report_time, MS_PER_DAY));
    batch.push_summary(metric);
    state.finalized = true;
}

/// Spreads over the interface buckets what a connection gained since its
/// previous report; a first report spreads nothing.
pub fn record_metric_iface_delta(
    iface_buckets: &mut BTreeMap<u128, IfaceBucketAcc>,
    previous: Option<&ConnectMetric>,
    metric: &ConnectMetric,
)
    ensures
        match previous {
            Some(p) => final(iface_buckets)@ == recorded_iface_delta(
                old(iface_buckets)@,
                metric.ifindex,
                p.report_time,
                metric.report_time,
                delta_between(*p, *metric),
            ),
            None => final(iface_buckets)@ == old(iface_buckets)@,
        },
{
    match previous {
        Some(p) => {
            let delta = MetricDelta::from_metrics(p, metric);
            record_iface_delta(iface_buckets, metric.ifindex, p.report_time, metric.report_time, delta);
        },
        None => {},
    }
}

/// The states of the cache.
pub open spec fn flows_view(m: Map<u64, FlowState>) -> Map<u64, FlowStateView> {
    m.map_values(|s: FlowState| s@)
}

/// The rollup rows that report `m` makes due: a minute row (with the
/// summary) once a new minute began, an hour row once a new ten minutes
/// began, a day row once a new hour began, each for the bucket of the
/// previous report.
pub open spec fn rollup_batch(s: FlowStateView, m: ConnectMetric) -> BatchView {
    let last = s.last_metric.report_time;
    let b0 = BatchView::empty();
    let b1 = if spec_bucket_start(m.report_time, MS_PER_MINUTE) > s.last_minute_slot {
        b0.with_bucket(BucketKind::Minute, m, spec_bucket_start(last, MS_PER_MINUTE)).with_summary(m)
    } else {
        b0
    };
    let b2 = if spec_bucket_start(m.report_time, MS_PER_TEN_MINUTES) > s.last_hour_refresh_slot {
        b1.with_bucket(BucketKind::Hour, m, spec_bucket_start(last, MS_PER_HOUR))
    } else {
        b1
    };
    if spec_bucket_start(m.report_time, MS_PER_HOUR) > s.last_day_refresh_slot {
        b2.with_bucket(BucketKind::Day, m, spec_bucket_start(last, MS_PER_DAY))
    } else {
        b2
    }
}

/// The state with its rollup slots moved to those of `m` where `m` began a
/// new one.
pub open spec fn rollup_slots(s: FlowStateView, m: ConnectMetric) -> FlowStateView {
    let cm = spec_bucket_start(m.report_time, MS_PER_MINUTE);
    let ch = spec_bucket_start(m.report_time, MS_PER_TEN_MINUTES);
    let cd = spec_bucket_start(m.report_time, MS_PER_HOUR);
    FlowStateView {
        last_minute_slot: if cm > s.last_minute_slot {
            cm
        } else {
            s.last_minute_slot
        },
        last_hour_refresh_slot: if ch > s.last_hour_refresh_slot {
            ch
        } else {
            s.last_hour_refresh_slot
        },
        last_day_refresh_slot: if cd > s.last_day_refresh_slot {
            cd
        } else {
            s.last_day_refresh_slot
        },
        ..s
    }
}

/// The cache, interface sums, interface buckets and batch once report `m`
/// is taken in. A report older than its connection's last one changes
/// nothing. Otherwise the connection's gain is spread over its interface
/// buckets, it leaves its interface's sums, the rollups it makes due are
/// owed, its state follows the report, and it is then finalized where the
/// report closes it, or counted again. A first report makes a new state.
pub open spec fn taken_in(
    cache: Map<u64, FlowStateView>,
    rt: Map<u32, IfaceRealtimeAcc>,
    buckets: Map<u128, IfaceBucketAcc>,
    m: ConnectMetric,
    window: u64,
    cap: usize,
) -> (Map<u64, FlowStateView>, Map<u32, IfaceRealtimeAcc>, Map<u128, IfaceBucketAcc>, BatchView) {
    if cache.contains_key(m.key) {
        let s = cache[m.key];
        if m.report_time < s.last_metric.report_time {
            (cache, rt, buckets, BatchView::empty())
        } else {
            let buckets1 = recorded_iface_delta(
                buckets,
                m.ifindex,
                s.last_metric.report_time,
                m.report_time,
                delta_between(s.last_metric, m),
            );
            let rt1 = flow_removed(rt, s);
            let s1 = uncounted(s);
            let b = rollup_batch(s1, m);
            let s2 = updated_flow(rollup_slots(s1, m), m, window, cap);
            if m.status == ConnectStatusType::Disabled {
                (
                    cache.insert(m.key, finalized_flow(s2, true)),
                    finalized_realtime(rt1, s2),
                    buckets1,
                    finalized_batch(b, s2, true),
                )
            } else {
                (cache.insert(m.key, recounted(s2)), flow_added(rt1, s2), buckets1, b)
            }
        }
    } else {
        let s = new_flow(m, window, cap);
        if m.status == ConnectStatusType::Disabled {
            (
                cache.insert(m.key, finalized_flow(s, true)),
                finalized_realtime(rt, s),
                buckets,
                finalized_batch(BatchView::empty(), s, true),
            )
        } else {
            (cache.insert(m.key, recounted(s)), flow_added(rt, s), buckets, BatchView::empty())
        }
    }
}

/// Takes in one report of a connection; see `taken_in`.
pub fn process_connect_metric(
    flow_cache: &mut HashMap<u64, FlowState>,
    iface_realtime: &mut HashMap<u32, IfaceRealtimeAcc>,
    iface_buckets: &mut BTreeMap<u128, IfaceBucketAcc>,
    metric: ConnectMetric,
    second_window_ms: u64,
    second_ring_cap: usize,
) -> (batch: PersistenceBatch)
    ensures
        (flows_view(final(flow_cache)@), final(iface_realtime)@, final(iface_buckets)@, batch@)
            == taken_in(
            flows_view(old(flow_cache)@),
            old(iface_realtime)@,
            old(iface_buckets)@,
            metric,
            second_window_ms,
            second_ring_cap,
        ),
{
    let curr_minute_slot = minute_slot(metric.report_time);
    let curr_hour_refresh_slot = hour_refresh_slot(metric.report_time);
    let curr_day_refresh_slot = day_refresh_slot(metric.report_time);
    let mut batch = PersistenceBatch::default();
    let ghost c0 = flow_cache@;
    let key = metric.key;
    match flow_cache.remove(&key) {
        Some(mut state) => {
            let ghost s0 = state@;
            if metric.report_time < state.last_metric.report_time {
                let _ = flow_cache.insert(key, state);
                proof {
                    assert(flows_view(flow_cache@) =~= flows_view(c0));
                }
                return batch;
            }
            let previous = state.last_metric;
            record_metric_iface_delta(iface_buckets, Some(&previous), &metric);
            remove_state_iface_realtime(iface_realtime, &mut state);
            let previous_minute_bucket = minute_slot(state.last_metric.report_time);
            let previous_hour_bucket = bucket_start(state.last_metric.report_time, MS_PER_HOUR);
            let previous_day_bucket = bucket_start(state.last_metric.report_time, MS_PER_DAY);
            if curr_minute_slot > state.last_minute_slot {
                batch.push_bucket(BucketKind::Minute, metric, previous_minute_bucket);
                batch.push_summary(metric);
                state.last_minute_slot = curr_minute_slot;
            }
            if curr_hour_refresh_slot > state.last_hour_refresh_slot {
                batch.push_bucket(BucketKind::Hour, metric, previous_hour_bucket);
                state.last_hour_refresh_slot = curr_hour_refresh_slot;
            }
            if curr_day_refresh_slot > state.last_day_refresh_slot {
                batch.push_bucket(BucketKind::Day, metric, previous_day_bucket);
                state.last_day_refresh_slot = curr_day_refresh_slot;
            }
            proof {
                assert(batch@ == rollup_batch(uncounted(s0), metric));
                assert(state@ == rollup_slots(uncounted(s0), metric));
            }
            let should_finalize = metric.status == ConnectStatusType::Disabled;
            state.update_from_metric(metric, second_window_ms, second_ring_cap);
            if should_finalize {
                finalize_state_batch(&mut state, true, &mut batch, iface_realtime);
            } else {
                add_state_iface_realtime(iface_realtime, &mut state);
            }
            let ghost s_end = state@;
            let _ = flow_cache.insert(key, state);
            proof {
                assert(flows_view(flow_cache@) =~= flows_view(c0).insert(key, s_end));
            }
        },
        None => {
            record_metric_iface_delta(iface_buckets, None, &metric);
            let should_finalize = metric.status == ConnectStatusType::Disabled;
            let mut state = FlowState::new(metric, second_window_ms, second_ring_cap);
            if should_finalize {
                finalize_state_batch(&mut state, true, &mut batch, iface_realtime);
            } else {
                add_state_iface_realtime(iface_realtime, &mut state);
            }
            let ghost s_end = state@;
            let _ = flow_cache.insert(key, state);
            proof {
                assert(flows_view(flow_cache@) =~= flows_view(c0).insert(key, s_end));
            }
        },
    }
    batch
}

/// The keys of the cache, each once, in the order the map walks them (which
/// the map leaves open).
pub fn flow_keys(flow_cache: &HashMap<u64, FlowState>) -> (ks: Vec<u64>)
    ensures
        ks@.no_duplicates(),
        ks@.to_set() == flow_cache@.dom(),
{
    let mut ks: Vec<u64> = Vec::new();
    let keys = flow_cache.keys();
    let ghost r0 = vstd::std_specs::iter::IteratorSpec::remaining(&keys);
    proof {
        assert(r0.unref().to_set() == flow_cache@.dom());
        assert(r0.no_duplicates());
    }
    for k in it: keys
        invariant
            it.seq() == r0,
            ks@.len() == it.index(),
            forall|i: int| 0 <= i < it.index() ==> ks@[i] == *(#[trigger] r0[i]),
    {
        ks.push(*k);
    }
    proof {
        assert(ks@ =~= r0.unref());
        assert forall|i: int, j: int| 0 <= i < j < ks@.len() implies ks@[i] != ks@[j] by {
            assert(r0[i] != r0[j]);
        }
    }
    ks
}

/// Counts of a sweep of the cache.
#[derive(Clone, Copy, Debug, PartialEq, Eq, Structural)]
pub struct FlowCacheStats {
    pub active_flows: usize,
    pub finalized_flows: usize,
    pub finalized_in_run: usize,
    pub second_ring_points: usize,
}

pub open spec fn sat_add_usize(a: usize, b: int) -> usize {
    if a + b > usize::MAX {
        usize::MAX
    } else {
        (a + b) as usize
    }
}

/// The connection is live but was not heard from in the five minutes
/// before `now`.
pub open spec fn goes_stale(s: FlowStateView, now: u64) -> bool {
    !s.finalized && s.realtime.last_report_time < sat_sub(now, STALE_TIMEOUT_MS)
}

/// The state after a sweep at `now`: finalized if it went stale, and its
/// ring cut to the window before `now`.
pub open spec fn swept_flow(s: FlowStateView, now: u64, window: u64) -> FlowStateView {
    let s1 = if goes_stale(s, now) {
        finalized_flow(s, true)
    } else {
        s
    };
    FlowStateView { second_ring: trimmed_before(s1.second_ring, sat_sub(now, window)), ..s1 }
}

/// A finalized connection last heard from before the window leaves the
/// cache.
pub open spec fn expires(s: FlowStateView, now: u64, window: u64) -> bool {
    s.finalized && s.realtime.last_report_time < sat_sub(now, window)
}

/// The counts once a state, swept from `before` to `after`, is counted in.
pub open spec fn stats_with(
    st: FlowCacheStats,
    before: FlowStateView,
    after: FlowStateView,
    now: u64,
) -> FlowCacheStats {
    FlowCacheStats {
        active_flows: if !after.finalized && flow_is_active(after, now) {
            sat_add_usize(st.active_flows, 1)
        } else {
            st.active_flows
        },
        finalized_flows: if after.finalized {
            sat_add_usize(st.finalized_flows, 1)
        } else {
            st.finalized_flows
        },
        finalized_in_run: if goes_stale(before, now) {
            sat_add_usize(st.finalized_in_run, 1)
        } else {
            st.finalized_in_run
        },
        second_ring_points: sat_add_usize(st.second_ring_points, after.second_ring.len() as int),
    }
}

pub open spec fn no_stats() -> FlowCacheStats {
    FlowCacheStats { active_flows: 0, finalized_flows: 0, finalized_in_run: 0, second_ring_points: 0 }
}

/// The cache, interface sums, batch and counts once the states under keys
/// `ks` of `cache` are swept at `now`, in the order of `ks`: a stale one is
/// finalized and owes its last rows, each ring is cut to the window, and an
/// expired state leaves the cache.
pub open spec fn swept(
    cache: Map<u64, FlowStateView>,
    rt: Map<u32, IfaceRealtimeAcc>,
    ks: Seq<u64>,
    now: u64,
    window: u64,
) -> (Map<u64, FlowStateView>, Map<u32, IfaceRealtimeAcc>, BatchView, FlowCacheStats)
    decreases ks.len(),
{
    if ks.len() == 0 {
        (cache, rt, BatchView::empty(), no_stats())
    } else {
        let prev = swept(cache, rt, ks.drop_last(), now, window);
        let k = ks.last();
        let s = cache[k];
        let s1 = swept_flow(s, now, window);
        (
            if expires(s1, now, window) {
                prev.0.remove(k)
            } else {
                prev.0.insert(k, s1)
            },
            if goes_stale(s, now) {
                finalized_realtime(prev.1, s)
            } else {
                prev.1
            },
            if goes_stale(s, now) {
                finalized_batch(prev.2, s, true)
            } else {
                prev.2
            },
            stats_with(prev.3, s, s1, now),
        )
    }
}

/// Sweeps the cache at `now_ms`: every connection not heard from in five
/// minutes is finalized, every ring keeps only the window before `now_ms`,
/// and finalized connections last heard from before that window leave. The
/// states are visited in the order the map walks its keys, each once.
pub fn cleanup_flow_cache(
    flow_cache: &mut HashMap<u64, FlowState>,
    iface_realtime: &mut HashMap<u32, IfaceRealtimeAcc>,
    now_ms: u64,
    second_window_ms: u64,
) -> (r: (FlowCacheStats, PersistenceBatch))
    ensures
        exists|ks: Seq<u64>|
            #![trigger swept(flows_view(old(flow_cache)@), old(iface_realtime)@, ks, now_ms, second_window_ms)]
            {
                let out = swept(
                    flows_view(old(flow_cache)@),
                    old(iface_realtime)@,
                    ks,
                    now_ms,
                    second_window_ms,
                );
                &&& ks.no_duplicates()
                &&& ks.to_set() == old(flow_cache)@.dom()
                &&& flows_view(final(flow_cache)@) == out.0
                &&& final(iface_realtime)@ == out.1
                &&& r.1@ == out.2
                &&& r.0 == out.3
            },
{
    let stale_cutoff = now_ms.saturating_sub(STALE_TIMEOUT_MS);
    let window_cutoff = now_ms.saturating_sub(second_window_ms);
    let keys = flow_keys(flow_cache);
    let ghost c0 = flows_view(flow_cache@);
    let ghost rt0 = iface_realtime@;
    let mut stats = FlowCacheStats {
        active_flows: 0,
        finalized_flows: 0,
        finalized_in_run: 0,
        second_ring_points: 0,
    };
    let mut batch = PersistenceBatch::default();
    let mut i: usize = 0;
    while i < keys.len()
        invariant
            i <= keys@.len(),
            keys@.no_duplicates(),
            keys@.to_set() == c0.dom(),
            stale_cutoff == sat_sub(now_ms, STALE_TIMEOUT_MS),
            window_cutoff == sat_sub(now_ms, second_window_ms),
            ({
                let out = swept(c0, rt0, keys@.take(i as int), now_ms, second_window_ms);
                &&& flows_view(flow_cache@) == out.0
                &&& iface_realtime@ == out.1
                &&& batch@ == out.2
                &&& stats == out.3
            }),
            forall|j: int|
                i <= j < keys@.len() ==> flow_cache@.contains_key(#[trigger] keys@[j])
                    && flow_cache@[keys@[j]]@ == c0[keys@[j]],
        decreases keys.len() - i,
    {
        let k = keys[i];
        let ghost prev = swept(c0, rt0, keys@.take(i as int), now_ms, second_window_ms);
        let ghost cache_before = flow_cache@;
        proof {
            assert(flow_cache@.contains_key(keys@[i as int]));
        }
        if let Some(mut state) = flow_cache.remove(&k) {
            let ghost s0 = state@;
            let stale = !state.finalized && state.realtime.last_report_time < stale_cutoff;
            if stale {
                finalize_state_batch(&mut state, true, &mut batch, iface_realtime);
                stats.finalized_in_run = stats.finalized_in_run.saturating_add(1);
            }
            state.trim_second_ring_before(window_cutoff);
            stats.second_ring_points = stats.second_ring_points.saturating_add(
                state.second_ring.len(),
            );
            if state.finalized {
                stats.finalized_flows = stats.finalized_flows.saturating_add(1);
            } else if state.is_active(now_ms) {
                stats.active_flows = stats.active_flows.saturating_add(1);
            }
            let expired = state.finalized && state.realtime.last_report_time < window_cutoff;
            let ghost s1 = state@;
            if !expired {
                let _ = flow_cache.insert(k, state);
            }
            proof {
                let ks1 = keys@.take(i + 1);
                assert(ks1.drop_last() =~= keys@.take(i as int));
                assert(ks1.last() == k);
                assert(s0 == c0[k]);
                assert(s1 == swept_flow(s0, now_ms, second_window_ms));
                if expired {
                    assert(flows_view(flow_cache@) =~= prev.0.remove(k));
                } else {
                    assert(flows_view(flow_cache@) =~= prev.0.insert(k, s1));
                }
                assert forall|j: int| i + 1 <= j < keys@.len() implies flow_cache@.contains_key(
                    #[trigger] keys@[j],
                ) && flow_cache@[keys@[j]]@ == c0[keys@[j]] by {
                    assert(keys@[j] != keys@[i as int]);
                    assert(cache_before.contains_key(keys@[j]));
                }
            }
        }
        i = i + 1;
    }
    proof {
        assert(keys@.take(keys@.len() as int) =~= keys@);
    }
    (stats, batch)
}

/// The cache, interface sums and batch once every state under keys `ks`
/// is finalized, in the order of `ks`.
pub open spec fn all_finalized(
    cache: Map<u64, FlowStateView>,
    rt: Map<u32, IfaceRealtimeAcc>,
    ks: Seq<u64>,
) -> (Map<u64, FlowStateView>, Map<u32, IfaceRealtimeAcc>, BatchView)
    decreases ks.len(),
{
    if ks.len() == 0 {
        (cache, rt, BatchView::empty())
    } else {
        let prev = all_finalized(cache, rt, ks.drop_last());
        let s = cache[ks.last()];
        (
            prev.0.insert(ks.last(), finalized_flow(s, true)),
            finalized_realtime(prev.1, s),
            finalized_batch(prev.2, s, true),
        )
    }
}

/// Finalizes every connection of the cache (at shutdown), in the order the
/// map walks its keys, and hands back what they owe the store.
pub fn finalize_all_flows(
    flow_cache: &mut HashMap<u64, FlowState>,
    iface_realtime: &mut HashMap<u32, IfaceRealtimeAcc>,
) -> (batch: PersistenceBatch)
    ensures
        exists|ks: Seq<u64>|
            #![trigger all_finalized(flows_view(old(flow_cache)@), old(iface_realtime)@, ks)]
            {
                let out = all_finalized(flows_view(old(flow_cache)@), old(iface_realtime)@, ks);
                &&& ks.no_duplicates()
                &&& ks.to_set() == old(flow_cache)@.dom()
                &&& flows_view(final(flow_cache)@) == out.0
                &&& final(iface_realtime)@ == out.1
                &&& batch@ == out.2
            },
{
    let keys = flow_keys(flow_cache);
    let ghost c0 = flows_view(flow_cache@);
    let ghost rt0 = iface_realtime@;
    let mut batch = PersistenceBatch::default();
    let mut i: usize = 0;
    while i < keys.len()
        invariant
            i <= keys@.len(),
            keys@.no_duplicates(),
            keys@.to_set() == c0.dom(),
            ({
                let out = all_finalized(c0, rt0, keys@.take(i as int));
                &&& flows_view(flow_cache@) == out.0
                &&& iface_realtime@ == out.1
                &&& batch@ == out.2
            }),
            forall|j: int|
                i <= j < keys@.len() ==> flow_cache@.contains_key(#[trigger] keys@[j])
                    && flow_cache@[keys@[j]]@ == c0[keys@[j]],
        decreases keys.len() - i,
    {
        let k = keys[i];
        let ghost prev = all_finalized(c0, rt0, keys@.take(i as int));
        let ghost cache_before = flow_cache@;
        proof {
            assert(flow_cache@.contains_key(keys@[i as int]));
        }
        if let Some(mut state) = flow_cache.remove(&k) {
            finalize_state_batch(&mut state, true, &mut batch, iface_realtime);
            let ghost s1 = state@;
            let _ = flow_cache.insert(k, state);
            proof {
                let ks1 = keys@.take(i + 1);
                assert(ks1.drop_last() =~= keys@.take(i as int));
                assert(ks1.last() == k);
                assert(flows_view(flow_cache@) =~= prev.0.insert(k, s1));
                assert forall|j: int| i + 1 <= j < keys@.len() implies flow_cache@.contains_key(
                    #[trigger] keys@[j],
                ) && flow_cache@[keys@[j]]@ == c0[keys@[j]] by {
                    assert(keys@[j] != keys@[i as int]);
                    assert(cache_before.contains_key(keys@[j]));
                }
            }
        }
        i = i + 1;
    }
    proof {
        assert(keys@.take(keys@.len() as int) =~= keys@);
    }
    batch
}

/// A value ordered by a `u64` rank, highest first in the lists handed out.
pub trait RankedByU64: Sized + Copy {
    spec fn rank(&self) -> u64;

    fn rank_of(&self) -> (r: u64)
        ensures
            r == self.rank(),
    ;
}

/// `s` runs from the highest rank to the lowest.
pub open spec fn sorted_desc<T: RankedByU64>(s: Seq<T>) -> bool {
    forall|i: int, j: int| 0 <= i <= j < s.len() ==> #[trigger] s[i].rank() >= #[trigger] s[j].rank()
}

/// Puts `x` after every item of a rank at least its own.
fn insert_desc<T: RankedByU64>(v: &mut Vec<T>, x: T)
    requires
        sorted_desc(old(v)@),
    ensures
        sorted_desc(final(v)@),
        exists|i: int| 0 <= i <= old(v)@.len() && final(v)@ == old(v)@.insert(i, x),
{
    let r = x.rank_of();
    let mut i: usize = 0;
    while i < v.len() && v[i].rank_of() >= r
        invariant
            i <= v@.len(),
            forall|j: int| 0 <= j < i ==> #[trigger] v@[j].rank() >= r,
        decreases v@.len() - i,
    {
        i = i + 1;
    }
    let ghost old_s = v@;
    proof {
        assert forall|j: int| i <= j < old_s.len() implies #[trigger] old_s[j].rank() < r by {
            assert(old_s[i as int].rank() < r);
            assert(old_s[i as int].rank() >= old_s[j].rank());
        }
    }
    v.insert(i, x);
    proof {
        let s2 = v@;
        assert forall|a: int, b: int| 0 <= a <= b < s2.len() implies #[trigger] s2[a].rank()
            >= #[trigger] s2[b].rank() by {
            if a < i && b < i {
                assert(old_s[a].rank() >= old_s[b].rank());
            } else if a < i && b == i {
            } else if a < i && b > i {
                assert(old_s[b - 1].rank() < r);
            } else if a == i && b > i {
                assert(old_s[b - 1].rank() < r);
            } else if a > i {
                assert(old_s[a - 1].rank() >= old_s[b - 1].rank());
            }
        }
    }
}

/// Orders `v` from the highest rank to the lowest; the order among equal
/// ranks is left open.
pub fn sort_by_rank_desc<T: RankedByU64>(v: Vec<T>) -> (r: Vec<T>)
    ensures
        sorted_desc(r@),
        r@.to_multiset() == v@.to_multiset(),
{
    broadcast use vstd::seq_lib::group_to_multiset_ensures;

    let mut rest = v;
    let mut out: Vec<T> = Vec::new();
    let ghost orig = rest@;
    while rest.len() > 0
        invariant
            sorted_desc(out@),
            out@.to_multiset().add(rest@.to_multiset()) == orig.to_multiset(),
        decreases rest@.len(),
    {
        let ghost before_rest = rest@;
        let ghost before_out = out@;
        let x = rest.pop().unwrap();
        proof {
            assert(before_rest == rest@.push(x));
        }
        insert_desc(&mut out, x);
        proof {
            broadcast use vstd::multiset::group_multiset_axioms;

            let i = choose|i: int| 0 <= i <= before_out.len() && out@ == before_out.insert(i, x);
            vstd::seq_lib::to_multiset_insert(before_out, i, x);
            vstd::seq_lib::to_multiset_build(rest@, x);
            assert(out@.to_multiset() == before_out.to_multiset().insert(x));
            assert(before_rest.to_multiset() == rest@.to_multiset().insert(x));
            assert(out@.to_multiset().add(rest@.to_multiset()) =~= before_out.to_multiset().add(
                before_rest.to_multiset(),
            ));
        }
    }
    proof {
        broadcast use vstd::multiset::group_multiset_axioms;

        assert(rest@.to_multiset() =~= vstd::multiset::Multiset::empty());
        assert(out@.to_multiset().add(rest@.to_multiset()) =~= out@.to_multiset());
    }
    out
}

impl RankedByU64 for ConnectRealtimeStatus {
    open spec fn rank(&self) -> u64 {
        self.last_report_time
    }

    fn rank_of(&self) -> (r: u64) {
        self.last_report_time
    }
}

/// The realtime views of the states under `ks` that are active at `now`,
/// in the order of `ks`.
pub open spec fn active_realtimes(cache: Map<u64, FlowStateView>, ks: Seq<u64>, now: u64) -> Seq<
    ConnectRealtimeStatus,
>
    decreases ks.len(),
{
    if ks.len() == 0 {
        Seq::empty()
    } else {
        let rest = active_realtimes(cache, ks.drop_last(), now);
        let s = cache[ks.last()];
        if flow_is_active(s, now) {
            rest.push(s.realtime)
        } else {
            rest
        }
    }
}

/// The realtime views of the connections active at `now_ms`, the most
/// recently heard from first.
pub fn collect_connect_infos(flow_cache: &HashMap<u64, FlowState>, now_ms: u64) -> (r: Vec<
    ConnectRealtimeStatus,
>)
    ensures
        sorted_desc(r@),
        exists|ks: Seq<u64>|
            #![trigger active_realtimes(flows_view(flow_cache@), ks, now_ms)]
            {
                &&& ks.no_duplicates()
                &&& ks.to_set() == flow_cache@.dom()
                &&& r@.to_multiset() == active_realtimes(flows_view(flow_cache@), ks, now_ms).to_multiset()
            },
{
    let keys = flow_keys(flow_cache);
    let ghost c0 = flows_view(flow_cache@);
    let mut infos: Vec<ConnectRealtimeStatus> = Vec::new();
    let mut i: usize = 0;
    while i < keys.len()
        invariant
            i <= keys@.len(),
            keys@.to_set() == flow_cache@.dom(),
            c0 == flows_view(flow_cache@),
            infos@ == active_realtimes(c0, keys@.take(i as int), now_ms),
        decreases keys.len() - i,
    {
        let k = keys[i];
        proof {
            assert(keys@.to_set().contains(keys@[i as int]));
            let ks1 = keys@.take(i + 1);
            assert(ks1.drop_last() =~= keys@.take(i as int));
            assert(ks1.last() == k);
        }
        match flow_cache.get(&k) {
            Some(state) => {
                if state.is_active(now_ms) {
                    infos.push(state.realtime);
                }
            },
            None => {},
        }
        i = i + 1;
    }
    proof {
        assert(keys@.take(keys@.len() as int) =~= keys@);
    }
    sort_by_rank_desc(infos)
}

/// The points of connection `key` from `cutoff` on; none for a connection
/// not in the cache.
pub fn second_points_by_key(flow_cache: &HashMap<u64, FlowState>, key: u64, cutoff: u64) -> (r:
    Vec<ConnectMetricPoint>)
    ensures
        flow_cache@.contains_key(key) ==> r@ == points_since(flow_cache@[key]@.second_ring, cutoff),
        !flow_cache@.contains_key(key) ==> r@ == Seq::<ConnectMetricPoint>::empty(),
{
    match flow_cache.get(&key) {
        Some(state) => state.second_points_since(cutoff),
        None => Vec::new(),
    }
}

/// The realtime sums of one group of connections.
#[derive(Clone, Copy, Debug, PartialEq, Eq, Structural)]
pub struct IpAggregatedStats {
    pub ingress_bps: u64,
    pub egress_bps: u64,
    pub ingress_pps: u64,
    pub egress_pps: u64,
    pub active_conns: u32,
}

/// The realtime sums of the connections on one interface.
#[derive(Clone, Copy, Debug, PartialEq, Eq, Structural)]
pub struct IfaceRealtimeStat {
    pub ifindex: u32,
    pub stats: IpAggregatedStats,
    pub last_report_time: u64,
}

impl RankedByU64 for IfaceRealtimeStat {
    open spec fn rank(&self) -> u64 {
        self.stats.ingress_bps
    }

    fn rank_of(&self) -> (r: u64) {
        self.stats.ingress_bps
    }
}

/// The rates that a connection's realtime view shows.
pub open spec fn shown_rate(r: ConnectRealtimeStatus) -> FlowRateContribution {
    FlowRateContribution {
        ifindex: r.ifindex,
        ingress_bps: r.ingress_bps,
        egress_bps: r.egress_bps,
        ingress_pps: r.ingress_pps,
        egress_pps: r.egress_pps,
    }
}

/// The sums per interface of the states under `ks` that are active at
/// `now`, added in the order of `ks`.
pub open spec fn iface_sums(cache: Map<u64, FlowStateView>, ks: Seq<u64>, now: u64) -> Map<
    u32,
    IfaceRealtimeAcc,
>
    decreases ks.len(),
{
    if ks.len() == 0 {
        Map::empty()
    } else {
        let rest = iface_sums(cache, ks.drop_last(), now);
        let s = cache[ks.last()];
        if flow_is_active(s, now) {
            realtime_added(rest, shown_rate(s.realtime), s.realtime.last_report_time)
        } else {
            rest
        }
    }
}

/// The entry of interface `i` with sums `acc`.
pub open spec fn iface_stat(i: u32, acc: IfaceRealtimeAcc) -> IfaceRealtimeStat {
    IfaceRealtimeStat {
        ifindex: i,
        stats: IpAggregatedStats {
            ingress_bps: acc.ingress_bps,
            egress_bps: acc.egress_bps,
            ingress_pps: acc.ingress_pps,
            egress_pps: acc.egress_pps,
            active_conns: acc.active_conns,
        },
        last_report_time: acc.last_report_time,
    }
}

/// The interfaces of a sums map, each once, in the order the map walks
/// them.
fn iface_keys(m: &HashMap<u32, IfaceRealtimeAcc>) -> (ks: Vec<u32>)
    ensures
        ks@.no_duplicates(),
        ks@.to_set() == m@.dom(),
{
    let mut ks: Vec<u32> = Vec::new();
    let keys = m.keys();
    let ghost r0 = vstd::std_specs::iter::IteratorSpec::remaining(&keys);
    for k in it: keys
        invariant
            it.seq() == r0,
            ks@.len() == it.index(),
            forall|i: int| 0 <= i < it.index() ==> ks@[i] == *(#[trigger] r0[i]),
    {
        ks.push(*k);
    }
    proof {
        assert(ks@ =~= r0.unref());
        assert forall|i: int, j: int| 0 <= i < j < ks@.len() implies ks@[i] != ks@[j] by {
            assert(r0[i] != r0[j]);
        }
    }
    ks
}

/// The realtime sums of each interface over its connections active at
/// `now_ms`, the busiest (by ingress bits per second) first.
pub fn collect_realtime_iface_stats(flow_cache: &HashMap<u64, FlowState>, now_ms: u64) -> (r: Vec<
    IfaceRealtimeStat,
>)
    ensures
        sorted_desc(r@),
        exists|ks: Seq<u64>, ifs: Seq<u32>|
            #![trigger iface_sums(flows_view(flow_cache@), ks, now_ms), ifs.to_set()]
            {
                let sums = iface_sums(flows_view(flow_cache@), ks, now_ms);
                &&& ks.no_duplicates()
                &&& ks.to_set() == flow_cache@.dom()
                &&& ifs.no_duplicates()
                &&& ifs.to_set() == sums.dom()
                &&& r@.to_multiset() == ifs.map_values(|i: u32| iface_stat(i, sums[i])).to_multiset()
            },
{
    let keys = flow_keys(flow_cache);
    let ghost c0 = flows_view(flow_cache@);
    let mut sums: HashMap<u32, IfaceRealtimeAcc> = HashMap::new();
    let mut i: usize = 0;
    while i < keys.len()
        invariant
            i <= keys@.len(),
            keys@.to_set() == flow_cache@.dom(),
            c0 == flows_view(flow_cache@),
            sums@ == iface_sums(c0, keys@.take(i as int), now_ms),
        decreases keys.len() - i,
    {
        let k = keys[i];
        proof {
            assert(keys@.to_set().contains(keys@[i as int]));
            let ks1 = keys@.take(i + 1);
            assert(ks1.drop_last() =~= keys@.take(i as int));
            assert(ks1.last() == k);
        }
        match flow_cache.get(&k) {
            Some(state) => {
                if state.is_active(now_ms) {
                    let rt = state.realtime;
                    add_iface_realtime_contribution(
                        &mut sums,
                        FlowRateContribution {
                            ifindex: rt.ifindex,
                            ingress_bps: rt.ingress_bps,
                            egress_bps: rt.egress_bps,
                            ingress_pps: rt.ingress_pps,
                            egress_pps: rt.egress_pps,
                        },
                        rt.last_report_time,
                    );
                }
            },
            None => {},
        }
        i = i + 1;
    }
    proof {
        assert(keys@.take(keys@.len() as int) =~= keys@);
    }
    let ifs = iface_keys(&sums);
    let mut stats: Vec<IfaceRealtimeStat> = Vec::new();
    let mut j: usize = 0;
    while j < ifs.len()
        invariant
            j <= ifs@.len(),
            ifs@.to_set() == sums@.dom(),
            stats@ == ifs@.take(j as int).map_values(|i: u32| iface_stat(i, sums@[i])),
        decreases ifs.len() - j,
    {
        let ifindex = ifs[j];
        proof {
            assert(ifs@.to_set().contains(ifs@[j as int]));
        }
        match sums.get(&ifindex) {
            Some(acc) => {
                stats.push(
                    IfaceRealtimeStat {
                        ifindex,
                        stats: IpAggregatedStats {
                            ingress_bps: acc.ingress_bps,
                            egress_bps: acc.egress_bps,
                            ingress_pps: acc.ingress_pps,
                            egress_pps: acc.egress_pps,
                            active_conns: acc.active_conns,
                        },
                        last_report_time: acc.last_report_time,
                    },
                );
            },
            None => {},
        }
        proof {
            assert(stats@ =~= ifs@.take(j + 1).map_values(|i: u32| iface_stat(i, sums@[i])));
        }
        j = j + 1;
    }
    proof {
        assert(ifs@.take(ifs@.len() as int) =~= ifs@);
    }
    sort_by_rank_desc(stats)
}

/// State `s` is counted on interface `i`.
pub open spec fn counts_on(s: FlowStateView, i: u32) -> bool {
    s.counted_in_iface_realtime && s.rate.ifindex == i
}

/// The connections of `cache` counted on interface `i`.
pub open spec fn counted_on(cache: Map<u64, FlowStateView>, i: u32) -> Set<u64> {
    cache.dom().filter(|k: u64| counts_on(cache[k], i))
}

/// The active connections that the sums of interface `i` record.
pub open spec fn conns_of(rt: Map<u32, IfaceRealtimeAcc>, i: u32) -> nat {
    if rt.contains_key(i) {
        rt[i].active_conns as nat
    } else {
        0
    }
}

/// The interface sums record, for each interface, exactly the connections
/// counted on it, and hold no interface without one; only live connections
/// are counted.
pub open spec fn counts_agree(cache: Map<u64, FlowStateView>, rt: Map<u32, IfaceRealtimeAcc>) -> bool {
    &&& cache.dom().finite()
    &&& forall|i: u32| #[trigger] counted_on(cache, i).len() == conns_of(rt, i)
    &&& forall|i: u32| #[trigger] rt.contains_key(i) ==> rt[i].active_conns > 0
    &&& forall|k: u64|
        #[trigger] cache.contains_key(k) && cache[k].counted_in_iface_realtime ==> should_count(
            cache[k],
        )
}

proof fn lemma_counted_after_insert(cache: Map<u64, FlowStateView>, k: u64, x: FlowStateView, i: u32)
    requires
        cache.dom().finite(),
    ensures
        counted_on(cache, i).finite(),
        counted_on(cache.insert(k, x), i).len() + (if cache.contains_key(k) && counts_on(cache[k], i) {
            1int
        } else {
            0
        }) == counted_on(cache, i).len() + (if counts_on(x, i) {
            1int
        } else {
            0
        }),
{
    broadcast use vstd::set::group_set_axioms;

    let old_s = counted_on(cache, i);
    let new_s = counted_on(cache.insert(k, x), i);
    vstd::set_lib::lemma_len_subset(old_s, cache.dom());
    let base = old_s.remove(k);
    if counts_on(x, i) {
        assert(new_s =~= base.insert(k));
    } else {
        assert(new_s =~= base);
    }
}

/// Taking a connection off its interface's sums keeps the sums in
/// agreement with the counted connections.
proof fn lemma_remove_keeps_agree(cache: Map<u64, FlowStateView>, rt: Map<u32, IfaceRealtimeAcc>, k: u64)
    requires
        counts_agree(cache, rt),
        cache.contains_key(k),
    ensures
        counts_agree(cache.insert(k, uncounted(cache[k])), flow_removed(rt, cache[k])),
        forall|i: u32| #[trigger] conns_of(flow_removed(rt, cache[k]), i) <= conns_of(rt, i),
{
    broadcast use vstd::set::group_set_axioms;

    let s = cache[k];
    let c2 = cache.insert(k, uncounted(s));
    let rt2 = flow_removed(rt, s);
    assert forall|i: u32| #[trigger] counted_on(c2, i).len() == conns_of(rt2, i) by {
        lemma_counted_after_insert(cache, k, uncounted(s), i);
        assert(counted_on(cache, i).len() == conns_of(rt, i));
        if counts_on(s, i) {
            assert(counted_on(cache, i).contains(k));
            assert(counted_on(cache, i).len() > 0);
            assert(rt.contains_key(i));
        }
    }
    assert forall|i: u32| #[trigger] conns_of(rt2, i) <= conns_of(rt, i) by {}
    assert forall|k2: u64|
        #[trigger] c2.contains_key(k2) && c2[k2].counted_in_iface_realtime implies should_count(
        c2[k2],
    ) by {
        assert(k2 != k);
    }
}

/// Counting a connection that was counted nowhere keeps the sums in
/// agreement with the counted connections, as long as its interface's
/// count has room left.
proof fn lemma_add_keeps_agree(
    cache: Map<u64, FlowStateView>,
    rt: Map<u32, IfaceRealtimeAcc>,
    k: u64,
    x: FlowStateView,
)
    requires
        counts_agree(cache, rt),
        !x.counted_in_iface_realtime,
        cache.contains_key(k) ==> !cache[k].counted_in_iface_realtime,
        should_count(x) ==> conns_of(rt, x.rate.ifindex) < u32::MAX,
    ensures
        counts_agree(cache.insert(k, recounted(x)), flow_added(rt, x)),
{
    broadcast use vstd::set::group_set_axioms;

    let c2 = cache.insert(k, recounted(x));
    let rt2 = flow_added(rt, x);
    assert forall|i: u32| #[trigger] counted_on(c2, i).len() == conns_of(rt2, i) by {
        lemma_counted_after_insert(cache, k, recounted(x), i);
        assert(counted_on(cache, i).len() == conns_of(rt, i));
    }
    assert forall|k2: u64|
        #[trigger] c2.contains_key(k2) && c2[k2].counted_in_iface_realtime implies should_count(
        c2[k2],
    ) by {
        if k2 != k {
            assert(cache.contains_key(k2));
        }
    }
}

/// Taking in a report keeps the interface sums in agreement with the
/// connections counted in the cache: each interface's active count is the
/// number of live connections counted on it, and an interface with none has
/// no entry. (Where an interface's count has reached `u32::MAX` it
/// saturates and the agreement is not kept.)
pub proof fn law_reports_keep_interface_counts(
    cache: Map<u64, FlowStateView>,
    rt: Map<u32, IfaceRealtimeAcc>,
    buckets: Map<u128, IfaceBucketAcc>,
    m: ConnectMetric,
    window: u64,
    cap: usize,
)
    requires
        counts_agree(cache, rt),
        forall|i: u32| #[trigger] rt.contains_key(i) ==> rt[i].active_conns < u32::MAX,
    ensures
        counts_agree(
            taken_in(cache, rt, buckets, m, window, cap).0,
            taken_in(cache, rt, buckets, m, window, cap).1,
        ),
{
    let k = m.key;
    assert forall|i: u32| conns_of(rt, i) < u32::MAX by {
        if rt.contains_key(i) {
            assert(rt[i].active_conns < u32::MAX);
        }
    }
    if cache.contains_key(k) {
        let s = cache[k];
        if m.report_time < s.last_metric.report_time {
        } else {
            let rt1 = flow_removed(rt, s);
            let s1 = uncounted(s);
            let c1 = cache.insert(k, s1);
            lemma_remove_keeps_agree(cache, rt, k);
            let s2 = updated_flow(rollup_slots(s1, m), m, window, cap);
            assert(!s2.counted_in_iface_realtime && !s2.finalized);
            assert(conns_of(rt1, s2.rate.ifindex) < u32::MAX) by {
                assert(conns_of(rt1, s2.rate.ifindex) <= conns_of(rt, s2.rate.ifindex));
            }
            if m.status == ConnectStatusType::Disabled {
                let f = finalized_flow(s2, true);
                lemma_add_keeps_agree(c1, rt1, k, f);
                assert(c1.insert(k, recounted(f)) =~= cache.insert(k, f));
            } else {
                lemma_add_keeps_agree(c1, rt1, k, s2);
                assert(c1.insert(k, recounted(s2)) =~= cache.insert(k, recounted(s2)));
            }
        }
    } else {
        let s = new_flow(m, window, cap);
        if m.status == ConnectStatusType::Disabled {
            lemma_add_keeps_agree(cache, rt, k, finalized_flow(s, true));
        } else {
            lemma_add_keeps_agree(cache, rt, k, s);
        }
    }
}

/// Putting in place of a connection a state counted on the same interfaces
/// keeps the agreement.
proof fn lemma_replace_keeps_agree(
    cache: Map<u64, FlowStateView>,
    rt: Map<u32, IfaceRealtimeAcc>,
    k: u64,
    x: FlowStateView,
)
    requires
        counts_agree(cache, rt),
        cache.contains_key(k),
        x.counted_in_iface_realtime == cache[k].counted_in_iface_realtime,
        x.rate.ifindex == cache[k].rate.ifindex,
        x.counted_in_iface_realtime ==> should_count(x),
    ensures
        counts_agree(cache.insert(k, x), rt),
{
    let c2 = cache.insert(k, x);
    assert forall|i: u32| #[trigger] counted_on(c2, i).len() == conns_of(rt, i) by {
        lemma_counted_after_insert(cache, k, x, i);
        assert(counted_on(cache, i).len() == conns_of(rt, i));
    }
    assert forall|k2: u64|
        #[trigger] c2.contains_key(k2) && c2[k2].counted_in_iface_realtime implies should_count(
        c2[k2],
    ) by {
        if k2 != k {
            assert(cache.contains_key(k2));
        }
    }
}

/// Dropping a connection counted nowhere keeps the agreement.
proof fn lemma_drop_keeps_agree(cache: Map<u64, FlowStateView>, rt: Map<u32, IfaceRealtimeAcc>, k: u64)
    requires
        counts_agree(cache, rt),
        cache.contains_key(k) ==> !cache[k].counted_in_iface_realtime,
    ensures
        counts_agree(cache.remove(k), rt),
{
    broadcast use vstd::set::group_set_axioms;

    let c2 = cache.remove(k);
    assert forall|i: u32| #[trigger] counted_on(c2, i).len() == conns_of(rt, i) by {
        assert(counted_on(c2, i) =~= counted_on(cache, i));
        assert(counted_on(cache, i).len() == conns_of(rt, i));
    }
    assert forall|k2: u64|
        #[trigger] c2.contains_key(k2) && c2[k2].counted_in_iface_realtime implies should_count(
        c2[k2],
    ) by {
        assert(cache.contains_key(k2));
    }
}

/// `a` and `b` agree on every key outside `ks`.
pub open spec fn untouched_outside(a: Map<u64, FlowStateView>, b: Map<u64, FlowStateView>, ks: Seq<u64>) -> bool {
    forall|k: u64|
        !ks.contains(k) ==> (a.contains_key(k) == b.contains_key(k)) && (b.contains_key(k) ==> a[k]
            == b[k])
}

proof fn lemma_no_dup_prefix(ks: Seq<u64>)
    requires
        ks.no_duplicates(),
        ks.len() > 0,
    ensures
        ks.drop_last().no_duplicates(),
        !ks.drop_last().contains(ks.last()),
{
    assert forall|j: int| 0 <= j < ks.drop_last().len() implies ks.drop_last()[j] != ks.last() by {
        assert(ks[j] != ks[ks.len() - 1]);
    }
}

proof fn lemma_sweep_agree(
    cache: Map<u64, FlowStateView>,
    rt: Map<u32, IfaceRealtimeAcc>,
    ks: Seq<u64>,
    now: u64,
    window: u64,
)
    requires
        counts_agree(cache, rt),
        ks.no_duplicates(),
        forall|j: int| 0 <= j < ks.len() ==> cache.contains_key(#[trigger] ks[j]),
    ensures
        counts_agree(swept(cache, rt, ks, now, window).0, swept(cache, rt, ks, now, window).1),
        untouched_outside(swept(cache, rt, ks, now, window).0, cache, ks),
    decreases ks.len(),
{
    if ks.len() > 0 {
        let pre = ks.drop_last();
        let k = ks.last();
        lemma_no_dup_prefix(ks);
        assert forall|j: int| 0 <= j < pre.len() implies cache.contains_key(#[trigger] pre[j]) by {
            assert(pre[j] == ks[j]);
        }
        lemma_sweep_agree(cache, rt, pre, now, window);
        let prev = swept(cache, rt, pre, now, window);
        assert(cache.contains_key(ks[ks.len() - 1]));
        assert(prev.0.contains_key(k) && prev.0[k] == cache[k]);
        let s = cache[k];
        let s1 = swept_flow(s, now, window);
        let out = swept(cache, rt, ks, now, window);
        if goes_stale(s, now) {
            lemma_remove_keeps_agree(prev.0, prev.1, k);
            let c1 = prev.0.insert(k, uncounted(s));
            let rt1 = flow_removed(prev.1, s);
            assert(!s1.counted_in_iface_realtime && s1.finalized);
            if expires(s1, now, window) {
                lemma_drop_keeps_agree(c1, rt1, k);
                assert(c1.remove(k) =~= prev.0.remove(k));
            } else {
                lemma_replace_keeps_agree(c1, rt1, k, s1);
                assert(c1.insert(k, s1) =~= prev.0.insert(k, s1));
            }
        } else {
            if expires(s1, now, window) {
                assert(!s.counted_in_iface_realtime) by {
                    assert(prev.0.contains_key(k) && prev.0[k].counted_in_iface_realtime ==> should_count(
                        prev.0[k],
                    ));
                }
                lemma_drop_keeps_agree(prev.0, prev.1, k);
            } else {
                assert(s.counted_in_iface_realtime ==> should_count(s)) by {
                    assert(prev.0.contains_key(k) && prev.0[k].counted_in_iface_realtime ==> should_count(
                        prev.0[k],
                    ));
                }
                lemma_replace_keeps_agree(prev.0, prev.1, k, s1);
            }
        }
        assert forall|k2: u64| !ks.contains(k2) implies (out.0.contains_key(k2)
            == cache.contains_key(k2)) && (cache.contains_key(k2) ==> out.0[k2] == cache[k2]) by {
            assert(k2 != ks[ks.len() - 1]);
            assert forall|j: int| 0 <= j < pre.len() implies pre[j] != k2 by {
                assert(pre[j] == ks[j]);
            }
            assert(!pre.contains(k2));
        }
        assert(untouched_outside(out.0, cache, ks));
    } else {
        assert(swept(cache, rt, ks, now, window).0 == cache);
    }
}

/// A sweep keeps the interface sums in agreement with the connections
/// counted in the cache: a connection that goes stale leaves its
/// interface's count, and only connections counted nowhere leave the cache.
pub proof fn law_sweeps_keep_interface_counts(
    cache: Map<u64, FlowStateView>,
    rt: Map<u32, IfaceRealtimeAcc>,
    ks: Seq<u64>,
    now: u64,
    window: u64,
)
    requires
        counts_agree(cache, rt),
        ks.no_duplicates(),
        ks.to_set() == cache.dom(),
    ensures
        counts_agree(swept(cache, rt, ks, now, window).0, swept(cache, rt, ks, now, window).1),
{
    assert forall|j: int| 0 <= j < ks.len() implies cache.contains_key(#[trigger] ks[j]) by {
        assert(ks.to_set().contains(ks[j]));
    }
    lemma_sweep_agree(cache, rt, ks, now, window);
}

proof fn lemma_all_finalized_agree(cache: Map<u64, FlowStateView>, rt: Map<u32, IfaceRealtimeAcc>, ks: Seq<u64>)
    requires
        counts_agree(cache, rt),
        ks.no_duplicates(),
        forall|j: int| 0 <= j < ks.len() ==> cache.contains_key(#[trigger] ks[j]),
    ensures
        counts_agree(all_finalized(cache, rt, ks).0, all_finalized(cache, rt, ks).1),
        untouched_outside(all_finalized(cache, rt, ks).0, cache, ks),
        all_finalized(cache, rt, ks).0.dom() == cache.dom(),
        forall|j: int|
            0 <= j < ks.len() ==> !all_finalized(cache, rt, ks).0[#[trigger] ks[j]].counted_in_iface_realtime,
    decreases ks.len(),
{
    if ks.len() > 0 {
        let pre = ks.drop_last();
        let k = ks.last();
        lemma_no_dup_prefix(ks);
        assert forall|j: int| 0 <= j < pre.len() implies cache.contains_key(#[trigger] pre[j]) by {
            assert(pre[j] == ks[j]);
        }
        lemma_all_finalized_agree(cache, rt, pre);
        let prev = all_finalized(cache, rt, pre);
        let out = all_finalized(cache, rt, ks);
        assert(cache.contains_key(ks[ks.len() - 1]));
        assert(prev.0.contains_key(k) && prev.0[k] == cache[k]);
        let s = cache[k];
        assert(s.counted_in_iface_realtime ==> should_count(s)) by {
            assert(prev.0.contains_key(k) && prev.0[k].counted_in_iface_realtime ==> should_count(
                prev.0[k],
            ));
        }
        if s.finalized {
            lemma_replace_keeps_agree(prev.0, prev.1, k, s);
        } else {
            lemma_remove_keeps_agree(prev.0, prev.1, k);
            let c1 = prev.0.insert(k, uncounted(s));
            let rt1 = flow_removed(prev.1, s);
            lemma_replace_keeps_agree(c1, rt1, k, finalized_flow(s, true));
            assert(c1.insert(k, finalized_flow(s, true)) =~= prev.0.insert(k, finalized_flow(s, true)));
        }
        assert forall|k2: u64| !ks.contains(k2) implies (out.0.contains_key(k2)
            == cache.contains_key(k2)) && (cache.contains_key(k2) ==> out.0[k2] == cache[k2]) by {
            assert(k2 != ks[ks.len() - 1]);
            assert forall|j: int| 0 <= j < pre.len() implies pre[j] != k2 by {
                assert(pre[j] == ks[j]);
            }
            assert(!pre.contains(k2));
        }
        assert(untouched_outside(out.0, cache, ks));
        assert(out.0.dom() =~= cache.dom());
        assert forall|j: int| 0 <= j < ks.len() implies !out.0[#[trigger] ks[j]].counted_in_iface_realtime by {
            if j < ks.len() - 1 {
                assert(pre[j] == ks[j]);
                assert(ks[j] != ks[ks.len() - 1]);
            }
        }
    }
}

/// Finalizing every connection (at shutdown) empties the interface sums:
/// every connection leaves its interface's count, and an interface with no
/// connection left has no entry.
pub proof fn law_shutdown_empties_interface_sums(
    cache: Map<u64, FlowStateView>,
    rt: Map<u32, IfaceRealtimeAcc>,
    ks: Seq<u64>,
)
    requires
        counts_agree(cache, rt),
        ks.no_duplicates(),
        ks.to_set() == cache.dom(),
    ensures
        all_finalized(cache, rt, ks).1 == Map::<u32, IfaceRealtimeAcc>::empty(),
{
    broadcast use vstd::set::group_set_axioms;

    assert forall|j: int| 0 <= j < ks.len() implies cache.contains_key(#[trigger] ks[j]) by {
        assert(ks.to_set().contains(ks[j]));
    }
    lemma_all_finalized_agree(cache, rt, ks);
    let out = all_finalized(cache, rt, ks);
    assert forall|i: u32| !out.1.contains_key(i) by {
        assert(counted_on(out.0, i) =~= Set::<u64>::empty()) by {
            assert forall|k: u64| !counted_on(out.0, i).contains(k) by {
                if out.0.contains_key(k) {
                    assert(ks.to_set().contains(k));
                    let j = choose|j: int| 0 <= j < ks.len() && ks[j] == k;
                    assert(!out.0[ks[j]].counted_in_iface_realtime);
                }
            }
        }
        assert(counted_on(out.0, i).len() == conns_of(out.1, i));
        if out.1.contains_key(i) {
            assert(out.1[i].active_conns > 0);
        }
    }
    assert(out.1 =~= Map::<u32, IfaceRealtimeAcc>::empty());
}

/// A report older than its connection's last one changes nothing and owes
/// nothing.
pub proof fn law_late_report_changes_nothing(
    cache: Map<u64, FlowStateView>,
    rt: Map<u32, IfaceRealtimeAcc>,
    buckets: Map<u128, IfaceBucketAcc>,
    m: ConnectMetric,
    window: u64,
    cap: usize,
)
    requires
        cache.contains_key(m.key),
        m.report_time < cache[m.key].last_metric.report_time,
    ensures
        taken_in(cache, rt, buckets, m, window, cap) == (cache, rt, buckets, BatchView::empty()),
{
}

/// The points of `ring` run in report order.
pub open spec fn ring_in_order(ring: Seq<ConnectMetricPoint>) -> bool {
    forall|i: int, j: int|
        0 <= i <= j < ring.len() ==> #[trigger] ring[i].report_time <= #[trigger] ring[j].report_time
}

proof fn lemma_trimmed_before_suffix(ring: Seq<ConnectMetricPoint>, cutoff: u64)
    ensures
        exists|n: int|
            0 <= n <= ring.len() && trimmed_before(ring, cutoff) == ring.subrange(n, ring.len() as int)
                && (forall|j: int| 0 <= j < n ==> #[trigger] ring[j].report_time < cutoff) && (n
                < ring.len() ==> ring[n].report_time >= cutoff),
    decreases ring.len(),
{
    if ring.len() > 0 && ring[0].report_time < cutoff {
        let rest = ring.drop_first();
        lemma_trimmed_before_suffix(rest, cutoff);
        let n1 = choose|n: int|
            0 <= n <= rest.len() && trimmed_before(rest, cutoff) == rest.subrange(n, rest.len() as int)
                && (forall|j: int| 0 <= j < n ==> #[trigger] rest[j].report_time < cutoff) && (n
                < rest.len() ==> rest[n].report_time >= cutoff);
        assert(rest.subrange(n1, rest.len() as int) =~= ring.subrange(n1 + 1, ring.len() as int));
        assert forall|j: int| 0 <= j < n1 + 1 implies #[trigger] ring[j].report_time < cutoff by {
            if j > 0 {
                assert(ring[j] == rest[j - 1]);
            }
        }
        assert(n1 + 1 < ring.len() ==> ring[n1 + 1] == rest[n1]);
    } else {
        assert(ring.subrange(0, ring.len() as int) =~= ring);
    }
}

proof fn lemma_trimmed_ring_window(r0: Seq<ConnectMetricPoint>, last: u64, window: u64, cap: usize)
    requires
        ring_in_order(r0),
        r0.len() > 0,
        r0.last().report_time == last,
        forall|i: int| 0 <= i < r0.len() ==> #[trigger] r0[i].report_time <= last,
    ensures
        ({
            let r = trimmed_ring(r0, last, window, cap);
            &&& ring_in_order(r)
            &&& 0 < r.len() <= ring_limit(cap)
            &&& r.last() == r0.last()
            &&& forall|i: int|
                0 <= i < r.len() ==> sat_sub(last, window) <= #[trigger] r[i].report_time <= last
        }),
{
    let cutoff = sat_sub(last, window);
    let len = r0.len() as int;
    lemma_trimmed_before_suffix(r0, cutoff);
    let n = choose|n: int|
        0 <= n <= r0.len() && trimmed_before(r0, cutoff) == r0.subrange(n, r0.len() as int) && (forall|
            j: int,
        | 0 <= j < n ==> #[trigger] r0[j].report_time < cutoff) && (n < r0.len() ==> r0[n].report_time
            >= cutoff);
    assert(n < len) by {
        if n == len {
            assert(r0[len - 1].report_time < cutoff);
        }
    }
    let t = r0.subrange(n, len);
    let lim = ring_limit(cap);
    let start = if t.len() > lim {
        n + t.len() - lim
    } else {
        n
    };
    let r = trimmed_ring(r0, last, window, cap);
    assert(r =~= r0.subrange(start, len));
    assert forall|i: int| 0 <= i < r.len() implies cutoff <= #[trigger] r[i].report_time
        <= last by {
        assert(r[i] == r0[start + i]);
        assert(r0[n].report_time <= r0[start + i].report_time);
    }
    assert forall|i: int, j: int| 0 <= i <= j < r.len() implies #[trigger] r[i].report_time
        <= #[trigger] r[j].report_time by {
        assert(r[i] == r0[start + i] && r[j] == r0[start + j]);
    }
}

/// Taking in a report keeps the per-second ring in report order, at most
/// its capacity long (at least one point), within the window before the
/// report, and ending with the report's own point.
pub proof fn law_ring_keeps_window(s: FlowStateView, m: ConnectMetric, window: u64, cap: usize)
    requires
        ring_in_order(s.second_ring),
        forall|i: int|
            0 <= i < s.second_ring.len() ==> #[trigger] s.second_ring[i].report_time <= m.report_time,
    ensures
        ({
            let r = updated_flow(s, m, window, cap).second_ring;
            &&& ring_in_order(r)
            &&& 0 < r.len() <= ring_limit(cap)
            &&& r.last() == point_of(m)
            &&& forall|i: int|
                0 <= i < r.len() ==> sat_sub(m.report_time, window) <= #[trigger] r[i].report_time
                    <= m.report_time
        }),
{
    let r0 = s.second_ring.push(point_of(m));
    let len = r0.len() as int;
    assert(ring_in_order(r0)) by {
        assert forall|i: int, j: int| 0 <= i <= j < r0.len() implies #[trigger] r0[i].report_time
            <= #[trigger] r0[j].report_time by {
            if j < len - 1 {
                assert(r0[i] == s.second_ring[i] && r0[j] == s.second_ring[j]);
            } else if i < len - 1 {
                assert(r0[i] == s.second_ring[i]);
            }
        }
    }
    assert forall|i: int| 0 <= i < len implies #[trigger] r0[i].report_time <= m.report_time by {
        if i < len - 1 {
            assert(r0[i] == s.second_ring[i]);
        }
    }
    assert(updated_flow(s, m, window, cap).second_ring == trimmed_ring(r0, m.report_time, window, cap));
    lemma_trimmed_ring_window(r0, m.report_time, window, cap);
}

} // verus!
