//! Connection-metric accounting: time buckets, counter deltas, per-flow
//! rates, per-interface realtime sums and the splitting of a counter delta
//! over the five-second interface buckets it spans.
use std::collections::{BTreeMap, HashMap};
use vstd::prelude::*;

verus! {

broadcast use vstd::std_specs::hash::group_hash_axioms;

pub const MS_PER_MINUTE: u64 = 60 * 1000;

pub const MS_PER_HOUR: u64 = 60 * MS_PER_MINUTE;

pub const MS_PER_DAY: u64 = 24 * MS_PER_HOUR;

pub const IFACE_BUCKET_MS: u64 = 5 * 1000;

pub const MS_PER_TEN_MINUTES: u64 = 10 * MS_PER_MINUTE;

pub const STALE_TIMEOUT_MS: u64 = 5 * MS_PER_MINUTE;

pub const DEFAULT_CONNECT_SAMPLE_INTERVAL_MS: u64 = 5 * 1000;

/// The start of the bucket of width `bucket_ms` that holds `report_time`.
pub open spec fn spec_bucket_start(report_time: u64, bucket_ms: u64) -> u64 {
    (report_time / bucket_ms * bucket_ms) as u64
}

pub proof fn lemma_bucket_start(report_time: u64, bucket_ms: u64)
    requires
        bucket_ms > 0,
    ensures
        report_time / bucket_ms * bucket_ms <= report_time,
        report_time < report_time / bucket_ms * bucket_ms + bucket_ms,
{
    vstd::arithmetic::div_mod::lemma_fundamental_div_mod(report_time as int, bucket_ms as int);
    vstd::arithmetic::div_mod::lemma_mod_pos_bound(report_time as int, bucket_ms as int);
    vstd::arithmetic::mul::lemma_mul_is_commutative(
        (report_time / bucket_ms) as int,
        bucket_ms as int,
    );
}

/// The start of the bucket of width `bucket_ms` that holds `report_time`.
pub fn bucket_start(report_time: u64, bucket_ms: u64) -> (r: u64)
    requires
        bucket_ms > 0,
    ensures
        r == spec_bucket_start(report_time, bucket_ms),
        r <= report_time < r + bucket_ms,
{
    proof {
        lemma_bucket_start(report_time, bucket_ms);
    }
    report_time / bucket_ms * bucket_ms
}

/// The minute that holds `report_time`.
pub fn minute_slot(report_time: u64) -> (r: u64)
    ensures
        r == spec_bucket_start(report_time, MS_PER_MINUTE),
{
    bucket_start(report_time, MS_PER_MINUTE)
}

/// The ten minutes after which the hourly bucket is refreshed.
pub fn hour_refresh_slot(report_time: u64) -> (r: u64)
    ensures
        r == spec_bucket_start(report_time, MS_PER_TEN_MINUTES),
{
    bucket_start(report_time, MS_PER_TEN_MINUTES)
}

/// The hour after which the daily bucket is refreshed.
pub fn day_refresh_slot(report_time: u64) -> (r: u64)
    ensures
        r == spec_bucket_start(report_time, MS_PER_HOUR),
{
    bucket_start(report_time, MS_PER_HOUR)
}

/// The width of the per-second window, from its length in minutes (at least
/// one), saturating.
pub fn second_window_ms(connect_second_window_minutes: u64) -> (r: u64)
    ensures
        r == second_window_ms_spec(connect_second_window_minutes),
{
    let minutes = if connect_second_window_minutes < 1 {
        1
    } else {
        connect_second_window_minutes
    };
    match minutes.checked_mul(MS_PER_MINUTE) {
        Some(v) => v,
        None => u64::MAX,
    }
}

/// How many per-second points the window keeps: one per sample interval,
/// plus eight, kept between 32 and 4096.
pub fn second_ring_capacity(connect_second_window_minutes: u64) -> (r: usize)
    ensures
        ({
            let target = second_window_ms_spec(connect_second_window_minutes) / (
            DEFAULT_CONNECT_SAMPLE_INTERVAL_MS as int) + 8;
            r == if target < 32 {
                32
            } else if target > 4096 {
                4096
            } else {
                target
            }
        }),
{
    let target_points = second_window_ms(connect_second_window_minutes)
        / DEFAULT_CONNECT_SAMPLE_INTERVAL_MS;
    let padded = target_points + 8;
    let clamped = if padded < 32 {
        32
    } else if padded > 4096 {
        4096
    } else {
        padded
    };
    clamped as usize
}

/// The width of the per-second window in milliseconds.
pub open spec fn second_window_ms_spec(minutes: u64) -> int {
    let m = if minutes == 0 {
        1
    } else {
        minutes
    };
    if m * MS_PER_MINUTE > u64::MAX {
        u64::MAX as int
    } else {
        m * MS_PER_MINUTE
    }
}

/// The rollup tables of the connection metrics.
#[derive(Clone, Copy, Debug, PartialEq, Eq, Structural)]
pub enum BucketKind {
    Minute,
    Hour,
    Day,
}

impl BucketKind {
    /// The table that holds buckets of this kind.
    pub fn table_name(self) -> (r: &'static str)
        ensures
            r@ == match self {
                BucketKind::Minute => "conn_metrics_1m"@,
                BucketKind::Hour => "conn_metrics_1h"@,
                BucketKind::Day => "conn_metrics_1d"@,
            },
    {
        match self {
            BucketKind::Minute => "conn_metrics_1m",
            BucketKind::Hour => "conn_metrics_1h",
            BucketKind::Day => "conn_metrics_1d",
        }
    }
}

/// Whether a connection is known to be open or closed.
#[derive(Clone, Copy, Debug, PartialEq, Eq, Structural)]
pub enum ConnectStatusType {
    Unknow,
    Active,
    Disabled,
}

/// The cumulative counters of one connection at one report. `key` is the
/// number by which the connection is found again in the flow cache.
#[derive(Clone, Copy, Debug, PartialEq, Eq, Structural)]
pub struct ConnectMetric {
    pub key: u64,
    pub ifindex: u32,
    pub create_time_ms: u64,
    pub report_time: u64,
    pub ingress_bytes: u64,
    pub ingress_packets: u64,
    pub egress_bytes: u64,
    pub egress_packets: u64,
    pub status: ConnectStatusType,
}

/// A change of the four counters of a connection.
#[derive(Clone, Copy, Debug, PartialEq, Eq, Structural)]
pub struct MetricDelta {
    pub ingress_bytes: u64,
    pub ingress_packets: u64,
    pub egress_bytes: u64,
    pub egress_packets: u64,
}

pub open spec fn sat_sub(a: u64, b: u64) -> u64 {
    if a >= b {
        (a - b) as u64
    } else {
        0
    }
}

pub open spec fn sat_add(a: u64, b: u64) -> u64 {
    if a + b > u64::MAX {
        u64::MAX
    } else {
        (a + b) as u64
    }
}

pub open spec fn sat_mul(a: u64, b: u64) -> u64 {
    if a * b > u64::MAX {
        u64::MAX
    } else {
        (a * b) as u64
    }
}

fn saturating_mul_u64(a: u64, b: u64) -> (r: u64)
    ensures
        r == sat_mul(a, b),
{
    match a.checked_mul(b) {
        Some(v) => v,
        None => u64::MAX,
    }
}

/// `value * numerator / denominator`, computed in 128 bits and truncated
/// to 64.
pub open spec fn spec_scale_u64(value: u64, numerator: u64, denominator: u64) -> u64 {
    ((value * numerator) / (denominator as int)) as u64
}

/// `value * numerator / denominator`, computed in 128 bits and truncated
/// to 64.
pub fn scale_u64(value: u64, numerator: u64, denominator: u64) -> (r: u64)
    requires
        denominator > 0,
    ensures
        r == spec_scale_u64(value, numerator, denominator),
{
    proof {
        vstd::arithmetic::mul::lemma_mul_upper_bound(
            value as int,
            u64::MAX as int,
            numerator as int,
            u64::MAX as int,
        );
    }
    let product: u128 = (value as u128) * (numerator as u128);
    #[verifier::truncate]
    ((product / (denominator as u128)) as u64)
}

impl MetricDelta {
    pub open spec fn zero() -> MetricDelta {
        MetricDelta { ingress_bytes: 0, ingress_packets: 0, egress_bytes: 0, egress_packets: 0 }
    }

    /// The counters gained from `previous` to `current`, none below zero.
    pub fn from_metrics(previous: &ConnectMetric, current: &ConnectMetric) -> (r: MetricDelta)
        ensures
            r == (MetricDelta {
                ingress_bytes: sat_sub(current.ingress_bytes, previous.ingress_bytes),
                ingress_packets: sat_sub(current.ingress_packets, previous.ingress_packets),
                egress_bytes: sat_sub(current.egress_bytes, previous.egress_bytes),
                egress_packets: sat_sub(current.egress_packets, previous.egress_packets),
            }),
    {
        MetricDelta {
            ingress_bytes: current.ingress_bytes.saturating_sub(previous.ingress_bytes),
            ingress_packets: current.ingress_packets.saturating_sub(previous.ingress_packets),
            egress_bytes: current.egress_bytes.saturating_sub(previous.egress_bytes),
            egress_packets: current.egress_packets.saturating_sub(previous.egress_packets),
        }
    }

    /// The counters of a first report, all gained since the connection began.
    pub fn from_initial(metric: &ConnectMetric) -> (r: MetricDelta)
        ensures
            r == (MetricDelta {
                ingress_bytes: metric.ingress_bytes,
                ingress_packets: metric.ingress_packets,
                egress_bytes: metric.egress_bytes,
                egress_packets: metric.egress_packets,
            }),
    {
        MetricDelta {
            ingress_bytes: metric.ingress_bytes,
            ingress_packets: metric.ingress_packets,
            egress_bytes: metric.egress_bytes,
            egress_packets: metric.egress_packets,
        }
    }

    /// No counter changed.
    pub fn is_zero(self) -> (r: bool)
        ensures
            r == (self == MetricDelta::zero()),
    {
        self.ingress_bytes == 0 && self.ingress_packets == 0 && self.egress_bytes == 0
            && self.egress_packets == 0
    }

    /// The share `numerator / denominator` of each counter, rounded down;
    /// nothing where the denominator is zero.
    pub fn scale(self, numerator: u64, denominator: u64) -> (r: MetricDelta)
        ensures
            denominator == 0 ==> r == MetricDelta::zero(),
            denominator > 0 ==> r == (MetricDelta {
                ingress_bytes: spec_scale_u64(self.ingress_bytes, numerator, denominator),
                ingress_packets: spec_scale_u64(self.ingress_packets, numerator, denominator),
                egress_bytes: spec_scale_u64(self.egress_bytes, numerator, denominator),
                egress_packets: spec_scale_u64(self.egress_packets, numerator, denominator),
            }),
    {
        if denominator == 0 {
            return MetricDelta {
                ingress_bytes: 0,
                ingress_packets: 0,
                egress_bytes: 0,
                egress_packets: 0,
            };
        }
        MetricDelta {
            ingress_bytes: scale_u64(self.ingress_bytes, numerator, denominator),
            ingress_packets: scale_u64(self.ingress_packets, numerator, denominator),
            egress_bytes: scale_u64(self.egress_bytes, numerator, denominator),
            egress_packets: scale_u64(self.egress_packets, numerator, denominator),
        }
    }

    pub open spec fn spec_sub(self, other: MetricDelta) -> MetricDelta {
        MetricDelta {
            ingress_bytes: sat_sub(self.ingress_bytes, other.ingress_bytes),
            ingress_packets: sat_sub(self.ingress_packets, other.ingress_packets),
            egress_bytes: sat_sub(self.egress_bytes, other.egress_bytes),
            egress_packets: sat_sub(self.egress_packets, other.egress_packets),
        }
    }

    pub open spec fn spec_add(self, other: MetricDelta) -> MetricDelta {
        MetricDelta {
            ingress_bytes: sat_add(self.ingress_bytes, other.ingress_bytes),
            ingress_packets: sat_add(self.ingress_packets, other.ingress_packets),
            egress_bytes: sat_add(self.egress_bytes, other.egress_bytes),
            egress_packets: sat_add(self.egress_packets, other.egress_packets),
        }
    }

    /// Counter by counter, `self - other`, none below zero.
    pub fn saturating_sub(self, other: MetricDelta) -> (r: MetricDelta)
        ensures
            r == self.spec_sub(other),
    {
        MetricDelta {
            ingress_bytes: self.ingress_bytes.saturating_sub(other.ingress_bytes),
            ingress_packets: self.ingress_packets.saturating_sub(other.ingress_packets),
            egress_bytes: self.egress_bytes.saturating_sub(other.egress_bytes),
            egress_packets: self.egress_packets.saturating_sub(other.egress_packets),
        }
    }

    /// Counter by counter, `self + other`, none above `u64::MAX`.
    pub fn saturating_add(self, other: MetricDelta) -> (r: MetricDelta)
        ensures
            r == self.spec_add(other),
    {
        MetricDelta {
            ingress_bytes: self.ingress_bytes.saturating_add(other.ingress_bytes),
            ingress_packets: self.ingress_packets.saturating_add(other.ingress_packets),
            egress_bytes: self.egress_bytes.saturating_add(other.egress_bytes),
            egress_packets: self.egress_packets.saturating_add(other.egress_packets),
        }
    }
}

/// The rates that one flow adds to its interface.
#[derive(Clone, Copy, Debug, PartialEq, Eq, Structural)]
pub struct FlowRateContribution {
    pub ifindex: u32,
    pub ingress_bps: u64,
    pub egress_bps: u64,
    pub ingress_pps: u64,
    pub egress_pps: u64,
}

/// Bits and packets per second of `delta` over `dt` milliseconds.
pub open spec fn spec_rate(ifindex: u32, delta: MetricDelta, dt: u64) -> FlowRateContribution {
    if dt == 0 {
        FlowRateContribution { ifindex, ingress_bps: 0, egress_bps: 0, ingress_pps: 0, egress_pps: 0 }
    } else {
        FlowRateContribution {
            ifindex,
            ingress_bps: sat_mul(delta.ingress_bytes, 8000) / dt,
            egress_bps: sat_mul(delta.egress_bytes, 8000) / dt,
            ingress_pps: sat_mul(delta.ingress_packets, 1000) / dt,
            egress_pps: sat_mul(delta.egress_packets, 1000) / dt,
        }
    }
}

/// The rates of a connection at its first report.
pub open spec fn spec_initial_rate(metric: ConnectMetric) -> FlowRateContribution {
    let start = if metric.create_time_ms <= metric.report_time {
        metric.create_time_ms
    } else {
        metric.report_time
    };
    spec_rate(
        metric.ifindex,
        MetricDelta {
            ingress_bytes: metric.ingress_bytes,
            ingress_packets: metric.ingress_packets,
            egress_bytes: metric.egress_bytes,
            egress_packets: metric.egress_packets,
        },
        (metric.report_time - start) as u64,
    )
}

/// Bits and packets per second over `delta_t_ms` milliseconds; nothing over
/// an empty interval.
pub fn rate_from_delta(ifindex: u32, delta: MetricDelta, delta_t_ms: u64) -> (r: FlowRateContribution)
    ensures
        r == spec_rate(ifindex, delta, delta_t_ms),
        r.ifindex == ifindex,
        delta_t_ms == 0 ==> r.ingress_bps == 0 && r.egress_bps == 0 && r.ingress_pps == 0
            && r.egress_pps == 0,
        delta_t_ms > 0 ==> {
            &&& r.ingress_bps == sat_mul(delta.ingress_bytes, 8000) / delta_t_ms
            &&& r.egress_bps == sat_mul(delta.egress_bytes, 8000) / delta_t_ms
            &&& r.ingress_pps == sat_mul(delta.ingress_packets, 1000) / delta_t_ms
            &&& r.egress_pps == sat_mul(delta.egress_packets, 1000) / delta_t_ms
        },
{
    if delta_t_ms == 0 {
        return FlowRateContribution {
            ifindex,
            ingress_bps: 0,
            egress_bps: 0,
            ingress_pps: 0,
            egress_pps: 0,
        };
    }
    FlowRateContribution {
        ifindex,
        ingress_bps: saturating_mul_u64(delta.ingress_bytes, 8000) / delta_t_ms,
        egress_bps: saturating_mul_u64(delta.egress_bytes, 8000) / delta_t_ms,
        ingress_pps: saturating_mul_u64(delta.ingress_packets, 1000) / delta_t_ms,
        egress_pps: saturating_mul_u64(delta.egress_packets, 1000) / delta_t_ms,
    }
}

/// The rates of a connection at its first report: its counters over the
/// time since it was created.
pub fn initial_rate_contribution(metric: &ConnectMetric) -> (r: FlowRateContribution)
    ensures
        r == spec_initial_rate(*metric),
        ({
            let start = if metric.create_time_ms <= metric.report_time {
                metric.create_time_ms
            } else {
                metric.report_time
            };
            let dt = (metric.report_time - start) as u64;
            let d = MetricDelta {
                ingress_bytes: metric.ingress_bytes,
                ingress_packets: metric.ingress_packets,
                egress_bytes: metric.egress_bytes,
                egress_packets: metric.egress_packets,
            };
            &&& r.ifindex == metric.ifindex
            &&& dt == 0 ==> r.ingress_bps == 0 && r.egress_bps == 0 && r.ingress_pps == 0
                && r.egress_pps == 0
            &&& dt > 0 ==> r.ingress_bps == sat_mul(d.ingress_bytes, 8000) / dt && r.egress_bps
                == sat_mul(d.egress_bytes, 8000) / dt && r.ingress_pps == sat_mul(
                d.ingress_packets,
                1000,
            ) / dt && r.egress_pps == sat_mul(d.egress_packets, 1000) / dt
        }),
{
    let start_time = if metric.create_time_ms <= metric.report_time {
        metric.create_time_ms
    } else {
        metric.report_time
    };
    let delta_t = metric.report_time - start_time;
    rate_from_delta(metric.ifindex, MetricDelta::from_initial(metric), delta_t)
}

/// The realtime sums of one interface over its counted flows.
#[derive(Clone, Copy, Debug, PartialEq, Eq, Structural)]
pub struct IfaceRealtimeAcc {
    pub ingress_bps: u64,
    pub egress_bps: u64,
    pub ingress_pps: u64,
    pub egress_pps: u64,
    pub active_conns: u32,
    pub last_report_time: u64,
}

impl IfaceRealtimeAcc {
    pub open spec fn zero() -> IfaceRealtimeAcc {
        IfaceRealtimeAcc {
            ingress_bps: 0,
            egress_bps: 0,
            ingress_pps: 0,
            egress_pps: 0,
            active_conns: 0,
            last_report_time: 0,
        }
    }

    /// A flow starts counting: its rates are added, saturating, and it is
    /// one more active connection.
    pub fn add_contribution(&mut self, contribution: FlowRateContribution, report_time: u64)
        ensures
            final(self).ingress_bps == sat_add(old(self).ingress_bps, contribution.ingress_bps),
            final(self).egress_bps == sat_add(old(self).egress_bps, contribution.egress_bps),
            final(self).ingress_pps == sat_add(old(self).ingress_pps, contribution.ingress_pps),
            final(self).egress_pps == sat_add(old(self).egress_pps, contribution.egress_pps),
            final(self).active_conns == if old(self).active_conns == u32::MAX {
                u32::MAX
            } else {
                (old(self).active_conns + 1) as u32
            },
            final(self).last_report_time == if old(self).last_report_time >= report_time {
                old(self).last_report_time
            } else {
                report_time
            },
    {
        self.ingress_bps = self.ingress_bps.saturating_add(contribution.ingress_bps);
        self.egress_bps = self.egress_bps.saturating_add(contribution.egress_bps);
        self.ingress_pps = self.ingress_pps.saturating_add(contribution.ingress_pps);
        self.egress_pps = self.egress_pps.saturating_add(contribution.egress_pps);
        self.active_conns = self.active_conns.saturating_add(1);
        if self.last_report_time < report_time {
            self.last_report_time = report_time;
        }
    }

    /// A flow stops counting: its rates are taken off, none below zero, and
    /// it is one active connection less.
    pub fn remove_contribution(&mut self, contribution: FlowRateContribution)
        ensures
            final(self).ingress_bps == sat_sub(old(self).ingress_bps, contribution.ingress_bps),
            final(self).egress_bps == sat_sub(old(self).egress_bps, contribution.egress_bps),
            final(self).ingress_pps == sat_sub(old(self).ingress_pps, contribution.ingress_pps),
            final(self).egress_pps == sat_sub(old(self).egress_pps, contribution.egress_pps),
            final(self).active_conns == if old(self).active_conns == 0 {
                0
            } else {
                (old(self).active_conns - 1) as u32
            },
            final(self).last_report_time == old(self).last_report_time,
    {
        self.ingress_bps = self.ingress_bps.saturating_sub(contribution.ingress_bps);
        self.egress_bps = self.egress_bps.saturating_sub(contribution.egress_bps);
        self.ingress_pps = self.ingress_pps.saturating_sub(contribution.ingress_pps);
        self.egress_pps = self.egress_pps.saturating_sub(contribution.egress_pps);
        self.active_conns = self.active_conns.saturating_sub(1);
    }
}

impl IfaceRealtimeAcc {
    /// The sums once `c`, reported at `t`, is added.
    pub open spec fn with_added(self, c: FlowRateContribution, t: u64) -> IfaceRealtimeAcc {
        IfaceRealtimeAcc {
            ingress_bps: sat_add(self.ingress_bps, c.ingress_bps),
            egress_bps: sat_add(self.egress_bps, c.egress_bps),
            ingress_pps: sat_add(self.ingress_pps, c.ingress_pps),
            egress_pps: sat_add(self.egress_pps, c.egress_pps),
            active_conns: if self.active_conns == u32::MAX {
                u32::MAX
            } else {
                (self.active_conns + 1) as u32
            },
            last_report_time: if self.last_report_time >= t {
                self.last_report_time
            } else {
                t
            },
        }
    }

    /// The sums once `c` is taken off.
    pub open spec fn with_removed(self, c: FlowRateContribution) -> IfaceRealtimeAcc {
        IfaceRealtimeAcc {
            ingress_bps: sat_sub(self.ingress_bps, c.ingress_bps),
            egress_bps: sat_sub(self.egress_bps, c.egress_bps),
            ingress_pps: sat_sub(self.ingress_pps, c.ingress_pps),
            egress_pps: sat_sub(self.egress_pps, c.egress_pps),
            active_conns: if self.active_conns == 0 {
                0
            } else {
                (self.active_conns - 1) as u32
            },
            last_report_time: self.last_report_time,
        }
    }
}

/// The interface sums once flow rates `c`, reported at `t`, are added.
pub open spec fn realtime_added(
    rt: Map<u32, IfaceRealtimeAcc>,
    c: FlowRateContribution,
    t: u64,
) -> Map<u32, IfaceRealtimeAcc> {
    let before = if rt.contains_key(c.ifindex) {
        rt[c.ifindex]
    } else {
        IfaceRealtimeAcc::zero()
    };
    rt.insert(c.ifindex, before.with_added(c, t))
}

/// The interface sums once flow rates `c` are taken off; an interface left
/// with no connection is dropped.
pub open spec fn realtime_removed(
    rt: Map<u32, IfaceRealtimeAcc>,
    c: FlowRateContribution,
) -> Map<u32, IfaceRealtimeAcc> {
    if !rt.contains_key(c.ifindex) {
        rt
    } else {
        let after = rt[c.ifindex].with_removed(c);
        if after.active_conns == 0 {
            rt.remove(c.ifindex)
        } else {
            rt.insert(c.ifindex, after)
        }
    }
}

/// Adds a flow's rates to its interface's realtime sums, starting them
/// where the interface has none yet.
pub fn add_iface_realtime_contribution(
    iface_realtime: &mut HashMap<u32, IfaceRealtimeAcc>,
    contribution: FlowRateContribution,
    report_time: u64,
)
    ensures
        final(iface_realtime)@ == realtime_added(old(iface_realtime)@, contribution, report_time),
        ({
            let before = if old(iface_realtime)@.contains_key(contribution.ifindex) {
                old(iface_realtime)@[contribution.ifindex]
            } else {
                IfaceRealtimeAcc::zero()
            };
            let after = final(iface_realtime)@[contribution.ifindex];
            &&& final(iface_realtime)@ == old(iface_realtime)@.insert(contribution.ifindex, after)
            &&& after.ingress_bps == sat_add(before.ingress_bps, contribution.ingress_bps)
            &&& after.egress_bps == sat_add(before.egress_bps, contribution.egress_bps)
            &&& after.ingress_pps == sat_add(before.ingress_pps, contribution.ingress_pps)
            &&& after.egress_pps == sat_add(before.egress_pps, contribution.egress_pps)
            &&& after.active_conns == if before.active_conns == u32::MAX {
                u32::MAX
            } else {
                (before.active_conns + 1) as u32
            }
            &&& after.last_report_time == if before.last_report_time >= report_time {
                before.last_report_time
            } else {
                report_time
            }
        }),
{
    let mut acc = match iface_realtime.get(&contribution.ifindex) {
        Some(a) => *a,
        None => IfaceRealtimeAcc {
            ingress_bps: 0,
            egress_bps: 0,
            ingress_pps: 0,
            egress_pps: 0,
            active_conns: 0,
            last_report_time: 0,
        },
    };
    acc.add_contribution(contribution, report_time);
    let _ = iface_realtime.insert(contribution.ifindex, acc);
}

/// Takes a flow's rates off its interface's realtime sums; an interface
/// left with no active connection is dropped.
pub fn remove_iface_realtime_contribution(
    iface_realtime: &mut HashMap<u32, IfaceRealtimeAcc>,
    contribution: FlowRateContribution,
)
    ensures
        final(iface_realtime)@ == realtime_removed(old(iface_realtime)@, contribution),
        !old(iface_realtime)@.contains_key(contribution.ifindex) ==> final(iface_realtime)@ == old(iface_realtime)@,
        old(iface_realtime)@.contains_key(contribution.ifindex) ==> {
            let before = old(iface_realtime)@[contribution.ifindex];
            let conns = if before.active_conns == 0 {
                0
            } else {
                before.active_conns - 1
            };
            &&& conns == 0 ==> final(iface_realtime)@ == old(iface_realtime)@.remove(
                contribution.ifindex,
            )
            &&& conns > 0 ==> {
                let after = final(iface_realtime)@[contribution.ifindex];
                &&& final(iface_realtime)@ == old(iface_realtime)@.insert(
                    contribution.ifindex,
                    after,
                )
                &&& after.ingress_bps == sat_sub(before.ingress_bps, contribution.ingress_bps)
                &&& after.egress_bps == sat_sub(before.egress_bps, contribution.egress_bps)
                &&& after.ingress_pps == sat_sub(before.ingress_pps, contribution.ingress_pps)
                &&& after.egress_pps == sat_sub(before.egress_pps, contribution.egress_pps)
                &&& after.active_conns == conns
                &&& after.last_report_time == before.last_report_time
            }
        },
{
    let found = match iface_realtime.get(&contribution.ifindex) {
        Some(a) => Some(*a),
        None => None,
    };
    if let Some(mut acc) = found {
        acc.remove_contribution(contribution);
        if acc.active_conns == 0 {
            let _ = iface_realtime.remove(&contribution.ifindex);
        } else {
            let _ = iface_realtime.insert(contribution.ifindex, acc);
        }
    }
}

/// The traffic of one interface within one five-second bucket.
#[derive(Clone, Copy, Debug, PartialEq, Eq, Structural)]
pub struct IfaceBucketAcc {
    pub ingress_bytes: u64,
    pub ingress_packets: u64,
    pub egress_bytes: u64,
    pub egress_packets: u64,
    pub active_conns: u32,
    pub last_report_time: u64,
}

impl IfaceBucketAcc {
    pub open spec fn zero() -> IfaceBucketAcc {
        IfaceBucketAcc {
            ingress_bytes: 0,
            ingress_packets: 0,
            egress_bytes: 0,
            egress_packets: 0,
            active_conns: 0,
            last_report_time: 0,
        }
    }

    /// The bucket once `delta`, reported at `report_time`, is added.
    pub open spec fn with_delta(self, delta: MetricDelta, report_time: u64) -> IfaceBucketAcc {
        IfaceBucketAcc {
            ingress_bytes: sat_add(self.ingress_bytes, delta.ingress_bytes),
            ingress_packets: sat_add(self.ingress_packets, delta.ingress_packets),
            egress_bytes: sat_add(self.egress_bytes, delta.egress_bytes),
            egress_packets: sat_add(self.egress_packets, delta.egress_packets),
            active_conns: self.active_conns,
            last_report_time: if self.last_report_time >= report_time {
                self.last_report_time
            } else {
                report_time
            },
        }
    }

    /// Adds `delta`, reported at `report_time`, saturating.
    pub fn add_delta(&mut self, delta: MetricDelta, report_time: u64)
        ensures
            *final(self) == old(self).with_delta(delta, report_time),
    {
        self.ingress_bytes = self.ingress_bytes.saturating_add(delta.ingress_bytes);
        self.ingress_packets = self.ingress_packets.saturating_add(delta.ingress_packets);
        self.egress_bytes = self.egress_bytes.saturating_add(delta.egress_bytes);
        self.egress_packets = self.egress_packets.saturating_add(delta.egress_packets);
        if self.last_report_time < report_time {
            self.last_report_time = report_time;
        }
    }
}

/// The key of the bucket of interface `ifindex` starting at `bucket_start`;
/// keys order buckets by start time, then by interface.
pub open spec fn iface_bucket_key(ifindex: u32, bucket_start: u64) -> u128 {
    (bucket_start * 0x1_0000_0000int + ifindex) as u128
}

fn make_iface_bucket_key(ifindex: u32, bucket_start: u64) -> (r: u128)
    ensures
        r == iface_bucket_key(ifindex, bucket_start),
{
    proof {
        vstd::arithmetic::mul::lemma_mul_upper_bound(
            bucket_start as int,
            u64::MAX as int,
            0x1_0000_0000int,
            0x1_0000_0000int,
        );
    }
    (bucket_start as u128) * 0x1_0000_0000u128 + (ifindex as u128)
}

impl MetricDelta {
    pub open spec fn spec_scale(self, numerator: u64, denominator: u64) -> MetricDelta {
        MetricDelta {
            ingress_bytes: spec_scale_u64(self.ingress_bytes, numerator, denominator),
            ingress_packets: spec_scale_u64(self.ingress_packets, numerator, denominator),
            egress_bytes: spec_scale_u64(self.egress_bytes, numerator, denominator),
            egress_packets: spec_scale_u64(self.egress_packets, numerator, denominator),
        }
    }

    /// Counter number `f` (ingress bytes, ingress packets, egress bytes,
    /// egress packets).
    pub open spec fn field(self, f: int) -> u64 {
        if f == 0 {
            self.ingress_bytes
        } else if f == 1 {
            self.ingress_packets
        } else if f == 2 {
            self.egress_bytes
        } else {
            self.egress_packets
        }
    }
}

pub open spec fn min_u64(a: u64, b: u64) -> u64 {
    if a <= b {
        a
    } else {
        b
    }
}

/// The end of the bucket that holds `cursor`, cut at `end`.
pub open spec fn segment_end(cursor: u64, end: u64) -> u64 {
    min_u64(sat_add(spec_bucket_start(cursor, IFACE_BUCKET_MS), IFACE_BUCKET_MS), end)
}

/// The writes that spread `delta`, gained over `total` milliseconds, from
/// `cursor` to `end` over the five-second buckets: (bucket start, share,
/// bucket end). Each bucket but the last gets the share of its duration,
/// rounded down; the last gets what the others left, `assigned` being what
/// they took so far.
pub open spec fn iface_writes(
    cursor: u64,
    end: u64,
    total: u64,
    delta: MetricDelta,
    assigned: MetricDelta,
) -> Seq<(u64, MetricDelta, u64)>
    decreases end - cursor,
{
    if cursor >= end {
        Seq::empty()
    } else {
        let b = spec_bucket_start(cursor, IFACE_BUCKET_MS);
        let be = segment_end(cursor, end);
        if be >= end {
            seq![(b, delta.spec_sub(assigned), be)]
        } else {
            proof {
                lemma_bucket_start(cursor, IFACE_BUCKET_MS);
            }
            let seg = delta.spec_scale((be - cursor) as u64, total);
            seq![(b, seg, be)] + iface_writes(be, end, total, delta, assigned.spec_add(seg))
        }
    }
}

/// The bucket map once `delta`, reported at `t`, is added to the bucket of
/// interface `ifindex` that starts at `b`.
pub open spec fn add_to_bucket(
    m: Map<u128, IfaceBucketAcc>,
    ifindex: u32,
    b: u64,
    delta: MetricDelta,
    t: u64,
) -> Map<u128, IfaceBucketAcc> {
    let k = iface_bucket_key(ifindex, b);
    let acc = if m.contains_key(k) {
        m[k]
    } else {
        IfaceBucketAcc::zero()
    };
    m.insert(k, acc.with_delta(delta, t))
}

/// The bucket map once every write of `ws` is added, in order.
pub open spec fn apply_iface_writes(
    m: Map<u128, IfaceBucketAcc>,
    ifindex: u32,
    ws: Seq<(u64, MetricDelta, u64)>,
) -> Map<u128, IfaceBucketAcc>
    decreases ws.len(),
{
    if ws.len() == 0 {
        m
    } else {
        apply_iface_writes(add_to_bucket(m, ifindex, ws[0].0, ws[0].1, ws[0].2), ifindex, ws.drop_first())
    }
}

fn accumulate_bucket(
    cache: &mut BTreeMap<u128, IfaceBucketAcc>,
    ifindex: u32,
    b: u64,
    delta: MetricDelta,
    t: u64,
)
    ensures
        final(cache)@ == add_to_bucket(old(cache)@, ifindex, b, delta, t),
{
    broadcast use vstd::std_specs::btree::group_btree_axioms;

    let key = make_iface_bucket_key(ifindex, b);
    let mut acc = match cache.get(&key) {
        Some(a) => *a,
        None => IfaceBucketAcc {
            ingress_bytes: 0,
            ingress_packets: 0,
            egress_bytes: 0,
            egress_packets: 0,
            active_conns: 0,
            last_report_time: 0,
        },
    };
    acc.add_delta(delta, t);
    let _ = cache.insert(key, acc);
}

/// Spreads a counter delta of interface `ifindex`, gained from
/// `start_time` to `end_time`, over the five-second buckets of that span in
/// proportion to the time spent in each; the last bucket takes what the
/// rounding left. A delta over no time goes whole to the bucket of
/// `end_time`; an empty delta changes nothing.
pub fn record_iface_delta(
    iface_buckets: &mut BTreeMap<u128, IfaceBucketAcc>,
    ifindex: u32,
    start_time: u64,
    end_time: u64,
    delta: MetricDelta,
)
    ensures
        final(iface_buckets)@ == recorded_iface_delta(
            old(iface_buckets)@,
            ifindex,
            start_time,
            end_time,
            delta,
        ),
        delta == MetricDelta::zero() ==> final(iface_buckets)@ == old(iface_buckets)@,
        delta != MetricDelta::zero() && end_time <= start_time ==> final(iface_buckets)@
            == add_to_bucket(
            old(iface_buckets)@,
            ifindex,
            spec_bucket_start(end_time, IFACE_BUCKET_MS),
            delta,
            end_time,
        ),
        delta != MetricDelta::zero() && end_time > start_time ==> final(iface_buckets)@
            == apply_iface_writes(
            old(iface_buckets)@,
            ifindex,
            iface_writes(
                start_time,
                end_time,
                (end_time - start_time) as u64,
                delta,
                MetricDelta::zero(),
            ),
        ),
{
    if delta.is_zero() {
        return;
    }
    if end_time <= start_time {
        let b = bucket_start(end_time, IFACE_BUCKET_MS);
        accumulate_bucket(iface_buckets, ifindex, b, delta, end_time);
        return;
    }
    let total_duration = end_time - start_time;
    let mut cursor = start_time;
    let mut assigned = MetricDelta { ingress_bytes: 0, ingress_packets: 0, egress_bytes: 0, egress_packets: 0 };
    let ghost target = apply_iface_writes(
        old(iface_buckets)@,
        ifindex,
        iface_writes(start_time, end_time, total_duration, delta, MetricDelta::zero()),
    );
    while cursor < end_time
        invariant
            start_time <= cursor <= end_time,
            total_duration == end_time - start_time,
            apply_iface_writes(
                iface_buckets@,
                ifindex,
                iface_writes(cursor, end_time, total_duration, delta, assigned),
            ) == target,
        decreases end_time - cursor,
    {
        let ghost rest = iface_writes(cursor, end_time, total_duration, delta, assigned);
        let bucket = bucket_start(cursor, IFACE_BUCKET_MS);
        let up = bucket.saturating_add(IFACE_BUCKET_MS);
        let bucket_end = if up <= end_time {
            up
        } else {
            end_time
        };
        let segment_duration = bucket_end.saturating_sub(cursor);
        let mut segment_delta = delta.scale(segment_duration, total_duration);
        let is_last = bucket_end >= end_time;
        if is_last {
            segment_delta = delta.saturating_sub(assigned);
        } else {
            assigned = assigned.saturating_add(segment_delta);
        }
        let ghost before = iface_buckets@;
        accumulate_bucket(iface_buckets, ifindex, bucket, segment_delta, bucket_end);
        proof {
            assert(bucket_end == segment_end(cursor, end_time));
            assert(rest[0] == (bucket, segment_delta, bucket_end));
            if is_last {
                assert(rest.len() == 1);
                assert(rest.drop_first() =~= Seq::<(u64, MetricDelta, u64)>::empty());
            } else {
                assert(bucket_end > cursor);
                assert(rest.drop_first() =~= iface_writes(
                    bucket_end,
                    end_time,
                    total_duration,
                    delta,
                    assigned,
                ));
            }
        }
        cursor = bucket_end;
    }
}

/// The bucket map once `record_iface_delta` has spread `delta`, gained
/// from `start` to `end` on interface `ifindex`.
pub open spec fn recorded_iface_delta(
    m: Map<u128, IfaceBucketAcc>,
    ifindex: u32,
    start: u64,
    end: u64,
    delta: MetricDelta,
) -> Map<u128, IfaceBucketAcc> {
    if delta == MetricDelta::zero() {
        m
    } else if end <= start {
        add_to_bucket(m, ifindex, spec_bucket_start(end, IFACE_BUCKET_MS), delta, end)
    } else {
        apply_iface_writes(
            m,
            ifindex,
            iface_writes(start, end, (end - start) as u64, delta, MetricDelta::zero()),
        )
    }
}

/// Everything that the writes `ws` add up to, counter `f`.
pub open spec fn writes_total(ws: Seq<(u64, MetricDelta, u64)>, f: int) -> int
    decreases ws.len(),
{
    if ws.len() == 0 {
        0
    } else {
        ws[0].1.field(f) + writes_total(ws.drop_first(), f)
    }
}

proof fn lemma_share_bound(d: u64, seg: u64, total: u64)
    requires
        total > 0,
        seg <= total,
    ensures
        spec_scale_u64(d, seg, total) * total <= d * seg,
        spec_scale_u64(d, seg, total) <= d,
{
    let x = d * seg;
    vstd::arithmetic::div_mod::lemma_fundamental_div_mod(x, total as int);
    vstd::arithmetic::div_mod::lemma_mod_pos_bound(x, total as int);
    vstd::arithmetic::mul::lemma_mul_inequality(seg as int, total as int, d as int);
    vstd::arithmetic::mul::lemma_mul_is_commutative(d as int, seg as int);
    vstd::arithmetic::mul::lemma_mul_is_commutative(total as int, (x / (total as int)) as int);
    vstd::arithmetic::div_mod::lemma_div_is_ordered(x, d * total, total as int);
    vstd::arithmetic::div_mod::lemma_div_multiples_vanish(d as int, total as int);
    vstd::arithmetic::mul::lemma_mul_is_commutative(d as int, total as int);
}

proof fn lemma_below_share(a: int, d: int, done: int, total: int)
    requires
        0 <= a,
        0 <= d,
        0 <= done < total,
        a * total <= d * done,
    ensures
        a <= d,
{
    if a > d {
        vstd::arithmetic::mul::lemma_mul_strict_inequality(d, a, total);
        vstd::arithmetic::mul::lemma_mul_inequality(done, total, d);
        vstd::arithmetic::mul::lemma_mul_is_commutative(done, d);
        vstd::arithmetic::mul::lemma_mul_is_commutative(total, d);
    }
}

proof fn lemma_writes_conserve(
    start: u64,
    cursor: u64,
    end: u64,
    delta: MetricDelta,
    assigned: MetricDelta,
    f: int,
)
    requires
        start <= cursor < end,
        0 <= f < 4,
        assigned.field(f) * (end - start) <= delta.field(f) * (cursor - start),
    ensures
        writes_total(iface_writes(cursor, end, (end - start) as u64, delta, assigned), f)
            == delta.field(f) - assigned.field(f),
    decreases end - cursor,
{
    let total = (end - start) as u64;
    let ws = iface_writes(cursor, end, total, delta, assigned);
    let d = delta.field(f);
    let a = assigned.field(f);
    lemma_below_share(a as int, d as int, (cursor - start) as int, total as int);
    let be = segment_end(cursor, end);
    lemma_bucket_start(cursor, IFACE_BUCKET_MS);
    if be >= end {
        assert(ws.len() == 1);
        assert(ws.drop_first() =~= Seq::<(u64, MetricDelta, u64)>::empty());
        assert(writes_total(ws.drop_first(), f) == 0);
        assert(ws[0].1.field(f) == sat_sub(d, a));
        assert(writes_total(ws, f) == ws[0].1.field(f) + writes_total(ws.drop_first(), f));
    } else {
        let seg_len = (be - cursor) as u64;
        let seg = delta.spec_scale(seg_len, total);
        let s = seg.field(f);
        assert(s == spec_scale_u64(d, seg_len, total));
        lemma_share_bound(d, seg_len, total);
        let next = assigned.spec_add(seg);
        assert(s * total <= d * seg_len);
        assert((a + s) * total <= d * (be - start)) by (nonlinear_arith)
            requires
                a * total <= d * (cursor - start),
                s * total <= d * seg_len,
                seg_len == be - cursor,
        ;
        lemma_below_share(a + s, d as int, (be - start) as int, total as int);
        assert(next.field(f) == a + s);
        lemma_writes_conserve(start, be, end, delta, next, f);
        assert(ws.drop_first() =~= iface_writes(be, end, total, delta, next));
        assert(ws.len() > 0);
        assert(ws[0].1 == seg);
        assert(writes_total(ws, f) == ws[0].1.field(f) + writes_total(ws.drop_first(), f));
    }
}

/// The shares that `record_iface_delta` spreads over the buckets add up to
/// the delta it was given, counter by counter: no traffic is lost or made
/// up by the rounding.
pub proof fn law_iface_split_conserves(start: u64, end: u64, delta: MetricDelta, f: int)
    requires
        start < end,
        0 <= f < 4,
    ensures
        writes_total(
            iface_writes(start, end, (end - start) as u64, delta, MetricDelta::zero()),
            f,
        ) == delta.field(f),
{
    lemma_writes_conserve(start, start, end, delta, MetricDelta::zero(), f);
}

/// One five-second bucket of one interface, as it is written to the store,
/// with the interface's active connections at the time of writing.
#[derive(Clone, Copy, Debug, PartialEq, Eq, Structural)]
pub struct IfaceBucketWrite {
    pub ifindex: u32,
    pub report_time: u64,
    pub ingress_bytes: u64,
    pub ingress_packets: u64,
    pub egress_bytes: u64,
    pub egress_packets: u64,
    pub active_conns: u32,
}

/// The interface of a bucket key.
pub open spec fn key_ifindex(k: u128) -> u32 {
    (k % 0x1_0000_0000) as u32
}

/// The bucket start of a bucket key.
pub open spec fn key_start(k: u128) -> u64 {
    (k / 0x1_0000_0000) as u64
}

/// The write of the bucket under key `k`.
pub open spec fn bucket_write(
    k: u128,
    acc: IfaceBucketAcc,
    realtime: Map<u32, IfaceRealtimeAcc>,
) -> IfaceBucketWrite {
    IfaceBucketWrite {
        ifindex: key_ifindex(k),
        report_time: key_start(k),
        ingress_bytes: acc.ingress_bytes,
        ingress_packets: acc.ingress_packets,
        egress_bytes: acc.egress_bytes,
        egress_packets: acc.egress_packets,
        active_conns: if realtime.contains_key(key_ifindex(k)) {
            realtime[key_ifindex(k)].active_conns
        } else {
            0
        },
    }
}

fn ifindex_of_key(k: u128) -> (r: u32)
    ensures
        r == key_ifindex(k),
{
    (k % 0x1_0000_0000u128) as u32
}

fn start_of_key(k: u128) -> (r: u64)
    ensures
        r == key_start(k),
{
    #[verifier::truncate]
    ((k / 0x1_0000_0000u128) as u64)
}

/// Empties the bucket cache and hands back one write per bucket, ordered
/// by bucket start and then by interface (the order of their keys).
pub fn drain_iface_buckets(
    iface_buckets: &mut BTreeMap<u128, IfaceBucketAcc>,
    iface_realtime: &HashMap<u32, IfaceRealtimeAcc>,
) -> (writes: Vec<IfaceBucketWrite>)
    ensures
        final(iface_buckets)@ == Map::<u128, IfaceBucketAcc>::empty(),
        exists|ks: Seq<u128>|
            {
                &&& ks.len() == writes@.len()
                &&& ks.to_set() == old(iface_buckets)@.dom()
                &&& forall|i: int, j: int| 0 <= i < j < ks.len() ==> ks[i] < ks[j]
                &&& forall|i: int|
                    0 <= i < ks.len() ==> writes@[i] == bucket_write(
                        #[trigger] ks[i],
                        old(iface_buckets)@[ks[i]],
                        iface_realtime@,
                    )
            },
{
    broadcast use vstd::std_specs::btree::group_btree_axioms;
    broadcast use vstd::laws_cmp::group_laws_cmp;

    let ghost m0 = iface_buckets@;
    let mut writes: Vec<IfaceBucketWrite> = Vec::new();
    let entries = iface_buckets.iter();
    let ghost r0 = vstd::std_specs::iter::IteratorSpec::remaining(&entries);
    proof {
        assert(vstd::laws_cmp::obeys_cmp::<u128>());
        assert(vstd::std_specs::btree::key_obeys_cmp_spec::<u128>());
    }
    for (k, acc) in it: entries
        invariant
            it.seq() == r0,
            writes@.len() == it.index(),
            forall|i: int|
                0 <= i < it.index() ==> writes@[i] == bucket_write(
                    *(#[trigger] r0[i]).0,
                    *r0[i].1,
                    iface_realtime@,
                ),
    {
        let ifindex = ifindex_of_key(*k);
        let active_conns = match iface_realtime.get(&ifindex) {
            Some(a) => a.active_conns,
            None => 0,
        };
        writes.push(
            IfaceBucketWrite {
                ifindex,
                report_time: start_of_key(*k),
                ingress_bytes: acc.ingress_bytes,
                ingress_packets: acc.ingress_packets,
                egress_bytes: acc.egress_bytes,
                egress_packets: acc.egress_packets,
                active_conns,
            },
        );
    }
    proof {
        let ks = r0.map_values(|kv: (&u128, &IfaceBucketAcc)| *kv.0);
        assert(ks.len() == writes@.len());
        assert(r0.len() == m0.dom().len());
        assert(vstd::std_specs::btree::increasing_seq(ks));
        assert forall|i: int, j: int| 0 <= i < j < ks.len() implies ks[i] < ks[j] by {
            assert(vstd::std_specs::cmp::OrdSpec::cmp_spec(&ks[i], &ks[j]) is Less);
        }
        assert forall|x: u128| ks.to_set().contains(x) <==> m0.dom().contains(x) by {
            if m0.contains_key(x) {
                assert(r0.contains((&x, &m0[x])));
                let i = choose|i: int| 0 <= i < r0.len() && r0[i] == (&x, &m0[x]);
                assert(ks[i] == x);
            }
            if ks.to_set().contains(x) {
                let i = choose|i: int| 0 <= i < ks.len() && ks[i] == x;
                assert(m0.contains_key(*r0[i].0));
            }
        }
        assert(ks.to_set() =~= m0.dom());
        assert forall|i: int| 0 <= i < ks.len() implies writes@[i] == bucket_write(
            #[trigger] ks[i],
            m0[ks[i]],
            iface_realtime@,
        ) by {
            assert(m0.contains_key(*r0[i].0));
        }
    }
    iface_buckets.clear();
    writes
}

/// A bucket key gives back the interface and the start it was made of, and
/// keys order buckets by start, then by interface: the order in which
/// `drain_iface_buckets` hands them out.
pub proof fn law_bucket_keys_order_by_time_then_iface(i1: u32, s1: u64, i2: u32, s2: u64)
    ensures
        key_ifindex(iface_bucket_key(i1, s1)) == i1,
        key_start(iface_bucket_key(i1, s1)) == s1,
        iface_bucket_key(i1, s1) < iface_bucket_key(i2, s2) <==> (s1 < s2 || (s1 == s2 && i1 < i2)),
{
    let k1 = s1 * 0x1_0000_0000int + i1;
    let k2 = s2 * 0x1_0000_0000int + i2;
    assert(0 <= k1 <= u128::MAX) by (nonlinear_arith)
        requires
            k1 == s1 * 0x1_0000_0000int + i1,
            0 <= s1 <= u64::MAX,
            0 <= i1 <= u32::MAX,
    ;
    assert(0 <= k2 <= u128::MAX) by (nonlinear_arith)
        requires
            k2 == s2 * 0x1_0000_0000int + i2,
            0 <= s2 <= u64::MAX,
            0 <= i2 <= u32::MAX,
    ;
    assert(k1 % 0x1_0000_0000int == i1 && k1 / 0x1_0000_0000int == s1) by {
        vstd::arithmetic::div_mod::lemma_fundamental_div_mod_converse(
            k1,
            0x1_0000_0000int,
            s1 as int,
            i1 as int,
        );
    }
    assert(k1 < k2 <==> (s1 < s2 || (s1 == s2 && i1 < i2))) by (nonlinear_arith)
        requires
            k1 == s1 * 0x1_0000_0000int + i1,
            k2 == s2 * 0x1_0000_0000int + i2,
            0 <= i1 < 0x1_0000_0000int,
            0 <= i2 < 0x1_0000_0000int,
    ;
}

} // verus!
