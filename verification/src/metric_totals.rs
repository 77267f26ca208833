//! Running totals of the connection metrics: the totals of one connection
//! and the change that a connection makes to the global statistics.
use vstd::prelude::*;

use crate::metric_ingest::ConnectMetric;

verus! {

/// The counters of one connection, as far as they have been seen.
#[derive(Clone, Copy, Debug, PartialEq, Eq, Structural)]
pub struct SummaryTotals {
    pub total_ingress_bytes: u64,
    pub total_egress_bytes: u64,
    pub total_ingress_pkts: u64,
    pub total_egress_pkts: u64,
}

pub open spec fn max_u64(a: u64, b: u64) -> u64 {
    if a >= b {
        a
    } else {
        b
    }
}

impl Default for SummaryTotals {
    /// Nothing seen yet.
    fn default() -> (r: Self)
        ensures
            r == (SummaryTotals {
                total_ingress_bytes: 0,
                total_egress_bytes: 0,
                total_ingress_pkts: 0,
                total_egress_pkts: 0,
            }),
    {
        SummaryTotals {
            total_ingress_bytes: 0,
            total_egress_bytes: 0,
            total_ingress_pkts: 0,
            total_egress_pkts: 0,
        }
    }
}

fn max_of(a: u64, b: u64) -> (r: u64)
    ensures
        r == max_u64(a, b),
{
    if a >= b {
        a
    } else {
        b
    }
}

impl SummaryTotals {
    /// The totals of a connection's first report.
    pub fn from_metric(metric: &ConnectMetric) -> (r: Self)
        ensures
            r == (SummaryTotals {
                total_ingress_bytes: metric.ingress_bytes,
                total_egress_bytes: metric.egress_bytes,
                total_ingress_pkts: metric.ingress_packets,
                total_egress_pkts: metric.egress_packets,
            }),
    {
        SummaryTotals {
            total_ingress_bytes: metric.ingress_bytes,
            total_egress_bytes: metric.egress_bytes,
            total_ingress_pkts: metric.ingress_packets,
            total_egress_pkts: metric.egress_packets,
        }
    }

    /// The totals once a later report is taken in: each counter keeps its
    /// largest value, as the counters only grow.
    pub fn merge_metric(self, metric: &ConnectMetric) -> (r: Self)
        ensures
            r == (SummaryTotals {
                total_ingress_bytes: max_u64(self.total_ingress_bytes, metric.ingress_bytes),
                total_egress_bytes: max_u64(self.total_egress_bytes, metric.egress_bytes),
                total_ingress_pkts: max_u64(self.total_ingress_pkts, metric.ingress_packets),
                total_egress_pkts: max_u64(self.total_egress_pkts, metric.egress_packets),
            }),
    {
        SummaryTotals {
            total_ingress_bytes: max_of(self.total_ingress_bytes, metric.ingress_bytes),
            total_egress_bytes: max_of(self.total_egress_bytes, metric.egress_bytes),
            total_ingress_pkts: max_of(self.total_ingress_pkts, metric.ingress_packets),
            total_egress_pkts: max_of(self.total_egress_pkts, metric.egress_packets),
        }
    }
}

/// The global statistics of all connections.
#[derive(Clone, Copy, Debug, PartialEq, Eq, Structural)]
pub struct ConnectGlobalStats {
    pub total_ingress_bytes: u64,
    pub total_egress_bytes: u64,
    pub total_ingress_pkts: u64,
    pub total_egress_pkts: u64,
    pub total_connect_count: u64,
    pub last_calculate_time: u64,
}

/// A change of the global statistics.
#[derive(Clone, Copy, Debug, PartialEq, Eq, Structural)]
pub struct GlobalStatsDelta {
    pub total_ingress_bytes: i128,
    pub total_egress_bytes: i128,
    pub total_ingress_pkts: i128,
    pub total_egress_pkts: i128,
    pub total_connect_count: i128,
}

/// The change that a connection's totals going from `previous` to
/// `current` make to the global statistics.
pub open spec fn summary_change(previous: Option<SummaryTotals>, current: SummaryTotals) -> GlobalStatsDelta {
    let p = match previous {
        Some(p) => p,
        None => SummaryTotals {
            total_ingress_bytes: 0,
            total_egress_bytes: 0,
            total_ingress_pkts: 0,
            total_egress_pkts: 0,
        },
    };
    GlobalStatsDelta {
        total_ingress_bytes: (current.total_ingress_bytes - p.total_ingress_bytes) as i128,
        total_egress_bytes: (current.total_egress_bytes - p.total_egress_bytes) as i128,
        total_ingress_pkts: (current.total_ingress_pkts - p.total_ingress_pkts) as i128,
        total_egress_pkts: (current.total_egress_pkts - p.total_egress_pkts) as i128,
        total_connect_count: if previous is Some {
            0
        } else {
            1
        },
    }
}

/// Two changes applied one after the other, field by field.
pub open spec fn delta_sum(a: GlobalStatsDelta, b: GlobalStatsDelta) -> (int, int, int, int, int) {
    (
        a.total_ingress_bytes + b.total_ingress_bytes,
        a.total_egress_bytes + b.total_egress_bytes,
        a.total_ingress_pkts + b.total_ingress_pkts,
        a.total_egress_pkts + b.total_egress_pkts,
        a.total_connect_count + b.total_connect_count,
    )
}

/// A change as a tuple of integers.
pub open spec fn delta_ints(a: GlobalStatsDelta) -> (int, int, int, int, int) {
    (
        a.total_ingress_bytes as int,
        a.total_egress_bytes as int,
        a.total_ingress_pkts as int,
        a.total_egress_pkts as int,
        a.total_connect_count as int,
    )
}

/// The change that taking these statistics off makes: each of them
/// negated.
pub open spec fn removal_change(stats: ConnectGlobalStats) -> GlobalStatsDelta {
    GlobalStatsDelta {
        total_ingress_bytes: (-stats.total_ingress_bytes) as i128,
        total_egress_bytes: (-stats.total_egress_bytes) as i128,
        total_ingress_pkts: (-stats.total_ingress_pkts) as i128,
        total_egress_pkts: (-stats.total_egress_pkts) as i128,
        total_connect_count: (-stats.total_connect_count) as i128,
    }
}

impl GlobalStatsDelta {
    /// The change that a connection's new totals make: the growth of each
    /// counter, and one more connection where it had no totals before.
    pub fn from_summary_change(previous: Option<SummaryTotals>, current: SummaryTotals) -> (r: Self)
        ensures
            r == summary_change(previous, current),
    {
        let count_delta: i128 = if previous.is_some() {
            0
        } else {
            1
        };
        let previous = match previous {
            Some(p) => p,
            None => SummaryTotals::default(),
        };
        GlobalStatsDelta {
            total_ingress_bytes: current.total_ingress_bytes as i128
                - previous.total_ingress_bytes as i128,
            total_egress_bytes: current.total_egress_bytes as i128
                - previous.total_egress_bytes as i128,
            total_ingress_pkts: current.total_ingress_pkts as i128
                - previous.total_ingress_pkts as i128,
            total_egress_pkts: current.total_egress_pkts as i128
                - previous.total_egress_pkts as i128,
            total_connect_count: count_delta,
        }
    }

    /// The change that removing these statistics makes: each of them taken
    /// off.
    pub fn from_removed_stats(stats: &ConnectGlobalStats) -> (r: Self)
        ensures
            r == removal_change(*stats),
    {
        GlobalStatsDelta {
            total_ingress_bytes: -(stats.total_ingress_bytes as i128),
            total_egress_bytes: -(stats.total_egress_bytes as i128),
            total_ingress_pkts: -(stats.total_ingress_pkts as i128),
            total_egress_pkts: -(stats.total_egress_pkts as i128),
            total_connect_count: -(stats.total_connect_count as i128),
        }
    }

    /// Nothing changes.
    pub fn is_zero(&self) -> (r: bool)
        ensures
            r == (self.total_ingress_bytes == 0 && self.total_egress_bytes == 0
                && self.total_ingress_pkts == 0 && self.total_egress_pkts == 0
                && self.total_connect_count == 0),
    {
        self.total_ingress_bytes == 0 && self.total_egress_bytes == 0 && self.total_ingress_pkts
            == 0 && self.total_egress_pkts == 0 && self.total_connect_count == 0
    }
}

/// What a cleanup pass of the metric store removed, and whether it ran out
/// of time.
#[derive(Clone, Copy, Debug, PartialEq, Eq, Structural)]
pub struct CleanupStats {
    pub deleted_raw: usize,
    pub deleted_1m: usize,
    pub deleted_1h: usize,
    pub deleted_1d: usize,
    pub deleted_summaries: usize,
    pub budget_hit: bool,
    pub elapsed_ms: u128,
}

impl Default for CleanupStats {
    /// Nothing removed yet.
    fn default() -> (r: Self)
        ensures
            r == (CleanupStats {
                deleted_raw: 0,
                deleted_1m: 0,
                deleted_1h: 0,
                deleted_1d: 0,
                deleted_summaries: 0,
                budget_hit: false,
                elapsed_ms: 0,
            }),
    {
        CleanupStats {
            deleted_raw: 0,
            deleted_1m: 0,
            deleted_1h: 0,
            deleted_1d: 0,
            deleted_summaries: 0,
            budget_hit: false,
            elapsed_ms: 0,
        }
    }
}

/// The changes of a connection's successive totals add up to the change
/// of its latest totals alone: applied in turn, they count the connection
/// once and its counters at their latest values, whatever came between.
pub proof fn law_summary_changes_add_up(
    previous: Option<SummaryTotals>,
    middle: SummaryTotals,
    current: SummaryTotals,
)
    ensures
        delta_sum(summary_change(previous, middle), summary_change(Some(middle), current))
            == delta_ints(summary_change(previous, current)),
{
}

/// Removing statistics takes back exactly what they add: each field of
/// the change is the negated statistic.
pub proof fn law_removal_cancels_stats(stats: ConnectGlobalStats)
    ensures
        ({
            let d = removal_change(stats);
            &&& d.total_ingress_bytes + stats.total_ingress_bytes == 0
            &&& d.total_egress_bytes + stats.total_egress_bytes == 0
            &&& d.total_ingress_pkts + stats.total_ingress_pkts == 0
            &&& d.total_egress_pkts + stats.total_egress_pkts == 0
            &&& d.total_connect_count + stats.total_connect_count == 0
        }),
{
}

} // verus!
