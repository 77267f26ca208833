//! The retention pass of the metric store: old rows of each table are
//! deleted slice by slice, oldest first, until the time budget runs out.
//! The decisions are a state machine; the caller runs the queries and the
//! clock and hands back what they gave.
use vstd::prelude::*;

use crate::metric_totals::CleanupStats;

verus! {

/// The tables a retention pass goes through, in this order.
#[derive(Clone, Copy, Debug, PartialEq, Eq, Structural)]
pub enum CleanupTable {
    Raw,
    Minute,
    Hour,
    Day,
    Summaries,
}

impl CleanupTable {
    /// The table's name.
    pub fn table_name(self) -> (r: &'static str)
        ensures
            r@ == match self {
                CleanupTable::Raw => "conn_metrics"@,
                CleanupTable::Minute => "conn_metrics_1m"@,
                CleanupTable::Hour => "conn_metrics_1h"@,
                CleanupTable::Day => "conn_metrics_1d"@,
                CleanupTable::Summaries => "conn_summaries"@,
            },
    {
        match self {
            CleanupTable::Raw => "conn_metrics",
            CleanupTable::Minute => "conn_metrics_1m",
            CleanupTable::Hour => "conn_metrics_1h",
            CleanupTable::Day => "conn_metrics_1d",
            CleanupTable::Summaries => "conn_summaries",
        }
    }

    /// The column that holds a row's time.
    pub fn time_column(self) -> (r: &'static str)
        ensures
            r@ == match self {
                CleanupTable::Summaries => "last_report_time"@,
                _ => "report_time"@,
            },
    {
        match self {
            CleanupTable::Summaries => "last_report_time",
            _ => "report_time",
        }
    }
}

/// What a retention pass deletes: rows older than each table's cutoff, in
/// slices of `slice_window_ms`; the raw table only where the pass covers
/// it (it lives in the in-memory store).
#[derive(Clone, Copy, Debug, PartialEq, Eq, Structural)]
pub struct CleanupPlan {
    pub include_raw: bool,
    pub cutoff_raw: u64,
    pub cutoff_1m: u64,
    pub cutoff_1h: u64,
    pub cutoff_1d: u64,
    pub slice_window_ms: u64,
}

impl CleanupPlan {
    /// The cutoff of a table: summaries go with the daily buckets.
    pub open spec fn cutoff(self, t: CleanupTable) -> u64 {
        match t {
            CleanupTable::Raw => self.cutoff_raw,
            CleanupTable::Minute => self.cutoff_1m,
            CleanupTable::Hour => self.cutoff_1h,
            CleanupTable::Day => self.cutoff_1d,
            CleanupTable::Summaries => self.cutoff_1d,
        }
    }

    /// The table a pass starts with.
    pub open spec fn first_table(self) -> CleanupTable {
        if self.include_raw {
            CleanupTable::Raw
        } else {
            CleanupTable::Minute
        }
    }
}

/// The table after `t`, if any.
pub open spec fn next_table(t: CleanupTable) -> Option<CleanupTable> {
    match t {
        CleanupTable::Raw => Some(CleanupTable::Minute),
        CleanupTable::Minute => Some(CleanupTable::Hour),
        CleanupTable::Hour => Some(CleanupTable::Day),
        CleanupTable::Day => Some(CleanupTable::Summaries),
        CleanupTable::Summaries => None,
    }
}

/// The plan of a pass: the slice window is the configured number of
/// seconds (at least one) in milliseconds.
pub fn cleanup_plan(
    include_raw: bool,
    cutoff_raw: u64,
    cutoff_1m: u64,
    cutoff_1h: u64,
    cutoff_1d: u64,
    cleanup_slice_window_secs: u64,
) -> (r: CleanupPlan)
    requires
        cleanup_slice_window_secs * 1000 <= u64::MAX,
    ensures
        r == (CleanupPlan {
            include_raw,
            cutoff_raw,
            cutoff_1m,
            cutoff_1h,
            cutoff_1d,
            slice_window_ms: (if cleanup_slice_window_secs < 1 {
                1
            } else {
                cleanup_slice_window_secs
            } * 1000) as u64,
        }),
{
    let secs = if cleanup_slice_window_secs < 1 {
        1
    } else {
        cleanup_slice_window_secs
    };
    CleanupPlan {
        include_raw,
        cutoff_raw,
        cutoff_1m,
        cutoff_1h,
        cutoff_1d,
        slice_window_ms: secs * 1000,
    }
}

/// The time budget of a pass, in milliseconds: at least one.
pub fn cleanup_budget_ms(cleanup_time_budget_ms: u64) -> (r: u64)
    ensures
        r == if cleanup_time_budget_ms < 1 {
            1
        } else {
            cleanup_time_budget_ms
        },
{
    if cleanup_time_budget_ms < 1 {
        1
    } else {
        cleanup_time_budget_ms
    }
}

/// What the pass waits for.
#[derive(Clone, Copy, Debug, PartialEq, Eq, Structural)]
pub enum CleanupPhase {
    /// The oldest time of the table at or after a bound, below its cutoff.
    AwaitNext,
    /// Whether the deadline has passed, before deleting from `start`.
    AwaitTime { start: u64 },
    /// How many rows the deletion of a slice ending at `end` removed.
    AwaitDelete { end: u64 },
    /// Nothing: the pass is over.
    Finished,
}

/// What the caller reports back.
#[derive(Clone, Copy, Debug, PartialEq, Eq, Structural)]
pub enum CleanupEvent {
    /// The oldest time found, if any row is left below the cutoff.
    Next(Option<u64>),
    /// Whether the deadline has passed.
    TimeUp(bool),
    /// The rows a deletion removed (zero where it failed).
    Deleted(usize),
}

/// What the caller is to do next.
#[derive(Clone, Copy, Debug, PartialEq, Eq, Structural)]
pub enum CleanupAction {
    /// Find the oldest time of `table` at or after `lower_bound` and below
    /// `cutoff`.
    Query { table: CleanupTable, lower_bound: u64, cutoff: u64 },
    /// Look at the clock.
    CheckDeadline,
    /// Delete the rows of `table` whose time lies in `[start, end)`.
    Delete { table: CleanupTable, start: u64, end: u64 },
    /// Stop; the pass's statistics are final.
    Finish,
}

/// A retention pass under way.
#[derive(Clone, Copy, Debug, PartialEq, Eq, Structural)]
pub struct CleanupRun {
    pub plan: CleanupPlan,
    pub table: CleanupTable,
    pub phase: CleanupPhase,
    /// The rows deleted from the current table so far.
    pub table_deleted: usize,
    pub stats: CleanupStats,
}

/// `a + b`, at most `usize::MAX`.
pub open spec fn sat_add_usize(a: usize, b: usize) -> usize {
    if a + b > usize::MAX {
        usize::MAX
    } else {
        (a + b) as usize
    }
}

/// The statistics once `deleted` rows of `t` are counted and the budget
/// flag is set to `hit`.
pub open spec fn record_table(s: CleanupStats, t: CleanupTable, deleted: usize, hit: bool) -> CleanupStats {
    let s1 = match t {
        CleanupTable::Raw => CleanupStats { deleted_raw: deleted, ..s },
        CleanupTable::Minute => CleanupStats { deleted_1m: deleted, ..s },
        CleanupTable::Hour => CleanupStats { deleted_1h: deleted, ..s },
        CleanupTable::Day => CleanupStats { deleted_1d: deleted, ..s },
        CleanupTable::Summaries => CleanupStats { deleted_summaries: deleted, ..s },
    };
    CleanupStats { budget_hit: hit, ..s1 }
}

/// The end of the slice that starts at `start`: one window on, cut at the
/// cutoff.
pub open spec fn slice_end(start: u64, window: u64, cutoff: u64) -> u64 {
    let e = if start + window > u64::MAX {
        u64::MAX
    } else {
        (start + window) as u64
    };
    if e <= cutoff {
        e
    } else {
        cutoff
    }
}

impl CleanupRun {
    /// The pass at its start, and its first query.
    pub open spec fn spec_start(plan: CleanupPlan) -> (CleanupRun, CleanupAction) {
        let t = plan.first_table();
        (
            CleanupRun {
                plan,
                table: t,
                phase: CleanupPhase::AwaitNext,
                table_deleted: 0,
                stats: CleanupStats {
                    deleted_raw: 0,
                    deleted_1m: 0,
                    deleted_1h: 0,
                    deleted_1d: 0,
                    deleted_summaries: 0,
                    budget_hit: false,
                    elapsed_ms: 0,
                },
            },
            CleanupAction::Query { table: t, lower_bound: 0, cutoff: plan.cutoff(t) },
        )
    }

    /// One step: where the event does not answer the phase, nothing
    /// changes and the pass finishes no work.
    pub open spec fn spec_step(self, event: CleanupEvent) -> (CleanupRun, CleanupAction) {
        match (self.phase, event) {
            (CleanupPhase::AwaitNext, CleanupEvent::Next(None)) => {
                let stats = record_table(self.stats, self.table, self.table_deleted, false);
                match next_table(self.table) {
                    Some(t) => (
                        CleanupRun {
                            table: t,
                            phase: CleanupPhase::AwaitNext,
                            table_deleted: 0,
                            stats,
                            ..self
                        },
                        CleanupAction::Query { table: t, lower_bound: 0, cutoff: self.plan.cutoff(t) },
                    ),
                    None => (
                        CleanupRun { phase: CleanupPhase::Finished, stats, ..self },
                        CleanupAction::Finish,
                    ),
                }
            },
            (CleanupPhase::AwaitNext, CleanupEvent::Next(Some(start))) => (
                CleanupRun { phase: CleanupPhase::AwaitTime { start }, ..self },
                CleanupAction::CheckDeadline,
            ),
            (CleanupPhase::AwaitTime { .. }, CleanupEvent::TimeUp(true)) => (
                CleanupRun {
                    phase: CleanupPhase::Finished,
                    stats: record_table(self.stats, self.table, self.table_deleted, true),
                    ..self
                },
                CleanupAction::Finish,
            ),
            (CleanupPhase::AwaitTime { start }, CleanupEvent::TimeUp(false)) => {
                let end = slice_end(
                    start,
                    self.plan.slice_window_ms,
                    self.plan.cutoff(self.table),
                );
                (
                    CleanupRun { phase: CleanupPhase::AwaitDelete { end }, ..self },
                    CleanupAction::Delete { table: self.table, start, end },
                )
            },
            (CleanupPhase::AwaitDelete { end }, CleanupEvent::Deleted(n)) => (
                CleanupRun {
                    phase: CleanupPhase::AwaitNext,
                    table_deleted: sat_add_usize(self.table_deleted, n),
                    ..self
                },
                CleanupAction::Query {
                    table: self.table,
                    lower_bound: end,
                    cutoff: self.plan.cutoff(self.table),
                },
            ),
            _ => (self, CleanupAction::Finish),
        }
    }

    /// Starts a pass under `plan`, with its first query.
    pub fn start(plan: CleanupPlan) -> (r: (CleanupRun, CleanupAction))
        ensures
            r == CleanupRun::spec_start(plan),
    {
        let t = if plan.include_raw {
            CleanupTable::Raw
        } else {
            CleanupTable::Minute
        };
        (
            CleanupRun {
                plan,
                table: t,
                phase: CleanupPhase::AwaitNext,
                table_deleted: 0,
                stats: CleanupStats {
                    deleted_raw: 0,
                    deleted_1m: 0,
                    deleted_1h: 0,
                    deleted_1d: 0,
                    deleted_summaries: 0,
                    budget_hit: false,
                    elapsed_ms: 0,
                },
            },
            CleanupAction::Query { table: t, lower_bound: 0, cutoff: cutoff_of(plan, t) },
        )
    }

    /// Takes in what the caller saw and says what to do next.
    pub fn step(&mut self, event: CleanupEvent) -> (r: CleanupAction)
        ensures
            (*final(self), r) == old(self).spec_step(event),
    {
        match (self.phase, event) {
            (CleanupPhase::AwaitNext, CleanupEvent::Next(None)) => {
                self.stats = record_table_exec(self.stats, self.table, self.table_deleted, false);
                match next_table_exec(self.table) {
                    Some(t) => {
                        self.table = t;
                        self.table_deleted = 0;
                        CleanupAction::Query { table: t, lower_bound: 0, cutoff: cutoff_of(self.plan, t) }
                    },
                    None => {
                        self.phase = CleanupPhase::Finished;
                        CleanupAction::Finish
                    },
                }
            },
            (CleanupPhase::AwaitNext, CleanupEvent::Next(Some(start))) => {
                self.phase = CleanupPhase::AwaitTime { start };
                CleanupAction::CheckDeadline
            },
            (CleanupPhase::AwaitTime { .. }, CleanupEvent::TimeUp(true)) => {
                self.stats = record_table_exec(self.stats, self.table, self.table_deleted, true);
                self.phase = CleanupPhase::Finished;
                CleanupAction::Finish
            },
            (CleanupPhase::AwaitTime { start }, CleanupEvent::TimeUp(false)) => {
                let cutoff = cutoff_of(self.plan, self.table);
                let e = start.saturating_add(self.plan.slice_window_ms);
                let end = if e <= cutoff {
                    e
                } else {
                    cutoff
                };
                self.phase = CleanupPhase::AwaitDelete { end };
                CleanupAction::Delete { table: self.table, start, end }
            },
            (CleanupPhase::AwaitDelete { end }, CleanupEvent::Deleted(n)) => {
                self.table_deleted = self.table_deleted.saturating_add(n);
                self.phase = CleanupPhase::AwaitNext;
                CleanupAction::Query {
                    table: self.table,
                    lower_bound: end,
                    cutoff: cutoff_of(self.plan, self.table),
                }
            },
            _ => CleanupAction::Finish,
        }
    }
}

fn cutoff_of(plan: CleanupPlan, t: CleanupTable) -> (r: u64)
    ensures
        r == plan.cutoff(t),
{
    match t {
        CleanupTable::Raw => plan.cutoff_raw,
        CleanupTable::Minute => plan.cutoff_1m,
        CleanupTable::Hour => plan.cutoff_1h,
        CleanupTable::Day => plan.cutoff_1d,
        CleanupTable::Summaries => plan.cutoff_1d,
    }
}

fn next_table_exec(t: CleanupTable) -> (r: Option<CleanupTable>)
    ensures
        r == next_table(t),
{
    match t {
        CleanupTable::Raw => Some(CleanupTable::Minute),
        CleanupTable::Minute => Some(CleanupTable::Hour),
        CleanupTable::Hour => Some(CleanupTable::Day),
        CleanupTable::Day => Some(CleanupTable::Summaries),
        CleanupTable::Summaries => None,
    }
}

fn record_table_exec(s: CleanupStats, t: CleanupTable, deleted: usize, hit: bool) -> (r: CleanupStats)
    ensures
        r == record_table(s, t, deleted, hit),
{
    let mut r = s;
    match t {
        CleanupTable::Raw => r.deleted_raw = deleted,
        CleanupTable::Minute => r.deleted_1m = deleted,
        CleanupTable::Hour => r.deleted_1h = deleted,
        CleanupTable::Day => r.deleted_1d = deleted,
        CleanupTable::Summaries => r.deleted_summaries = deleted,
    }
    r.budget_hit = hit;
    r
}

/// A slice that starts below the cutoff is never empty and never reaches
/// past the cutoff, and the next query starts where it ended: each step of
/// a table's loop moves strictly forward and stays below the cutoff.
pub proof fn law_slices_advance_below_cutoff(run: CleanupRun, start: u64, n: usize)
    requires
        run.phase == (CleanupPhase::AwaitTime { start }),
        run.plan.slice_window_ms >= 1,
        start < run.plan.cutoff(run.table),
    ensures
        ({
            let (r1, a1) = run.spec_step(CleanupEvent::TimeUp(false));
            let (_r2, a2) = r1.spec_step(CleanupEvent::Deleted(n));
            &&& a1 is Delete
            &&& a1->start == start
            &&& start < a1->end <= run.plan.cutoff(run.table)
            &&& a2 is Query
            &&& a2->lower_bound == a1->end
        }),
{
}

/// Once the deadline has passed the pass stops, with the budget flag set
/// and the rows deleted so far from the current table counted.
pub proof fn law_deadline_stops_pass(run: CleanupRun, start: u64)
    requires
        run.phase == (CleanupPhase::AwaitTime { start }),
    ensures
        ({
            let (r1, a1) = run.spec_step(CleanupEvent::TimeUp(true));
            &&& a1 == CleanupAction::Finish
            &&& r1.phase == CleanupPhase::Finished
            &&& r1.stats.budget_hit
            &&& r1.stats == record_table(run.stats, run.table, run.table_deleted, true)
        }),
{
}

/// Each table is cleaned up to its own retention cutoff: raw rows up to the
/// raw cutoff, minute buckets up to the minute cutoff, hour buckets up to
/// the hour cutoff, day buckets and summaries up to the day cutoff. Every
/// query a pass makes, at its start or after any step, looks below that
/// cutoff, and every deletion ends at or before it.
pub proof fn law_tables_kept_to_their_retention(plan: CleanupPlan, run: CleanupRun, event: CleanupEvent)
    ensures
        ({
            let a = CleanupRun::spec_start(plan).1;
            &&& a is Query && a->Query_table == CleanupTable::Raw ==> a->Query_cutoff == plan.cutoff_raw
            &&& a is Query && a->Query_table == CleanupTable::Minute ==> a->Query_cutoff == plan.cutoff_1m
        }),
        ({
            let a = run.spec_step(event).1;
            &&& a is Query && a->Query_table == CleanupTable::Raw ==> a->Query_cutoff == run.plan.cutoff_raw
            &&& a is Query && a->Query_table == CleanupTable::Minute ==> a->Query_cutoff == run.plan.cutoff_1m
            &&& a is Query && a->Query_table == CleanupTable::Hour ==> a->Query_cutoff == run.plan.cutoff_1h
            &&& a is Query && a->Query_table == CleanupTable::Day ==> a->Query_cutoff == run.plan.cutoff_1d
            &&& a is Query && a->Query_table == CleanupTable::Summaries ==> a->Query_cutoff == run.plan.cutoff_1d
            &&& a is Delete && a->Delete_table == CleanupTable::Day ==> a->Delete_end <= run.plan.cutoff_1d
            &&& a is Delete && a->Delete_table == CleanupTable::Hour ==> a->Delete_end <= run.plan.cutoff_1h
            &&& a is Delete && a->Delete_table == CleanupTable::Minute ==> a->Delete_end <= run.plan.cutoff_1m
            &&& a is Delete && a->Delete_table == CleanupTable::Raw ==> a->Delete_end <= run.plan.cutoff_raw
            &&& a is Delete && a->Delete_table == CleanupTable::Summaries ==> a->Delete_end <= run.plan.cutoff_1d
        }),
{
}

/// A pass goes through the tables from the finest to the coarsest: raw rows
/// (only when asked for), then minute, hour and day buckets, then the
/// summaries, and finishes after the summaries; a table whose rows below
/// the cutoff are gone hands over to the next one, starting from the
/// oldest time.
pub proof fn law_tables_in_order(plan: CleanupPlan, run: CleanupRun)
    ensures
        plan.include_raw ==> CleanupRun::spec_start(plan).0.table == CleanupTable::Raw,
        !plan.include_raw ==> CleanupRun::spec_start(plan).0.table == CleanupTable::Minute,
        run.phase == CleanupPhase::AwaitNext ==> {
            let (r, a) = run.spec_step(CleanupEvent::Next(None));
            &&& run.table == CleanupTable::Raw ==> r.table == CleanupTable::Minute
            &&& run.table == CleanupTable::Minute ==> r.table == CleanupTable::Hour
            &&& run.table == CleanupTable::Hour ==> r.table == CleanupTable::Day
            &&& run.table == CleanupTable::Day ==> r.table == CleanupTable::Summaries
            &&& run.table == CleanupTable::Summaries ==> a == CleanupAction::Finish
            &&& run.table != CleanupTable::Summaries ==> a is Query && a->Query_lower_bound == 0
        },
{
}

} // verus!
