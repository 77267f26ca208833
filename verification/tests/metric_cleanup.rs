use landscape::metric_cleanup::{
    cleanup_budget_ms, cleanup_plan, CleanupAction, CleanupEvent, CleanupRun, CleanupTable,
};

#[test]
fn plan_and_budget_have_floors() {
    let p = cleanup_plan(true, 1, 2, 3, 4, 0);
    assert_eq!(p.slice_window_ms, 1000);
    assert_eq!(cleanup_plan(false, 1, 2, 3, 4, 60).slice_window_ms, 60_000);
    assert_eq!(cleanup_budget_ms(0), 1);
    assert_eq!(cleanup_budget_ms(250), 250);
    assert_eq!(CleanupTable::Summaries.table_name(), "conn_summaries");
    assert_eq!(CleanupTable::Summaries.time_column(), "last_report_time");
    assert_eq!(CleanupTable::Minute.time_column(), "report_time");
}

#[test]
fn pass_deletes_in_slices_and_moves_through_tables() {
    let plan = cleanup_plan(false, 0, 10_000, 20_000, 30_000, 4);
    let (mut run, first) = CleanupRun::start(plan);
    assert_eq!(first, CleanupAction::Query { table: CleanupTable::Minute, lower_bound: 0, cutoff: 10_000 });
    assert_eq!(run.step(CleanupEvent::Next(Some(3_000))), CleanupAction::CheckDeadline);
    assert_eq!(
        run.step(CleanupEvent::TimeUp(false)),
        CleanupAction::Delete { table: CleanupTable::Minute, start: 3_000, end: 7_000 }
    );
    assert_eq!(
        run.step(CleanupEvent::Deleted(5)),
        CleanupAction::Query { table: CleanupTable::Minute, lower_bound: 7_000, cutoff: 10_000 }
    );
    run.step(CleanupEvent::Next(Some(8_000)));
    assert_eq!(
        run.step(CleanupEvent::TimeUp(false)),
        CleanupAction::Delete { table: CleanupTable::Minute, start: 8_000, end: 10_000 }
    );
    run.step(CleanupEvent::Deleted(2));
    assert_eq!(
        run.step(CleanupEvent::Next(None)),
        CleanupAction::Query { table: CleanupTable::Hour, lower_bound: 0, cutoff: 20_000 }
    );
    assert_eq!(run.stats.deleted_1m, 7);
    run.step(CleanupEvent::Next(None));
    assert_eq!(
        run.step(CleanupEvent::Next(None)),
        CleanupAction::Query { table: CleanupTable::Summaries, lower_bound: 0, cutoff: 30_000 }
    );
    assert_eq!(run.step(CleanupEvent::Next(None)), CleanupAction::Finish);
    assert!(!run.stats.budget_hit);
    assert_eq!(run.stats.deleted_raw, 0);
}

#[test]
fn raw_table_comes_first_when_included() {
    let plan = cleanup_plan(true, 500, 1, 2, 3, 1);
    let (_run, first) = CleanupRun::start(plan);
    assert_eq!(first, CleanupAction::Query { table: CleanupTable::Raw, lower_bound: 0, cutoff: 500 });
}

#[test]
fn deadline_stops_the_pass_with_counts_so_far() {
    let plan = cleanup_plan(false, 0, 10_000, 20_000, 30_000, 1);
    let (mut run, _) = CleanupRun::start(plan);
    run.step(CleanupEvent::Next(Some(0)));
    run.step(CleanupEvent::TimeUp(false));
    run.step(CleanupEvent::Deleted(9));
    run.step(CleanupEvent::Next(Some(1_000)));
    assert_eq!(run.step(CleanupEvent::TimeUp(true)), CleanupAction::Finish);
    assert!(run.stats.budget_hit);
    assert_eq!(run.stats.deleted_1m, 9);
    // Once over, nothing more happens.
    assert_eq!(run.step(CleanupEvent::Next(Some(5))), CleanupAction::Finish);
    assert_eq!(run.stats.deleted_1m, 9);
}
