use landscape::pppd::{
    calc_pppd_retry_backoff_secs, ppp_routes_needed, PppdAction, PppdEvent, PppdSupervisor,
    PPPD_RETRY_BASE_SECS, PPPD_RETRY_MAX_SECS,
};

#[test]
fn backoff_doubles_up_to_ten_minutes() {
    assert_eq!(calc_pppd_retry_backoff_secs(0), 4);
    assert_eq!(calc_pppd_retry_backoff_secs(1), 4);
    assert_eq!(calc_pppd_retry_backoff_secs(2), 8);
    assert_eq!(calc_pppd_retry_backoff_secs(5), 64);
    assert_eq!(calc_pppd_retry_backoff_secs(8), 512);
    assert_eq!(calc_pppd_retry_backoff_secs(9), 600);
    assert_eq!(calc_pppd_retry_backoff_secs(u32::MAX), PPPD_RETRY_MAX_SECS);
    let mut last = 0;
    for n in 0..100 {
        let b = calc_pppd_retry_backoff_secs(n);
        assert!(PPPD_RETRY_BASE_SECS <= b && b <= PPPD_RETRY_MAX_SECS);
        assert!(last <= b);
        last = b;
    }
}

#[test]
fn supervisor_restarts_with_growing_wait() {
    let mut s = PppdSupervisor::new();
    assert_eq!(s.step(PppdEvent::SpawnFailed), PppdAction::RestartAfter(4));
    assert_eq!(s.step(PppdEvent::SpawnFailed), PppdAction::RestartAfter(8));
    assert_eq!(s.step(PppdEvent::Spawned), PppdAction::KeepWatching);
    assert_eq!(s.step(PppdEvent::Exited), PppdAction::RestartAfter(16));
    assert_eq!(s.connect_failure_count, 3);
}

#[test]
fn healthy_run_resets_backoff() {
    let mut s = PppdSupervisor::new();
    s.step(PppdEvent::Exited);
    s.step(PppdEvent::Exited);
    s.step(PppdEvent::Spawned);
    assert_eq!(s.step(PppdEvent::Running), PppdAction::KeepWatching);
    assert_eq!(s.connect_failure_count, 0);
    assert!(s.healthy_once);
    assert_eq!(s.step(PppdEvent::Exited), PppdAction::RestartAfter(4));
}

#[test]
fn five_failed_checks_restart() {
    let mut s = PppdSupervisor::new();
    s.step(PppdEvent::Spawned);
    for _ in 0..4 {
        assert_eq!(s.step(PppdEvent::CheckFailed), PppdAction::KeepWatching);
    }
    assert_eq!(s.check_error_times, 4);
    assert_eq!(s.step(PppdEvent::CheckFailed), PppdAction::RestartAfter(4));
    assert_eq!(s.step(PppdEvent::StopRequested), PppdAction::Stop);
}

#[test]
fn routes_needed_only_on_new_complete_address() {
    let a = (0x0a00_0001, Some(0x0a00_00fe), Some(0xffff_ffff));
    assert!(ppp_routes_needed(None, a));
    assert!(!ppp_routes_needed(Some(a), a));
    assert!(ppp_routes_needed(Some((1, a.1, a.2)), a));
    assert!(!ppp_routes_needed(None, (1, None, Some(2))));
    assert!(!ppp_routes_needed(None, (1, Some(2), None)));
}
