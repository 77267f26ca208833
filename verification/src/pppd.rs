//! The decisions of the PPPoE supervisor: how long to wait before pppd is
//! started again, when a running pppd counts as failed, and when the
//! addresses it got call for new routes. The process handling itself is
//! done by the caller, which hands back what happened.
use vstd::prelude::*;

verus! {

/// Seconds before the first restart.
pub const PPPD_RETRY_BASE_SECS: u64 = 4;

/// The longest wait between two restarts, in seconds.
pub const PPPD_RETRY_MAX_SECS: u64 = 10 * 60;

/// The wait before restart number `failure_count`: 4 seconds, doubled for
/// each failure after the first (at most 31 times), at most 600 seconds.
pub open spec fn spec_backoff(failure_count: u32) -> u64 {
    let exp: nat = if failure_count == 0 {
        0
    } else if failure_count - 1 > 31 {
        31
    } else {
        (failure_count - 1) as nat
    };
    let secs = PPPD_RETRY_BASE_SECS * vstd::arithmetic::power2::pow2(exp);
    if secs > PPPD_RETRY_MAX_SECS {
        PPPD_RETRY_MAX_SECS
    } else {
        secs as u64
    }
}

/// The wait, in seconds, before pppd is started again after
/// `failure_count` failures in a row.
pub fn calc_pppd_retry_backoff_secs(failure_count: u32) -> (r: u64)
    ensures
        r == spec_backoff(failure_count),
{
    let dec = failure_count.saturating_sub(1);
    let exp: u32 = if dec < 31 {
        dec
    } else {
        31
    };
    proof {
        vstd::arithmetic::power2::lemma_pow2_strictly_increases(exp as nat, 32);
        vstd::arithmetic::power2::lemma2_to64();
        assert(1 * vstd::arithmetic::power2::pow2(exp as nat) <= u64::MAX);
        vstd::bits::lemma_u64_shl_is_mul(1, exp as u64);
    }
    let shifted: u64 = 1u64 << (exp as u64);
    assert(shifted == vstd::arithmetic::power2::pow2(exp as nat));
    let secs = match PPPD_RETRY_BASE_SECS.checked_mul(shifted) {
        Some(v) => v,
        None => u64::MAX,
    };
    if secs < PPPD_RETRY_MAX_SECS {
        secs
    } else {
        PPPD_RETRY_MAX_SECS
    }
}

/// What the supervisor saw of pppd.
#[derive(Clone, Copy, Debug, PartialEq, Eq, Structural)]
pub enum PppdEvent {
    /// pppd could not be started.
    SpawnFailed,
    /// pppd was started.
    Spawned,
    /// The once-a-second check found pppd running.
    Running,
    /// The once-a-second check could not tell how pppd is.
    CheckFailed,
    /// pppd exited.
    Exited,
    /// The service is being stopped.
    StopRequested,
}

/// What the supervisor does next.
#[derive(Clone, Copy, Debug, PartialEq, Eq, Structural)]
pub enum PppdAction {
    /// Check pppd again in a second.
    KeepWatching,
    /// Kill pppd if it runs, wait this many seconds, then start it again.
    RestartAfter(u64),
    /// Kill pppd and stop supervising.
    Stop,
}

/// The supervisor's memory: failures in a row, failed checks of the
/// running pppd in a row, and whether this pppd was ever seen running.
#[derive(Clone, Copy, Debug, PartialEq, Eq, Structural)]
pub struct PppdSupervisor {
    pub connect_failure_count: u32,
    pub check_error_times: u32,
    pub healthy_once: bool,
}

pub open spec fn sat_inc(x: u32) -> u32 {
    if x == u32::MAX {
        x
    } else {
        (x + 1) as u32
    }
}

impl PppdSupervisor {
    /// A supervisor that has seen nothing yet.
    pub fn new() -> (r: Self)
        ensures
            r == (PppdSupervisor { connect_failure_count: 0, check_error_times: 0, healthy_once: false }),
    {
        PppdSupervisor { connect_failure_count: 0, check_error_times: 0, healthy_once: false }
    }

    /// The supervisor after a failure: one more in a row, and the wait that
    /// follows.
    pub open spec fn after_failure(self) -> (PppdSupervisor, PppdAction) {
        let count = sat_inc(self.connect_failure_count);
        (
            PppdSupervisor { connect_failure_count: count, ..self },
            PppdAction::RestartAfter(spec_backoff(count)),
        )
    }

    /// The next state and action of the supervisor on `event`.
    pub open spec fn spec_step(self, event: PppdEvent) -> (PppdSupervisor, PppdAction) {
        match event {
            PppdEvent::SpawnFailed => self.after_failure(),
            PppdEvent::Spawned => (
                PppdSupervisor { check_error_times: 0, healthy_once: false, ..self },
                PppdAction::KeepWatching,
            ),
            PppdEvent::Running => (
                PppdSupervisor {
                    check_error_times: 0,
                    healthy_once: true,
                    connect_failure_count: if self.healthy_once {
                        self.connect_failure_count
                    } else {
                        0
                    },
                },
                PppdAction::KeepWatching,
            ),
            PppdEvent::CheckFailed => if self.check_error_times > 3 {
                self.after_failure()
            } else {
                (
                    PppdSupervisor { check_error_times: (self.check_error_times + 1) as u32, ..self },
                    PppdAction::KeepWatching,
                )
            },
            PppdEvent::Exited => self.after_failure(),
            PppdEvent::StopRequested => (self, PppdAction::Stop),
        }
    }

    /// Takes in what was seen of pppd and answers what to do next. A
    /// failure to start, an exit, or a fifth failed check in a row counts
    /// as a failure and calls for a restart after the backoff; pppd seen
    /// running for the first time clears the failure count.
    pub fn step(&mut self, event: PppdEvent) -> (r: PppdAction)
        ensures
            (*final(self), r) == old(self).spec_step(event),
    {
        match event {
            PppdEvent::SpawnFailed | PppdEvent::Exited => {
                self.connect_failure_count = self.connect_failure_count.saturating_add(1);
                PppdAction::RestartAfter(calc_pppd_retry_backoff_secs(self.connect_failure_count))
            },
            PppdEvent::Spawned => {
                self.check_error_times = 0;
                self.healthy_once = false;
                PppdAction::KeepWatching
            },
            PppdEvent::Running => {
                self.check_error_times = 0;
                if !self.healthy_once {
                    self.healthy_once = true;
                    self.connect_failure_count = 0;
                }
                PppdAction::KeepWatching
            },
            PppdEvent::CheckFailed => {
                if self.check_error_times > 3 {
                    self.connect_failure_count = self.connect_failure_count.saturating_add(1);
                    PppdAction::RestartAfter(
                        calc_pppd_retry_backoff_secs(self.connect_failure_count),
                    )
                } else {
                    self.check_error_times = self.check_error_times + 1;
                    PppdAction::KeepWatching
                }
            },
            PppdEvent::StopRequested => PppdAction::Stop,
        }
    }
}

/// The addresses of the PPP link: its index, its own address and its peer's.
pub type PppAddress = (u32, Option<u32>, Option<u32>);

/// The link's addresses call for new routes: they differ from the last
/// ones seen, and both the local and the peer address are known.
pub fn ppp_routes_needed(previous: Option<PppAddress>, current: PppAddress) -> (r: bool)
    ensures
        r == ((previous != Some(current)) && current.1 is Some && current.2 is Some),
{
    let changed = match previous {
        Some(p) => p.0 != current.0 || p.1 != current.1 || p.2 != current.2,
        None => true,
    };
    changed && current.1.is_some() && current.2.is_some()
}

/// The wait never exceeds ten minutes, never falls below four seconds, and
/// does not shrink as failures add up.
pub proof fn law_backoff_bounded_and_monotone(a: u32, b: u32)
    ensures
        PPPD_RETRY_BASE_SECS <= spec_backoff(a) <= PPPD_RETRY_MAX_SECS,
        a <= b ==> spec_backoff(a) <= spec_backoff(b),
{
    let ea: nat = if a == 0 {
        0
    } else if a - 1 > 31 {
        31
    } else {
        (a - 1) as nat
    };
    let eb: nat = if b == 0 {
        0
    } else if b - 1 > 31 {
        31
    } else {
        (b - 1) as nat
    };
    vstd::arithmetic::power2::lemma_pow2_pos(ea);
    if a <= b && ea < eb {
        vstd::arithmetic::power2::lemma_pow2_strictly_increases(ea, eb);
    }
}

/// Once pppd has been seen running, the next failure waits only the base
/// four seconds.
pub proof fn law_healthy_run_resets_backoff(s: PppdSupervisor)
    requires
        !s.healthy_once,
    ensures
        s.spec_step(PppdEvent::Running).0.spec_step(PppdEvent::Exited).1 == PppdAction::RestartAfter(
            PPPD_RETRY_BASE_SECS,
        ),
{
    assert(vstd::arithmetic::power2::pow2(0) == 1) by {
        vstd::arithmetic::power2::lemma2_to64();
    }
}

} // verus!
