//! The background scheduler's decision rules.
//!
//! The liveness report and the daily health check run on two
//! independently ticking timers, started after a short startup delay;
//! the health timer's first tick is consumed so its reports land on true
//! day boundaries. The decisions — which job fires at a given second,
//! how the timers advance, when the loop stops — are a pure transition
//! function here; the embedding program owns the loop: it sleeps until
//! the returned deadline, performs the returned action, and feeds the
//! clock and the cancellation flag back in.

use vstd::prelude::*;

verus! {

/// Seconds the scheduler waits after start before the first tick, so
/// the rest of the process finishes starting.
pub const STARTUP_DELAY_SECS: u64 = 5;

/// Period of the liveness (heartbeat) timer, in seconds.
pub const HEARTBEAT_PERIOD_SECS: u64 = 600;

/// Period of the health-check timer, in seconds.
pub const HEALTH_CHECK_PERIOD_SECS: u64 = 86400;

/// What the loop driver must do next.
#[derive(Clone, Copy, PartialEq, Eq, Structural, Debug)]
pub enum SchedulerAction {
    /// Nothing is due: sleep until the given second, then ask again.
    WaitUntil(u64),
    /// The liveness timer fired: send a heartbeat.
    SendHeartbeat,
    /// The health timer fired: gather and log the daily summary.
    RunHealthCheck,
    /// The cancellation signal was observed: leave the loop.
    Stop,
}

/// The scheduler's state: the next second each timer is due.
#[derive(Clone, Copy, PartialEq, Eq, Structural, Debug)]
pub struct SchedulerState {
    pub heartbeat_due: u64,
    pub health_due: u64,
}

/// The state the loop starts in: the first heartbeat is due after the
/// startup delay, and the health timer's first tick is consumed — its
/// first report is due one full period after the timers start.
pub open spec fn spec_init(now: u64) -> SchedulerState {
    SchedulerState {
        heartbeat_due: (now + STARTUP_DELAY_SECS) as u64,
        health_due: (now + STARTUP_DELAY_SECS + HEALTH_CHECK_PERIOD_SECS) as u64,
    }
}

/// One decision: stop when cancelled; otherwise fire whichever timer is
/// due, the earlier one first (the heartbeat on a tie), advancing only
/// that timer by its period; otherwise wait for the earlier deadline.
pub open spec fn spec_next(s: SchedulerState, now: u64, cancelled: bool) -> (
    SchedulerAction,
    SchedulerState,
) {
    if cancelled {
        (SchedulerAction::Stop, s)
    } else if now >= s.heartbeat_due && s.heartbeat_due <= s.health_due {
        (
            SchedulerAction::SendHeartbeat,
            SchedulerState {
                heartbeat_due: (s.heartbeat_due + HEARTBEAT_PERIOD_SECS) as u64,
                ..s
            },
        )
    } else if now >= s.health_due {
        (
            SchedulerAction::RunHealthCheck,
            SchedulerState { health_due: (s.health_due + HEALTH_CHECK_PERIOD_SECS) as u64, ..s },
        )
    } else {
        (
            SchedulerAction::WaitUntil(
                if s.heartbeat_due <= s.health_due {
                    s.heartbeat_due
                } else {
                    s.health_due
                },
            ),
            s,
        )
    }
}

/// Builds the starting state, exactly as [`spec_init`] says.
pub fn scheduler_init(now: u64) -> (r: SchedulerState)
    requires
        now + STARTUP_DELAY_SECS + HEALTH_CHECK_PERIOD_SECS <= u64::MAX,
    ensures
        r == spec_init(now),
{
    SchedulerState {
        heartbeat_due: now + STARTUP_DELAY_SECS,
        health_due: now + STARTUP_DELAY_SECS + HEALTH_CHECK_PERIOD_SECS,
    }
}

/// Takes one decision, exactly as [`spec_next`] says.
pub fn scheduler_next(s: SchedulerState, now: u64, cancelled: bool) -> (r: (
    SchedulerAction,
    SchedulerState,
))
    requires
        s.heartbeat_due + HEARTBEAT_PERIOD_SECS <= u64::MAX,
        s.health_due + HEALTH_CHECK_PERIOD_SECS <= u64::MAX,
    ensures
        r == spec_next(s, now, cancelled),
{
    if cancelled {
        (SchedulerAction::Stop, s)
    } else if now >= s.heartbeat_due && s.heartbeat_due <= s.health_due {
        (
            SchedulerAction::SendHeartbeat,
            SchedulerState { heartbeat_due: s.heartbeat_due + HEARTBEAT_PERIOD_SECS, ..s },
        )
    } else if now >= s.health_due {
        (
            SchedulerAction::RunHealthCheck,
            SchedulerState { health_due: s.health_due + HEALTH_CHECK_PERIOD_SECS, ..s },
        )
    } else {
        (
            SchedulerAction::WaitUntil(
                if s.heartbeat_due <= s.health_due {
                    s.heartbeat_due
                } else {
                    s.health_due
                },
            ),
            s,
        )
    }
}

/// Tick alignment of the health check: it does not fire when the loop
/// starts — at the moment the timers come up, the liveness timer fires
/// instead, and the first health report is due exactly one period after
/// the startup delay; and every health firing advances its deadline by
/// exactly one period while leaving the liveness timer alone, so the
/// health check fires exactly once per period thereafter.
pub proof fn lemma_health_tick_alignment(now: u64, s: SchedulerState, t: u64, cancelled: bool)
    requires
        now + STARTUP_DELAY_SECS + HEALTH_CHECK_PERIOD_SECS <= u64::MAX,
        s.health_due + HEALTH_CHECK_PERIOD_SECS <= u64::MAX,
    ensures
        spec_init(now).health_due == now + STARTUP_DELAY_SECS + HEALTH_CHECK_PERIOD_SECS,
        spec_next(spec_init(now), (now + STARTUP_DELAY_SECS) as u64, false).0
            == SchedulerAction::SendHeartbeat,
        spec_next(s, t, cancelled).0 is RunHealthCheck ==> !cancelled && t >= s.health_due
            && spec_next(s, t, cancelled).1.health_due == s.health_due + HEALTH_CHECK_PERIOD_SECS
            && spec_next(s, t, cancelled).1.heartbeat_due == s.heartbeat_due,
        !(spec_next(s, t, cancelled).0 is RunHealthCheck) ==> spec_next(
            s,
            t,
            cancelled,
        ).1.health_due == s.health_due,
{
}

/// Cancellation wins: whatever the timers say, an observed cancellation
/// stops the loop and leaves the state untouched.
pub proof fn lemma_cancellation_stops(s: SchedulerState, t: u64)
    ensures
        spec_next(s, t, true) == (SchedulerAction::Stop, s),
{
}

} // verus!
