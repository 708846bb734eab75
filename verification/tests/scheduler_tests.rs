use agent_core::scheduler::{
    scheduler_init, scheduler_next, SchedulerAction, SchedulerState, HEALTH_CHECK_PERIOD_SECS,
    HEARTBEAT_PERIOD_SECS, STARTUP_DELAY_SECS,
};

#[test]
fn init_consumes_first_health_tick() {
    let s = scheduler_init(1000);
    assert_eq!(s.heartbeat_due, 1000 + STARTUP_DELAY_SECS);
    assert_eq!(s.health_due, 1000 + STARTUP_DELAY_SECS + HEALTH_CHECK_PERIOD_SECS);
}

#[test]
fn health_check_does_not_fire_at_start() {
    let s = scheduler_init(1000);
    // at the moment the timers come up, the liveness timer fires, not
    // the health one
    let (action, s2) = scheduler_next(s, 1000 + STARTUP_DELAY_SECS, false);
    assert_eq!(action, SchedulerAction::SendHeartbeat);
    assert_eq!(s2.health_due, s.health_due);
}

#[test]
fn health_check_fires_once_per_period() {
    let start: u64 = 0;
    let mut s = scheduler_init(start);
    let mut now: u64 = start;
    let mut health_fires: u64 = 0;
    let horizon = start + STARTUP_DELAY_SECS + 2 * HEALTH_CHECK_PERIOD_SECS + 1;
    while now <= horizon {
        let (action, next) = scheduler_next(s, now, false);
        s = next;
        match action {
            SchedulerAction::WaitUntil(t) => {
                assert!(t > now);
                now = t;
            },
            SchedulerAction::RunHealthCheck => {
                health_fires += 1;
                // the first report lands one full period after the
                // timers start, the next exactly one period later
                assert_eq!(
                    now,
                    start + STARTUP_DELAY_SECS + health_fires * HEALTH_CHECK_PERIOD_SECS
                );
            },
            SchedulerAction::SendHeartbeat => {},
            SchedulerAction::Stop => unreachable!(),
        }
    }
    assert_eq!(health_fires, 2);
}

#[test]
fn heartbeats_fire_every_period() {
    let mut s = scheduler_init(0);
    let (a1, s1) = scheduler_next(s, STARTUP_DELAY_SECS, false);
    assert_eq!(a1, SchedulerAction::SendHeartbeat);
    s = s1;
    // nothing more is due until one liveness period has passed
    let (a2, s2) = scheduler_next(s, STARTUP_DELAY_SECS + 1, false);
    assert_eq!(a2, SchedulerAction::WaitUntil(STARTUP_DELAY_SECS + HEARTBEAT_PERIOD_SECS));
    s = s2;
    let (a3, _) = scheduler_next(s, STARTUP_DELAY_SECS + HEARTBEAT_PERIOD_SECS, false);
    assert_eq!(a3, SchedulerAction::SendHeartbeat);
}

#[test]
fn cancellation_stops_the_loop() {
    let s = SchedulerState { heartbeat_due: 10, health_due: 20 };
    // whatever is due, an observed cancellation stops the loop
    let (action, s2) = scheduler_next(s, 1_000_000, true);
    assert_eq!(action, SchedulerAction::Stop);
    assert_eq!(s2, s);
}
