use enma::application::lifecycle::{Lifecycle, Phase, Progress, GRACE_PERIOD, REPORT_INTERVAL};

fn serving(connections: usize) -> Lifecycle {
    let mut lifecycle = Lifecycle::new();
    lifecycle.listening();
    for _ in 0..connections {
        assert!(lifecycle.accept());
    }
    lifecycle
}

#[test]
fn grace_period_is_thirty_seconds_reported_every_second() {
    assert_eq!(GRACE_PERIOD, 30_000);
    assert_eq!(REPORT_INTERVAL, 1_000);
}

#[test]
fn starts_in_starting_and_serves_once_listening() {
    let mut lifecycle = Lifecycle::new();
    assert_eq!(lifecycle.phase(), Phase::Starting);
    assert_eq!(lifecycle.connection_count(), 0);
    assert!(!lifecycle.accept());
    lifecycle.listening();
    assert_eq!(lifecycle.phase(), Phase::Serving);
    assert!(lifecycle.accept());
    assert_eq!(lifecycle.connection_count(), 1);
}

#[test]
fn counts_connections_up_and_down() {
    let mut lifecycle = serving(3);
    assert_eq!(lifecycle.connection_count(), 3);
    lifecycle.close(10);
    assert_eq!(lifecycle.connection_count(), 2);
    assert_eq!(lifecycle.phase(), Phase::Serving);
    assert_eq!(lifecycle.tick(20), Progress::Idle);
}

#[test]
fn count_never_goes_below_zero() {
    let mut lifecycle = serving(1);
    lifecycle.close(1);
    lifecycle.close(2);
    lifecycle.close(3);
    assert_eq!(lifecycle.connection_count(), 0);
    assert_eq!(lifecycle.phase(), Phase::Serving);
}

#[test]
fn drain_ends_when_all_connections_complete() {
    // four connections, all done within five seconds of the signal
    let mut lifecycle = serving(4);
    lifecycle.graceful_shutdown(100_000);
    assert_eq!(lifecycle.phase(), Phase::Draining { since: 100_000 });
    lifecycle.close(101_000);
    assert_eq!(lifecycle.tick(101_000), Progress::Waiting { alive: 3 });
    lifecycle.close(102_500);
    lifecycle.close(104_000);
    assert_eq!(lifecycle.tick(104_000), Progress::Waiting { alive: 1 });
    assert!(!lifecycle.is_stopped());
    lifecycle.close(105_000);
    assert_eq!(lifecycle.phase(), Phase::Stopped { at: 105_000 });
    assert!(lifecycle.is_stopped());
    assert_eq!(lifecycle.connection_count(), 0);
    // the grace period passing later changes nothing
    assert_eq!(lifecycle.tick(130_000), Progress::Idle);
    assert_eq!(lifecycle.phase(), Phase::Stopped { at: 105_000 });
}

#[test]
fn connection_that_never_completes_is_closed_at_the_grace_boundary() {
    let mut lifecycle = serving(3);
    lifecycle.graceful_shutdown(0);
    lifecycle.close(1_000);
    lifecycle.close(2_000);
    let mut now = 0;
    while now + REPORT_INTERVAL < GRACE_PERIOD {
        now += REPORT_INTERVAL;
        if now >= 2_000 {
            assert_eq!(lifecycle.tick(now), Progress::Waiting { alive: 1 });
        } else {
            lifecycle.tick(now);
        }
        assert!(!lifecycle.is_stopped());
    }
    assert_eq!(now, 29_000);
    assert_eq!(lifecycle.tick(29_999), Progress::Waiting { alive: 1 });
    assert_eq!(lifecycle.tick(30_000), Progress::Forced { closed: 1 });
    assert_eq!(lifecycle.phase(), Phase::Stopped { at: 30_000 });
    assert_eq!(lifecycle.connection_count(), 0);
}

#[test]
fn draining_refuses_new_connections() {
    let mut lifecycle = serving(1);
    lifecycle.graceful_shutdown(0);
    assert!(!lifecycle.accept());
    assert_eq!(lifecycle.connection_count(), 1);
}

#[test]
fn signal_without_connections_stops_at_once() {
    let mut lifecycle = serving(0);
    lifecycle.graceful_shutdown(42);
    assert_eq!(lifecycle.phase(), Phase::Stopped { at: 42 });
}

#[test]
fn signal_before_serving_stops() {
    let mut lifecycle = Lifecycle::new();
    lifecycle.graceful_shutdown(7);
    assert_eq!(lifecycle.phase(), Phase::Stopped { at: 7 });
    lifecycle.listening();
    assert_eq!(lifecycle.phase(), Phase::Stopped { at: 7 });
    assert!(!lifecycle.accept());
}

#[test]
fn second_signal_does_not_restart_the_grace_period() {
    let mut lifecycle = serving(1);
    lifecycle.graceful_shutdown(1_000);
    lifecycle.graceful_shutdown(20_000);
    assert_eq!(lifecycle.phase(), Phase::Draining { since: 1_000 });
    assert_eq!(lifecycle.tick(31_000), Progress::Forced { closed: 1 });
}

#[test]
fn clock_before_the_signal_is_within_the_grace_period() {
    let mut lifecycle = serving(1);
    lifecycle.graceful_shutdown(50_000);
    assert_eq!(lifecycle.tick(10), Progress::Waiting { alive: 1 });
    assert_eq!(lifecycle.phase(), Phase::Draining { since: 50_000 });
}
