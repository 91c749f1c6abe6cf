use camloc_server::tick::{TickDecision, TickScheduler};

#[test]
fn fresh_fix_is_published_as_is() {
    let mut s = TickScheduler::new(Some(500));
    assert_eq!(s.tick(100, true), TickDecision::Fresh { time: 100 });
    assert_eq!(s.last_fresh, Some(100));
}

#[test]
fn stale_tick_extrapolates_within_horizon() {
    let mut s = TickScheduler::new(Some(500));
    s.tick(100, true);
    assert_eq!(s.tick(350, false), TickDecision::Extrapolate { time: 350, from: 100, by: 250 });
    assert_eq!(s.tick(600, false), TickDecision::Extrapolate { time: 600, from: 100, by: 500 });
}

#[test]
fn horizon_exceeded_is_unavailable() {
    let mut s = TickScheduler::new(Some(500));
    s.tick(100, true);
    s.tick(300, false);
    assert_eq!(s.tick(601, false), TickDecision::Unavailable { time: 601 });
    assert_eq!(s.tick(900, false), TickDecision::Unavailable { time: 900 });
    assert_eq!(s.tick(950, true), TickDecision::Fresh { time: 950 });
    assert_eq!(s.tick(1000, false), TickDecision::Extrapolate { time: 1000, from: 950, by: 50 });
}

#[test]
fn no_fix_yet_is_unavailable() {
    let mut s = TickScheduler::new(Some(500));
    assert_eq!(s.tick(10, false), TickDecision::Unavailable { time: 10 });
}

#[test]
fn disabled_extrapolation_drops_stale_position() {
    let mut s = TickScheduler::new(None);
    assert_eq!(s.tick(100, true), TickDecision::Fresh { time: 100 });
    assert_eq!(s.tick(101, false), TickDecision::Unavailable { time: 101 });
}

#[test]
fn time_never_goes_backwards() {
    let mut s = TickScheduler::new(Some(500));
    s.tick(400, true);
    assert_eq!(s.tick(300, true), TickDecision::Fresh { time: 400 });
    assert_eq!(s.tick(200, false), TickDecision::Unavailable { time: 400 });
    assert_eq!(s.last_time, 400);
}
