use dengbot::supervisor::{LinkAction, LinkEvent, LinkState, Supervisor, RECONNECT_DELAY_SECS};

#[test]
fn one_reconnect_per_delay_of_downtime() {
    let mut s = Supervisor::new();
    assert_eq!(s.step(LinkEvent::Up, 0), LinkAction::Idle);
    assert_eq!(s.state, LinkState::Connected);
    assert_eq!(s.step(LinkEvent::Down, 100), LinkAction::WaitUntil(110));
    let mut attempts = 0;
    for t in 101..=160u64 {
        if s.step(LinkEvent::Tick, t) == LinkAction::Connect {
            attempts += 1;
            assert_eq!(t % RECONNECT_DELAY_SECS, 0);
            assert_eq!(s.step(LinkEvent::Down, t), LinkAction::WaitUntil(t + RECONNECT_DELAY_SECS));
        }
    }
    assert_eq!(attempts, 6);
    assert_eq!(s.reconnects, 6);
}

#[test]
fn no_reconnect_before_the_delay() {
    let mut s = Supervisor::new();
    s.step(LinkEvent::Down, 50);
    for t in 50..60u64 {
        assert_eq!(s.step(LinkEvent::Tick, t), LinkAction::WaitUntil(60));
    }
    assert_eq!(s.step(LinkEvent::Tick, 60), LinkAction::Connect);
    assert_eq!(s.state, LinkState::Connecting);
}

#[test]
fn reconnect_then_stay_up() {
    let mut s = Supervisor::new();
    s.step(LinkEvent::Down, 0);
    assert_eq!(s.step(LinkEvent::Tick, 10), LinkAction::Connect);
    assert_eq!(s.step(LinkEvent::Up, 11), LinkAction::Idle);
    for t in 12..100u64 {
        assert_eq!(s.step(LinkEvent::Tick, t), LinkAction::Idle);
    }
    assert_eq!(s.reconnects, 1);
    assert_eq!(s.state, LinkState::Connected);
}

#[test]
fn down_while_waiting_keeps_the_retry_time() {
    let mut s = Supervisor::new();
    s.step(LinkEvent::Down, 0);
    assert_eq!(s.step(LinkEvent::Down, 5), LinkAction::WaitUntil(10));
    assert_eq!(s.retry_at, 10);
}
