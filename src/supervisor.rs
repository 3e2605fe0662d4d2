//! Supervision of a producer connection (the event stream, or the leaderboard
//! request listener): the decisions of its retry loop, as a state machine.
//!
//! The caller runs the loop. It reports what happened (`LinkEvent`) with the
//! current time and performs the returned `LinkAction`: connect, or wait until
//! the given instant. After every failed attempt or lost connection the next
//! attempt comes after a fixed delay, indefinitely.
use crate::daycycle::LATEST_INSTANT;
use vstd::prelude::*;

verus! {

/// Delay between losing a connection, or failing to make one, and the next
/// attempt, in seconds.
pub const RECONNECT_DELAY_SECS: u64 = 10;

#[derive(PartialEq, Eq, Structural, Clone, Copy, Debug)]
pub enum LinkState {
    /// An attempt to connect is under way.
    Connecting,
    /// The connection is up.
    Connected,
    /// Waiting for the next attempt.
    Waiting,
}

#[derive(PartialEq, Eq, Structural, Clone, Copy, Debug)]
pub enum LinkEvent {
    /// Time has passed; the supervisor may act.
    Tick,
    /// The attempt under way succeeded.
    Up,
    /// The attempt under way failed, or the connection was lost.
    Down,
}

#[derive(PartialEq, Eq, Structural, Clone, Copy, Debug)]
pub enum LinkAction {
    /// Attempt to connect now, then report `Up` or `Down`.
    Connect,
    /// Nothing to do before the given instant.
    WaitUntil(u64),
    /// Nothing to do until the connection reports.
    Idle,
}

#[derive(PartialEq, Eq, Structural, Clone, Copy, Debug)]
pub struct Supervisor {
    pub state: LinkState,
    /// When waiting: the instant of the next attempt.
    pub retry_at: u64,
    /// Attempts made after the first, that is reconnections (saturating).
    pub reconnects: u64,
}

/// The supervisor's transition on `event` at `now`: the next supervisor and
/// the action to perform.
pub open spec fn supervise(s: Supervisor, event: LinkEvent, now: u64) -> (Supervisor, LinkAction) {
    match event {
        LinkEvent::Tick => if s.state == LinkState::Waiting {
            if now >= s.retry_at {
                (
                    Supervisor {
                        state: LinkState::Connecting,
                        reconnects: if s.reconnects < u64::MAX {
                            (s.reconnects + 1) as u64
                        } else {
                            s.reconnects
                        },
                        ..s
                    },
                    LinkAction::Connect,
                )
            } else {
                (s, LinkAction::WaitUntil(s.retry_at))
            }
        } else {
            (s, LinkAction::Idle)
        },
        LinkEvent::Up => if s.state == LinkState::Connecting {
            (Supervisor { state: LinkState::Connected, ..s }, LinkAction::Idle)
        } else {
            (s, LinkAction::Idle)
        },
        LinkEvent::Down => if s.state == LinkState::Waiting {
            (s, LinkAction::WaitUntil(s.retry_at))
        } else {
            let at = (now + RECONNECT_DELAY_SECS) as u64;
            (Supervisor { state: LinkState::Waiting, retry_at: at, ..s }, LinkAction::WaitUntil(at))
        },
    }
}

impl Supervisor {
    /// A supervisor about to make its first attempt.
    pub fn new() -> (r: Self)
        ensures
            r.state == LinkState::Connecting,
            r.reconnects == 0,
    {
        Supervisor { state: LinkState::Connecting, retry_at: 0, reconnects: 0 }
    }

    /// Takes `event`, which happened at `now`, and returns what to do next.
    pub fn step(&mut self, event: LinkEvent, now: u64) -> (a: LinkAction)
        requires
            now <= LATEST_INSTANT,
        ensures
            (*final(self), a) == supervise(*old(self), event, now),
    {
        match event {
            LinkEvent::Tick => {
                if self.state == LinkState::Waiting {
                    if now >= self.retry_at {
                        self.state = LinkState::Connecting;
                        if self.reconnects < u64::MAX {
                            self.reconnects = self.reconnects + 1;
                        }
                        LinkAction::Connect
                    } else {
                        LinkAction::WaitUntil(self.retry_at)
                    }
                } else {
                    LinkAction::Idle
                }
            },
            LinkEvent::Up => {
                if self.state == LinkState::Connecting {
                    self.state = LinkState::Connected;
                }
                LinkAction::Idle
            },
            LinkEvent::Down => {
                if self.state == LinkState::Waiting {
                    LinkAction::WaitUntil(self.retry_at)
                } else {
                    let at = now + RECONNECT_DELAY_SECS;
                    self.state = LinkState::Waiting;
                    self.retry_at = at;
                    LinkAction::WaitUntil(at)
                }
            },
        }
    }
}

} // verus!
