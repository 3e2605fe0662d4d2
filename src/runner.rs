//! The event dispatcher: the single consumer of the event queue and the sole
//! owner of the day window. For each event it rolls the window forward, makes
//! the scoring decision, and hands back the record to store.
//!
//! Storing is left to the caller. A record that fails to store is dropped:
//! the window has already moved on, which makes delivery at most once.
use crate::daycycle::{
    DayCycle, DayWindow, LATEST_INSTANT, day_anchor, registered_after_roll, rolled_window, rolls_to,
    window_length_ok,
};
use crate::platform::now_secs;
use crate::types::{Broadcast, NewDeng};
use vstd::prelude::*;

verus! {

/// The decision on a check-in by `user` at `now`: the window rolls forward to
/// `now`, the record is the first of the window when nobody has registered
/// in it yet and the user's first when the user has not, and the user is then
/// registered.
pub open spec fn qualifies(
    pre: DayWindow,
    user: Seq<char>,
    now: int,
    post: DayWindow,
    day_first: bool,
    user_first: bool,
) -> bool {
    let reg = registered_after_roll(pre, now);
    &&& rolled_window(pre, now, post)
    &&& day_first == reg.is_empty()
    &&& user_first == !reg.contains(user)
    &&& post.registered == reg.insert(user)
}

/// One event as the dispatcher saw it: a check-in (`qualifying`) with the
/// flags of its record, or any other event, at `now`.
pub struct DispatchStep {
    pub qualifying: bool,
    pub user: Seq<char>,
    pub now: int,
    pub day_first: bool,
    pub user_first: bool,
}

/// `post` is the window after `pre` handles the event `s`.
pub open spec fn step_ok(pre: DayWindow, s: DispatchStep, post: DayWindow) -> bool {
    if s.qualifying {
        qualifies(pre, s.user, s.now, post, s.day_first, s.user_first)
    } else {
        rolls_to(pre, s.now, post)
    }
}

/// `states[i + 1]` is the window after the event `steps[i]`, starting from a
/// well-formed window `states[0]`.
pub open spec fn valid_trace(states: Seq<DayWindow>, steps: Seq<DispatchStep>) -> bool {
    &&& states.len() == steps.len() + 1
    &&& window_length_ok(states[0].start, states[0].end)
    &&& forall|i: int| 0 <= i < steps.len() ==> step_ok(#[trigger] states[i], steps[i], states[i + 1])
}

/// Facts about the first `k` events of a trace: windows stay well formed,
/// their starts never go back, a user who checked in during a window is
/// registered for the rest of it, and, from an empty start, nobody else is.
proof fn lemma_trace_invariant(states: Seq<DayWindow>, steps: Seq<DispatchStep>, k: int)
    requires
        valid_trace(states, steps),
        0 <= k <= steps.len(),
    ensures
        window_length_ok(states[k].start, states[k].end),
        forall|m: int| 0 <= m <= k ==> (#[trigger] states[m]).start <= states[k].start,
        forall|i: int| 0 <= i < k && (#[trigger] steps[i]).qualifying && states[i + 1].start == states[k].start
            ==> states[k].registered.contains(steps[i].user),
        states[0].registered.is_empty() ==> forall|u: Seq<char>| #[trigger] states[k].registered.contains(u)
            ==> exists|i: int| 0 <= i < k && (#[trigger] steps[i]).qualifying && steps[i].user == u
                && states[i + 1].start == states[k].start,
    decreases k,
{
    if k > 0 {
        let j = k - 1;
        lemma_trace_invariant(states, steps, j);
        let pre = states[j];
        let post = states[k];
        let s = steps[j];
        assert(step_ok(states[j], steps[j], states[j + 1]));
        assert forall|m: int| 0 <= m <= k implies (#[trigger] states[m]).start <= states[k].start by {
            if m < k {
                assert(states[m].start <= pre.start);
            }
        }
        assert forall|i: int| 0 <= i < k && (#[trigger] steps[i]).qualifying && states[i + 1].start == states[k].start
            implies states[k].registered.contains(steps[i].user) by {
            if i < j {
                assert(states[i + 1].start <= pre.start);
            }
        }
        if states[0].registered.is_empty() {
            assert forall|u: Seq<char>| #[trigger] states[k].registered.contains(u)
                implies exists|i: int| 0 <= i < k && (#[trigger] steps[i]).qualifying && steps[i].user == u
                    && states[i + 1].start == states[k].start by {
                if s.qualifying && u == s.user {
                    assert(steps[j].qualifying && steps[j].user == u && states[j + 1].start == states[k].start);
                } else {
                    assert(pre.registered.contains(u));
                    let i = choose|i: int| 0 <= i < j && (#[trigger] steps[i]).qualifying && steps[i].user == u
                        && states[i + 1].start == states[j].start;
                    assert(steps[i].qualifying && steps[i].user == u && states[i + 1].start == states[k].start);
                }
            }
        }
    }
}

/// Within one window, a user's first check-in is the only one marked as the
/// user's first: a later check-in by the same user in the same window never
/// has `user_first`.
pub proof fn lemma_user_first_once_per_window(
    states: Seq<DayWindow>,
    steps: Seq<DispatchStep>,
    i: int,
    j: int,
)
    requires
        valid_trace(states, steps),
        0 <= i < j < steps.len(),
        steps[i].qualifying,
        steps[j].qualifying,
        steps[i].user == steps[j].user,
        states[i + 1].start == states[j + 1].start,
    ensures
        !steps[j].user_first,
{
    lemma_trace_invariant(states, steps, j);
    lemma_trace_invariant(states, steps, j + 1);
    assert(step_ok(states[j], steps[j], states[j + 1]));
    assert(states[i + 1].start <= states[j].start);
}

/// From a dispatcher's empty start, a check-in is marked as the first of its
/// window exactly when no earlier check-in fell in the same window: at most
/// one record per window has `day_first`, and it is the window's first.
pub proof fn lemma_day_first_marks_first_of_window(
    states: Seq<DayWindow>,
    steps: Seq<DispatchStep>,
    j: int,
)
    requires
        valid_trace(states, steps),
        states[0].registered.is_empty(),
        0 <= j < steps.len(),
        steps[j].qualifying,
    ensures
        steps[j].day_first <==> !exists|i: int|
            0 <= i < j && (#[trigger] steps[i]).qualifying && states[i + 1].start == states[j + 1].start,
{
    lemma_trace_invariant(states, steps, j);
    lemma_trace_invariant(states, steps, j + 1);
    assert(step_ok(states[j], steps[j], states[j + 1]));
    let pre = states[j];
    if exists|i: int| 0 <= i < j && (#[trigger] steps[i]).qualifying && states[i + 1].start == states[j + 1].start {
        let i = choose|i: int| 0 <= i < j && (#[trigger] steps[i]).qualifying && states[i + 1].start == states[j + 1].start;
        assert(states[i + 1].start <= pre.start);
        assert(pre.registered.contains(steps[i].user));
    } else if states[j].end <= steps[j].now {
    } else {
        if !pre.registered.is_empty() {
            let u = pre.registered.choose();
            assert(pre.registered.contains(u));
            let i = choose|i: int| 0 <= i < j && (#[trigger] steps[i]).qualifying && steps[i].user == u
                && states[i + 1].start == states[j].start;
            assert(states[i + 1].start == states[j + 1].start);
        }
    }
}

/// The dispatcher. It owns the day window and nothing else.
pub struct Runner {
    day_cycle: DayCycle,
}

impl View for Runner {
    type V = DayWindow;

    closed spec fn view(&self) -> DayWindow {
        self.day_cycle@
    }
}

impl Runner {
    pub closed spec fn wf(&self) -> bool {
        self.day_cycle.wf()
    }

    /// A dispatcher whose first window is opened now.
    pub fn new() -> (r: Self)
        ensures
            r.wf(),
            window_length_ok(r@.start, r@.end),
            r@.registered.is_empty(),
    {
        Runner { day_cycle: DayCycle::new() }
    }

    /// A dispatcher started at `now`.
    pub fn new_at(now: u64) -> (r: Self)
        requires
            now <= LATEST_INSTANT,
        ensures
            r.wf(),
            window_length_ok(r@.start, r@.end),
            r@.start == day_anchor(now as int),
            r@.start <= now < r@.end,
            r@.registered.is_empty(),
    {
        Runner { day_cycle: DayCycle::new_at(now) }
    }

    /// The current day window.
    pub fn day_cycle(&self) -> (r: &DayCycle)
        ensures
            r@ == self@,
    {
        &self.day_cycle
    }

    /// A check-in by `user_id` at `now`: rolls the window forward, decides the
    /// record's flags, registers the user, and returns the record to store.
    pub fn handle_deng_at(&mut self, user_id: String, now: u64) -> (r: NewDeng)
        requires
            old(self).wf(),
            now <= LATEST_INSTANT,
        ensures
            final(self).wf(),
            window_length_ok(final(self)@.start, final(self)@.end),
            qualifies(old(self)@, user_id@, now as int, final(self)@, r.days_first_deng, r.users_first_deng),
            r.ts == now,
            r.user_id@ == user_id@,
            r.successful,
    {
        self.day_cycle.new_day(now);
        let first_deng = self.day_cycle.first_deng();
        let users_first = !self.day_cycle.has_denged_today(user_id.as_str());
        self.day_cycle.register_deng(user_id.as_str());
        NewDeng::success_at(now, user_id, first_deng, users_first)
    }

    /// Any other event by `user_id` at `now`: rolls the window forward and
    /// returns a failed record; the window is otherwise untouched.
    pub fn handle_non_deng_at(&mut self, user_id: String, now: u64) -> (r: NewDeng)
        requires
            old(self).wf(),
            now <= LATEST_INSTANT,
        ensures
            final(self).wf(),
            window_length_ok(final(self)@.start, final(self)@.end),
            rolls_to(old(self)@, now as int, final(self)@),
            r.ts == now,
            r.user_id@ == user_id@,
            !r.successful,
            !r.days_first_deng,
            !r.users_first_deng,
    {
        self.day_cycle.new_day(now);
        NewDeng::failure_at(now, user_id)
    }

    /// Handles `event` at `now` and returns the record to store.
    pub fn handle_at(&mut self, event: Broadcast, now: u64) -> (r: NewDeng)
        requires
            old(self).wf(),
            now <= LATEST_INSTANT,
        ensures
            final(self).wf(),
            window_length_ok(final(self)@.start, final(self)@.end),
            match event {
                Broadcast::Deng(u) => r.successful && r.user_id@ == u@ && qualifies(
                    old(self)@,
                    u@,
                    now as int,
                    final(self)@,
                    r.days_first_deng,
                    r.users_first_deng,
                ),
                Broadcast::NonDeng(u) => !r.successful && !r.days_first_deng && !r.users_first_deng
                    && r.user_id@ == u@ && rolls_to(old(self)@, now as int, final(self)@),
            },
            r.ts == now,
    {
        match event {
            Broadcast::Deng(user_id) => self.handle_deng_at(user_id, now),
            Broadcast::NonDeng(user_id) => self.handle_non_deng_at(user_id, now),
        }
    }

    /// A check-in by `user_id`, handled at the current time.
    pub fn handle_deng(&mut self, user_id: String) -> (r: NewDeng)
        requires
            old(self).wf(),
        ensures
            final(self).wf(),
            qualifies(old(self)@, user_id@, r.ts as int, final(self)@, r.days_first_deng, r.users_first_deng),
            r.user_id@ == user_id@,
            r.successful,
    {
        let now = now_secs();
        self.handle_deng_at(user_id, now)
    }

    /// Any other event by `user_id`, handled at the current time.
    pub fn handle_non_deng(&mut self, user_id: String) -> (r: NewDeng)
        requires
            old(self).wf(),
        ensures
            final(self).wf(),
            rolls_to(old(self)@, r.ts as int, final(self)@),
            r.user_id@ == user_id@,
            !r.successful,
            !r.days_first_deng,
            !r.users_first_deng,
    {
        let now = now_secs();
        self.handle_non_deng_at(user_id, now)
    }
}

} // verus!
