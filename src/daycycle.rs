//! The day window: the current scoring day and the users who have already
//! checked in during it.
//!
//! The window is replaced lazily: every read is preceded by `new_day(now)`,
//! which rolls the window forward from its previous end, so there is no
//! background timer and no second mutator.
use crate::platform::{now_secs, uniform_below};
use vstd::prelude::*;

verus! {

/// Nominal length of a scoring day, in seconds.
pub const DAY_SECS: u64 = 86400;

/// Exclusive bound of the random extension added to each day, in seconds
/// (15 minutes). It keeps the reset instant unpredictable.
pub const JITTER_SECS: u64 = 900;

/// Offset of the community's local time from UTC (UTC+8), in seconds.
pub const UTC_OFFSET_SECS: u64 = 28800;

/// Local time of day at which the first window opens (09:00), in seconds.
pub const DAY_START_SECS: u64 = 32400;

/// The latest instant, in seconds since the Unix epoch, that a day window
/// accepts; it leaves room in a `u64` for the windows that follow it.
pub const LATEST_INSTANT: u64 = 0x4000_0000_0000_0000;

/// The mathematical model of a day window.
pub struct DayWindow {
    pub start: int,
    pub end: int,
    pub registered: Set<Seq<char>>,
}

/// A window lasts at least a day and less than a day plus the jitter bound.
pub open spec fn window_length_ok(start: int, end: int) -> bool {
    DAY_SECS <= end - start < DAY_SECS + JITTER_SECS
}

/// `span` is covered by exactly `k` consecutive windows of admissible length.
pub open spec fn whole_periods(k: nat, span: int) -> bool {
    k * DAY_SECS <= span <= k * (DAY_SECS + JITTER_SECS - 1)
}

/// `post` is a fresh window that follows `pre` after whole periods and holds `now`.
pub open spec fn fresh_window_after(pre: DayWindow, now: int, post: DayWindow) -> bool {
    &&& window_length_ok(post.start, post.end)
    &&& pre.end <= post.start <= now < post.end
    &&& exists|k: nat| #[trigger] whole_periods(k, post.start - pre.end)
}

/// The window bounds after rolling `pre` forward to `now`: unchanged while
/// `now` is before the end, otherwise a fresh window anchored at `pre.end`.
pub open spec fn rolled_window(pre: DayWindow, now: int, post: DayWindow) -> bool {
    if now < pre.end {
        post.start == pre.start && post.end == pre.end
    } else {
        fresh_window_after(pre, now, post)
    }
}

/// The registered users after rolling `pre` forward to `now`.
pub open spec fn registered_after_roll(pre: DayWindow, now: int) -> Set<Seq<char>> {
    if now < pre.end {
        pre.registered
    } else {
        Set::empty()
    }
}

/// `post` is what rolling `pre` forward to `now` may give.
pub open spec fn rolls_to(pre: DayWindow, now: int, post: DayWindow) -> bool {
    &&& rolled_window(pre, now, post)
    &&& post.registered == registered_after_roll(pre, now)
}

/// Start of the first window for a dispatcher started at `now`: the latest
/// 09:00 local time at or before `now` (the epoch itself, in the first hour
/// after it, where no such 09:00 exists).
pub open spec fn day_anchor(now: int) -> int {
    let since = (now + UTC_OFFSET_SECS + DAY_SECS - DAY_START_SECS) % (DAY_SECS as int);
    if since <= now {
        now - since
    } else {
        0
    }
}

/// Rolling forward from a window whose end is after `now` leaves it as it is.
pub proof fn lemma_roll_is_idempotent(a: DayWindow, now: int, b: DayWindow, c: DayWindow)
    requires
        rolls_to(a, now, b),
        rolls_to(b, now, c),
    ensures
        c == b,
{
    assert(now < b.end);
    assert(c.registered == b.registered);
}

/// Rolling forward never yields a window shorter than a day, never goes back,
/// and always yields a window that has not ended at `now`.
pub proof fn lemma_rolled_window_is_current(a: DayWindow, now: int, b: DayWindow)
    requires
        window_length_ok(a.start, a.end),
        rolls_to(a, now, b),
    ensures
        window_length_ok(b.start, b.end),
        b.end - b.start >= DAY_SECS,
        now < b.end,
        a.start <= b.start,
{
}

pub struct DayCycle {
    start: u64,
    end: u64,
    denged_today: Vec<String>,
}

impl View for DayCycle {
    type V = DayWindow;

    closed spec fn view(&self) -> DayWindow {
        DayWindow {
            start: self.start as int,
            end: self.end as int,
            registered: self.ids().to_set(),
        }
    }
}

impl DayCycle {
    closed spec fn ids(&self) -> Seq<Seq<char>> {
        self.denged_today@.map_values(|s: String| s@)
    }

    /// Each registered user is held once.
    pub closed spec fn distinct_ids(&self) -> bool {
        self.ids().no_duplicates()
    }

    pub open spec fn wf(&self) -> bool {
        &&& window_length_ok(self@.start, self@.end)
        &&& self.distinct_ids()
    }

    /// A window for a dispatcher started now (see `new_at`).
    pub fn new() -> (r: Self)
        ensures
            r.wf(),
            r@.registered.is_empty(),
    {
        Self::new_at(now_secs())
    }

    /// The first window of a dispatcher started at `now`: it opens at the
    /// latest 09:00 local time and lasts a day plus a random extension.
    pub fn new_at(now: u64) -> (r: Self)
        requires
            now <= LATEST_INSTANT,
        ensures
            r.wf(),
            r@.start == day_anchor(now as int),
            r@.start <= now < r@.end,
            r@.registered.is_empty(),
    {
        let start = Self::generate_day(now);
        let end = Self::calculate_end(start);
        let r = DayCycle { start, end, denged_today: Vec::new() };
        assert(r.ids() =~= Seq::<Seq<char>>::empty());
        assert(r@.registered =~= Set::<Seq<char>>::empty());
        r
    }

    /// The latest 09:00 local time at or before `now`.
    fn generate_day(now: u64) -> (start: u64)
        requires
            now <= LATEST_INSTANT,
        ensures
            start == day_anchor(now as int),
            start <= now < start + DAY_SECS,
    {
        let since = (now + (UTC_OFFSET_SECS + DAY_SECS - DAY_START_SECS)) % DAY_SECS;
        if since <= now {
            now - since
        } else {
            0
        }
    }

    /// End of a window opening at `start`: a day later, plus a jitter drawn
    /// from `[0, JITTER_SECS)`. The jitter never shortens the day.
    pub fn calculate_end(start: u64) -> (end: u64)
        requires
            start <= LATEST_INSTANT + DAY_SECS + JITTER_SECS,
        ensures
            window_length_ok(start as int, end as int),
    {
        let jitter = uniform_below(JITTER_SECS);
        start + DAY_SECS + jitter
    }

    pub fn start(&self) -> (r: u64)
        ensures
            r == self@.start,
    {
        self.start
    }

    pub fn end(&self) -> (r: u64)
        ensures
            r == self@.end,
    {
        self.end
    }

    /// Whether the window is over at `now`.
    pub fn has_ended(&self, now: u64) -> (r: bool)
        ensures
            r == (now >= self@.end),
    {
        now >= self.end
    }

    /// Rolls the window forward to `now`: while it has ended, it is replaced by
    /// the window that starts at its end, and the registered users are
    /// cleared. Anchoring at the previous end keeps the windows from drifting
    /// while the dispatcher is idle; looping covers gaps of any length.
    pub fn new_day(&mut self, now: u64)
        requires
            old(self).wf(),
            now <= LATEST_INSTANT,
        ensures
            final(self).wf(),
            rolls_to(old(self)@, now as int, final(self)@),
    {
        if now < self.end {
            return;
        }
        let ghost first_end = self.end as int;
        self.denged_today.clear();
        self.start = self.end;
        self.end = Self::calculate_end(self.start);
        let ghost mut k: nat = 1;
        assert(whole_periods(0, self.start - first_end));
        assert(whole_periods(0, 0));
        while now >= self.end
            invariant
                now <= LATEST_INSTANT,
                window_length_ok(self.start as int, self.end as int),
                first_end <= self.start <= now,
                self.denged_today@.len() == 0,
                exists|j: nat| #[trigger] whole_periods(j, self.start - first_end),
            decreases LATEST_INSTANT + 2 * DAY_SECS - self.end,
        {
            let ghost prev_span = self.start - first_end;
            let ghost j = choose|j: nat| #[trigger] whole_periods(j, prev_span);
            self.start = self.end;
            self.end = Self::calculate_end(self.start);
            assert(whole_periods(j + 1, self.start - first_end));
        }
        assert(self.ids() =~= Seq::<Seq<char>>::empty());
        assert(self@.registered =~= Set::<Seq<char>>::empty());
    }

    /// Whether no user has checked in during the window yet.
    pub fn first_deng(&self) -> (r: bool)
        ensures
            r == self@.registered.is_empty(),
    {
        let r = self.denged_today.len() == 0;
        if !r {
            assert(self@.registered.contains(self.ids()[0]));
        } else {
            assert(self@.registered =~= Set::<Seq<char>>::empty());
        }
        r
    }

    /// Whether `user_id` has already checked in during the window.
    pub fn has_denged_today(&self, user_id: &str) -> (r: bool)
        ensures
            r == self@.registered.contains(user_id@),
    {
        let probe = user_id.to_owned();
        let mut i: usize = 0;
        while i < self.denged_today.len()
            invariant
                i <= self.denged_today@.len(),
                probe@ == user_id@,
                forall|j: int| 0 <= j < i ==> self.ids()[j] != user_id@,
            decreases self.denged_today@.len() - i,
        {
            if self.denged_today[i] == probe {
                assert(self.ids()[i as int] == user_id@);
                return true;
            }
            i += 1;
        }
        false
    }

    /// Records `user_id` as checked in; registering a user twice is a no-op.
    pub fn register_deng(&mut self, user_id: &str)
        requires
            old(self).wf(),
        ensures
            final(self).wf(),
            final(self)@ == (DayWindow {
                registered: old(self)@.registered.insert(user_id@),
                ..old(self)@
            }),
    {
        if self.has_denged_today(user_id) {
            assert(self@.registered.insert(user_id@) =~= self@.registered);
            return;
        }
        let ghost old_ids = self.ids();
        self.denged_today.push(user_id.to_owned());
        assert(self.ids() =~= old_ids.push(user_id@));
        proof {
            old_ids.lemma_push_to_set_commute(user_id@);
        }
    }
}

} // verus!
