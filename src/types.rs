//! The values that flow between the dispatcher, the store and the scoreboard.
use vstd::prelude::*;

verus! {

/// Points for every successful check-in.
pub const DAILY_DENG_POINT_VALUE: i32 = 1;

/// Extra points for the first check-in of a window, across all users.
pub const FIRST_DENG_POINT_VALUE: i32 = 1;

/// Extra points for a user's first check-in of a window.
pub const USERS_FIRST_DENG_POINT_VALUE: i32 = 1;

/// An event from the stream: a check-in, or any other message, by a user.
#[derive(Clone, Debug)]
pub enum Broadcast {
    Deng(String),
    NonDeng(String),
}

/// Points that a successful check-in with these flags is worth.
pub open spec fn award(days_first_deng: bool, users_first_deng: bool) -> int {
    DAILY_DENG_POINT_VALUE + (if days_first_deng {
        FIRST_DENG_POINT_VALUE as int
    } else {
        0
    }) + (if users_first_deng {
        USERS_FIRST_DENG_POINT_VALUE as int
    } else {
        0
    })
}

/// A stored check-in record. Times are whole seconds since the Unix epoch.
#[derive(Clone, Debug)]
pub struct Deng {
    pub id: i32,
    pub ts: u64,
    pub user_id: String,
    pub successful: bool,
    pub days_first_deng: bool,
    pub users_first_deng: bool,
}

impl Deng {
    /// What the record contributes to its user's score: nothing for a failed
    /// check-in.
    pub open spec fn spec_value(&self) -> int {
        if self.successful {
            award(self.days_first_deng, self.users_first_deng)
        } else {
            0
        }
    }

    /// Points that the record's flags are worth, were it successful.
    pub fn calculate_value(&self) -> (r: i32)
        ensures
            r == award(self.days_first_deng, self.users_first_deng),
    {
        let mut points = DAILY_DENG_POINT_VALUE;
        if self.days_first_deng {
            points += FIRST_DENG_POINT_VALUE;
        }
        if self.users_first_deng {
            points += USERS_FIRST_DENG_POINT_VALUE;
        }
        points
    }

    /// What the record contributes to its user's score.
    pub fn value(&self) -> (r: i32)
        ensures
            r == self.spec_value(),
            0 <= r <= 3,
    {
        if self.successful {
            self.calculate_value()
        } else {
            0
        }
    }
}

/// A check-in record about to be stored; the store assigns its id.
#[derive(Clone, Debug)]
pub struct NewDeng {
    pub ts: u64,
    pub user_id: String,
    pub successful: bool,
    pub days_first_deng: bool,
    pub users_first_deng: bool,
}

impl NewDeng {
    /// A successful check-in by `user_id` at `ts`.
    pub fn success_at(ts: u64, user_id: String, days_first_deng: bool, users_first_deng: bool) -> (r: Self)
        ensures
            r.ts == ts,
            r.user_id@ == user_id@,
            r.successful,
            r.days_first_deng == days_first_deng,
            r.users_first_deng == users_first_deng,
    {
        NewDeng { ts, user_id, successful: true, days_first_deng, users_first_deng }
    }

    /// A failed check-in by `user_id` at `ts`: neither flag is set.
    pub fn failure_at(ts: u64, user_id: String) -> (r: Self)
        ensures
            r.ts == ts,
            r.user_id@ == user_id@,
            !r.successful,
            !r.days_first_deng,
            !r.users_first_deng,
    {
        NewDeng { ts, user_id, successful: false, days_first_deng: false, users_first_deng: false }
    }

    /// A successful check-in by `user_id`, stamped with the current time.
    pub fn new_success(user_id: String, days_first_deng: bool, users_first_deng: bool) -> (r: Self)
        ensures
            r.user_id@ == user_id@,
            r.successful,
            r.days_first_deng == days_first_deng,
            r.users_first_deng == users_first_deng,
    {
        Self::success_at(crate::platform::now_secs(), user_id, days_first_deng, users_first_deng)
    }

    /// A failed check-in by `user_id`, stamped with the current time.
    pub fn new_failure(user_id: String) -> (r: Self)
        ensures
            r.user_id@ == user_id@,
            !r.successful,
            !r.days_first_deng,
            !r.users_first_deng,
    {
        Self::failure_at(crate::platform::now_secs(), user_id)
    }
}

/// An error with a description for the log.
pub struct Error {
    description: String,
}

impl Error {
    pub fn from(description: String) -> (r: Self)
        ensures
            r.spec_description() == description@,
    {
        Error { description }
    }

    pub closed spec fn spec_description(&self) -> Seq<char> {
        self.description@
    }

    pub fn description(&self) -> (r: &str)
        ensures
            r@ == self.spec_description(),
    {
        self.description.as_str()
    }
}

} // verus!
