//! The time zone a user has chosen.

use vstd::prelude::*;

verus! {

/// A user's chosen time zone, by its tz database name.
#[derive(Debug, Clone)]
pub struct Timezones {
    pub user_id: String,
    pub timezone: String,
}

impl Timezones {
    /// The record for `user_id` with time zone `timezone`.
    pub fn new(user_id: String, timezone: String) -> (r: Timezones)
        ensures
            r.user_id@ == user_id@,
            r.timezone@ == timezone@,
    {
        Timezones { user_id, timezone }
    }
}

} // verus!
