use vstd::prelude::*;

use crate::datetime_utils::TimeOfDay;
use chrono::Timelike;

verus! {

/// Relies on chrono::Local::now and the NaiveTime accessors of
/// chrono::Timelike: hour is below 24, minute and second below 60 (a
/// leap second is carried in the sub-second field, not here).
#[verifier::external_body]
pub fn current_time_of_day() -> (t: TimeOfDay)
    ensures
        t.wf(),
{
    let now = chrono::Local::now().naive_local().time();
    TimeOfDay { hour: now.hour() as u8, minute: now.minute() as u8, second: now.second() as u8 }
}

} // verus!
