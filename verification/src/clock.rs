//! The calendar day of the server's clock.

use vstd::prelude::*;
use chrono::{Datelike, Utc};
use crate::types::Date;

verus! {

/// `chrono::Utc::now`, its `date_naive`, and of that `year`, `month` and
/// `day` of `chrono::Datelike`: the current day in UTC. The month is counted
/// from one to twelve and the day of the month from one to thirty-one. Which
/// day it is, is left open. The call panics where the system's clock is set
/// before 1970.
#[verifier::external_body]
fn utc_day() -> (r: (i32, u32, u32))
    ensures
        1 <= r.1 <= 12,
        1 <= r.2 <= 31,
{
    let today = Utc::now().date_naive();
    (today.year(), today.month(), today.day())
}

/// Today's day in UTC, where its year has at most four digits and is not
/// before the common era.
pub fn today_utc() -> (r: Option<Date>)
    ensures
        r matches Some(day) ==> day.wf(),
{
    let (year, month, day) = utc_day();
    Date::new(year, month, day)
}

} // verus!
