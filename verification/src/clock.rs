//! The local calendar date.
use vstd::prelude::*;
use crate::chart::{day_text, iso_format};

verus! {

/// `t` is the year-month-day text of some day of chrono's calendar.
pub open spec fn is_day_text(t: Seq<char>) -> bool {
    exists|n: i32| #[trigger] day_text(n, iso_format()) == Some(t)
}

/// Today's date on the local clock, as `chrono::Local::now()` formatted with
/// `"%Y-%m-%d"` gives it. Which day it is depends on the time and on the
/// machine's time zone, so the contract claims only that the text is some
/// day's year-month-day text: the same text chrono writes for that day's
/// `NaiveDate` with the same format.
#[verifier::external_body]
pub(crate) fn today() -> (r: String)
    ensures
        is_day_text(r@),
{
    chrono::Local::now().format("%Y-%m-%d").to_string()
}

} // verus!
