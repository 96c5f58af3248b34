//! The system clock, read through `chrono`. What the clock says cannot be
//! proved; the two functions here state only what holds of every reading.

use vstd::prelude::*;
use chrono::Datelike;
use crate::habit::Day;
use crate::text::is_digit;

verus! {

/// Whether `name` is the English three-letter abbreviation of a month.
pub open spec fn is_month_abbreviation(name: Seq<char>) -> bool {
    ||| name == "Jan"@
    ||| name == "Feb"@
    ||| name == "Mar"@
    ||| name == "Apr"@
    ||| name == "May"@
    ||| name == "Jun"@
    ||| name == "Jul"@
    ||| name == "Aug"@
    ||| name == "Sep"@
    ||| name == "Oct"@
    ||| name == "Nov"@
    ||| name == "Dec"@
}

/// The shape `DD/Mon/YY`: two digits, a month's abbreviation and two more
/// digits, with a slash between them.
pub open spec fn is_date_stamp(stamp: Seq<char>) -> bool {
    &&& stamp.len() == 9
    &&& is_digit(stamp[0])
    &&& is_digit(stamp[1])
    &&& stamp[2] == '/'
    &&& is_month_abbreviation(stamp.subrange(3, 6))
    &&& stamp[6] == '/'
    &&& is_digit(stamp[7])
    &&& is_digit(stamp[8])
}

/// Today's date in UTC as a day number. Calls `chrono::Local::now`, takes
/// the date of its `naive_utc`, and converts it with
/// `Datelike::num_days_from_ce`. Nothing is claimed of the result: it is
/// whatever the system clock gives.
#[verifier::external_body]
pub(crate) fn utc_today() -> (today: Day) {
    chrono::Local::now().naive_utc().date().num_days_from_ce()
}

/// Today's date in the local time zone, written as `DD/Mon/YY`. Calls
/// `chrono::Local::now`, takes its `date_naive` and formats it with
/// `NaiveDate::format` and the pattern `%d/%b/%y`. The contract claims the
/// shape that this pattern always gives: the day of the month in two digits,
/// the month's English three-letter name, and the year modulo 100 in two
/// digits. Which date it is depends on the clock and is not claimed.
#[verifier::external_body]
pub(crate) fn local_date_stamp() -> (stamp: String)
    ensures
        is_date_stamp(stamp@),
{
    chrono::Local::now().date_naive().format("%d/%b/%y").to_string()
}

} // verus!
