//! Points in time, written for people to read.

use crate::text::decimal_text;
use chrono::{DateTime, Local};
use vstd::prelude::*;

verus! {

/// The layout of a written point in time.
pub const TIME_LAYOUT: &'static str = "%Y-%m-%d %H:%M:%S";

/// The first second that the calendar reaches, counted from the Unix epoch.
pub const FIRST_SECOND: i64 = -8334601228800;

/// The last second that the calendar reaches.
pub const LAST_SECOND: i64 = 8210266876799;

/// What `DateTime::format` writes, under the layout used here, for a clock that
/// shows the time so many seconds after the start of the year 1970.
pub uninterp spec fn calendar_text(seconds: int) -> Seq<char>;

/// Whether a text shows a point in time on a clock that some zone goes by: one
/// that is less than a day away from universal time.
pub open spec fn shows_time(seconds: int, text: Seq<char>) -> bool {
    exists|offset: int|
        -86400 < offset < 86400 && text == #[trigger] calendar_text(seconds + offset)
}

/// `DateTime::from_timestamp`, and `with_timezone` and `format` on what it
/// gives: the time on the clock of the machine's zone. There is one for each
/// second that the calendar reaches. Which zone the machine is in is left open.
#[verifier::external_body]
fn local_time(seconds: i64, layout: &str) -> (r: Option<String>)
    requires
        layout@ == TIME_LAYOUT@,
    ensures
        r is Some <==> FIRST_SECOND <= seconds <= LAST_SECOND,
        r matches Some(text) ==> exists|offset: int|
            -86400 < offset < 86400 && text@ == #[trigger] calendar_text(seconds + offset),
{
    match DateTime::from_timestamp(seconds, 0) {
        Some(time) => Some(time.with_timezone(&Local).format(layout).to_string()),
        None => None,
    }
}

/// A count of seconds as a signed number of the same bits.
pub open spec fn signed(n: u64) -> int {
    if n <= i64::MAX {
        n as int
    } else {
        n - 0x1_0000_0000_0000_0000
    }
}

fn to_signed(n: u64) -> (r: i64)
    ensures
        r == signed(n),
{
    if n <= i64::MAX as u64 {
        n as i64
    } else {
        -((u64::MAX - n) as i64) - 1
    }
}

/// The calendar's text for a count of seconds, or its digits where the calendar
/// has none.
pub fn time_or_number(unix_secs: u64, shown: Option<String>) -> (r: String)
    ensures
        r@ == (match shown {
            Some(text) => text@,
            None => crate::text::decimal(unix_secs as nat),
        }),
{
    match shown {
        Some(text) => text,
        None => decimal_text(unix_secs),
    }
}

/// Whether a text is how a count of seconds since the Unix epoch is written.
pub open spec fn written_time(unix_secs: u64, text: Seq<char>) -> bool {
    if FIRST_SECOND <= signed(unix_secs) <= LAST_SECOND {
        shows_time(signed(unix_secs), text)
    } else {
        text == crate::text::decimal(unix_secs as nat)
    }
}

/// A count of seconds that the calendar reaches is written as the calendar shows
/// it on a clock less than a day away from universal time, and any other by its
/// digits. The calendar takes the largest counts for seconds before the epoch.
pub proof fn time_is_written_by_the_calendar(unix_secs: u64, text: Seq<char>)
    ensures
        unix_secs <= 8210266876799 ==> (written_time(unix_secs, text) <==> exists|offset: int|
            -86400 < offset < 86400 && text == #[trigger] calendar_text(unix_secs + offset)),
        8210266876799 < unix_secs <= i64::MAX ==> (written_time(unix_secs, text) <==> text
            == crate::text::decimal(unix_secs as nat)),
        i64::MAX < unix_secs < 0x1_0000_0000_0000_0000 - 8334601228800 ==> (written_time(
            unix_secs,
            text,
        ) <==> text == crate::text::decimal(unix_secs as nat)),
        unix_secs >= 0x1_0000_0000_0000_0000 - 8334601228800 ==> (written_time(unix_secs, text)
            <==> exists|offset: int|
            -86400 < offset < 86400 && text == #[trigger] calendar_text(
                unix_secs - 0x1_0000_0000_0000_0000 + offset,
            )),
{
}

/// Writes a count of seconds since the Unix epoch.
pub fn format_unix_secs(unix_secs: u64) -> (r: String)
    ensures
        written_time(unix_secs, r@),
        unix_secs <= 8210266876799 ==> exists|offset: int|
            -86400 < offset < 86400 && r@ == #[trigger] calendar_text(unix_secs + offset),
        8210266876799 < unix_secs <= i64::MAX ==> crate::text::digits_number(r@) == unix_secs,
{
    proof {
        crate::text::decimal_spells_the_number(unix_secs as nat);
    }
    time_or_number(unix_secs, local_time(to_signed(unix_secs), TIME_LAYOUT))
}

} // verus!
