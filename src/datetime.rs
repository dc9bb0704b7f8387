//! Date-time fields of the protocol, written `YYYY-MM-DD HH:MM:SS`.
//!
//! A date-time is held as its count of seconds from 1970-01-01 00:00:00 on
//! the same wall clock; reading and writing the text is chrono's.

use chrono::{DateTime, NaiveDateTime};
use vstd::prelude::*;

verus! {

/// The layout of every date-time field.
pub const DATE_TIME_FORMAT: &'static str = "%Y-%m-%d %H:%M:%S";

/// The wall-clock seconds from 1970-01-01 00:00:00 of a date-time text, if it
/// is one.
pub uninterp spec fn date_time_seconds(text: Seq<char>) -> Option<int>;

/// The date-time text of a count of wall-clock seconds, if chrono can write
/// that date.
pub uninterp spec fn date_time_text(seconds: int) -> Option<Seq<char>>;

/// Relies on `chrono::NaiveDateTime::parse_from_str` with the field layout,
/// and `and_utc().timestamp()` to count the seconds.
#[verifier::external_body]
pub(crate) fn parse_date_time(text: &str) -> (r: Option<i64>)
    ensures
        match r {
            Some(s) => date_time_seconds(text@) == Some(s as int),
            None => date_time_seconds(text@) is None,
        },
{
    NaiveDateTime::parse_from_str(text, DATE_TIME_FORMAT).ok().map(|d| d.and_utc().timestamp())
}

/// Relies on `chrono::DateTime::from_timestamp` and `format` with the field
/// layout, read on the naive clock.
#[verifier::external_body]
pub(crate) fn format_date_time(seconds: i64) -> (r: Option<String>)
    ensures
        match r {
            Some(t) => date_time_text(seconds as int) == Some(t@),
            None => date_time_text(seconds as int) is None,
        },
{
    DateTime::from_timestamp(seconds, 0).map(|d| d.naive_utc().format(DATE_TIME_FORMAT).to_string())
}

/// The date-time text `delta` seconds after the date-time text `text`.
pub open spec fn shifted_text(text: Seq<char>, delta: int) -> Option<Seq<char>> {
    match date_time_seconds(text) {
        Some(s) => if i64::MIN <= s + delta <= i64::MAX {
            date_time_text(s + delta)
        } else {
            None
        },
        None => None,
    }
}

/// The count `seconds + delta`, where it fits.
pub fn shift_seconds(seconds: i64, delta: i64) -> (r: Option<i64>)
    ensures
        i64::MIN <= seconds + delta <= i64::MAX ==> r == Some((seconds + delta) as i64),
        !(i64::MIN <= seconds + delta <= i64::MAX) ==> r is None,
{
    seconds.checked_add(delta)
}

/// The date-time text `delta` seconds after `text`.
pub fn shift_date_time(text: &str, delta: i64) -> (r: Option<String>)
    ensures
        match r {
            Some(t) => shifted_text(text@, delta as int) == Some(t@),
            None => shifted_text(text@, delta as int) is None,
        },
{
    let seconds = parse_date_time(text)?;
    let shifted = shift_seconds(seconds, delta)?;
    format_date_time(shifted)
}

} // verus!
