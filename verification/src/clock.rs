//! Absolute time: what to set the clock to, and how an instant is written
//! in a report.

use crate::arbiter::Fatal;
use vstd::prelude::*;

verus! {

/// Microseconds in a second.
pub const MICROS_PER_SECOND: u64 = 1_000_000;

/// The latest instant that can be written as a calendar date, in
/// microseconds since the Unix epoch.
pub const STAMP_MAX_MICROS: u64 = 253_402_207_200_000_000;

/// The earliest instant that can be written as a calendar date, in
/// microseconds since the Unix epoch.
pub const STAMP_MIN_MICROS: i64 = -377_705_023_201_000_000;

/// The text that `jiff::Timestamp::strftime` produces for the instant
/// `micros` microseconds after the Unix epoch and the given format string.
pub uninterp spec fn strftime_text(micros: int, format: Seq<char>) -> Seq<char>;

/// The format of the time in a report: date and time of day to the second,
/// marked as UTC.
pub open spec fn stamp_format() -> Seq<char> {
    "%Y-%m-%d %H:%M:%S UTC"@
}

/// The clock setting for a time of whole seconds since the Unix epoch, in
/// microseconds, where there is a time and the setting fits the clock.
pub open spec fn clock_setting(time: Option<u64>) -> Option<u64> {
    match time {
        Some(seconds) => if seconds * MICROS_PER_SECOND <= u64::MAX {
            Some((seconds * MICROS_PER_SECOND) as u64)
        } else {
            None
        },
        None => None,
    }
}

/// `jiff::Timestamp::from_microsecond` followed by
/// `jiff::Timestamp::strftime`, written out as a `String`. Assumed: the
/// first accepts exactly the instants from `STAMP_MIN_MICROS` to
/// `STAMP_MAX_MICROS`, and the second then yields a text that depends on the
/// instant and the format string alone, without ever failing. A timestamp is
/// always formatted in UTC, and unknown directives are copied as they are.
#[verifier::external_body]
fn strftime(micros: i64, format: &str) -> (text: Option<String>)
    ensures
        text is Some <==> STAMP_MIN_MICROS <= micros <= STAMP_MAX_MICROS,
        text matches Some(t) ==> t@ == strftime_text(micros as int, format@),
{
    match jiff::Timestamp::from_microsecond(micros) {
        Ok(instant) => Some(instant.strftime(format).to_string()),
        Err(_) => None,
    }
}

/// Turns the answer of the time source, whole seconds since the Unix epoch,
/// into the microseconds to set the clock to.
pub fn epoch_micros(time: Option<u64>) -> (setting: Option<u64>)
    ensures
        setting == clock_setting(time),
{
    match time {
        Some(seconds) => seconds.checked_mul(MICROS_PER_SECOND),
        None => None,
    }
}

/// The clock setting at startup. Without one the gateway cannot run.
pub fn startup_clock(time: Option<u64>) -> (setting: Result<u64, Fatal>)
    ensures
        setting == match clock_setting(time) {
            Some(micros) => Ok::<u64, Fatal>(micros),
            None => Err(Fatal::TimeUnavailable),
        },
{
    match epoch_micros(time) {
        Some(micros) => Ok(micros),
        None => Err(Fatal::TimeUnavailable),
    }
}

/// Writes the instant `now`, in microseconds since the Unix epoch, as date
/// and time of day in UTC. There is no such text for an instant after
/// `STAMP_MAX_MICROS`.
pub fn utc_stamp(now: u64) -> (stamp: Option<String>)
    ensures
        stamp is Some <==> now <= STAMP_MAX_MICROS,
        stamp matches Some(text) ==> text@ == strftime_text(now as int, stamp_format()),
{
    if now > STAMP_MAX_MICROS {
        return None;
    }
    strftime(now as i64, "%Y-%m-%d %H:%M:%S UTC")
}

} // verus!
