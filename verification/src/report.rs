//! What a report says of a world beyond its fields: the text of a timestamp,
//! the time of day, and where a data version stands among the listed ones.

use std::fmt::Write;
use vstd::prelude::*;

verus! {

/// What `chrono` writes for the instant `millis` milliseconds from the epoch, in
/// UTC, under the format `pattern`; `None` where `chrono` has no such instant
/// or cannot write it so.
pub uninterp spec fn formatted_utc(millis: i64, pattern: Seq<char>) -> Option<Seq<char>>;

/// Makes the instant with `chrono::DateTime::from_timestamp_millis`, which gives
/// `None` out of its range, and writes it with `chrono::DateTime::format`, whose
/// result fails to write where the pattern is invalid. Both depend on the
/// arguments alone: the instant is in UTC and the writing knows no locale.
#[verifier::external_body]
fn format_utc(millis: i64, pattern: &str) -> (r: Option<String>)
    ensures
        r matches Some(text) ==> formatted_utc(millis, pattern@) == Some(text@),
        r is None ==> formatted_utc(millis, pattern@) is None,
{
    match chrono::DateTime::from_timestamp_millis(millis) {
        Some(instant) => {
            let mut out = String::new();
            match write!(out, "{}", instant.format(pattern)) {
                Ok(_) => Some(out),
                Err(_) => None,
            }
        },
        None => None,
    }
}

/// The text of a timestamp: date and time of day in UTC, to the second. A time
/// before the epoch has none.
pub open spec fn time_text(millis: i64) -> Option<Seq<char>> {
    if millis < 0 {
        None
    } else {
        formatted_utc(millis, "%Y-%m-%d %H:%M:%S"@)
    }
}

/// The date and time of day, in UTC, of a time given in milliseconds since the epoch.
pub fn unix_to_str(unix_timestamp_in_ms: i64) -> (r: Option<String>)
    ensures
        r matches Some(text) ==> time_text(unix_timestamp_in_ms) == Some(text@),
        r is None ==> time_text(unix_timestamp_in_ms) is None,
{
    if unix_timestamp_in_ms < 0 {
        None
    } else {
        format_utc(unix_timestamp_in_ms, "%Y-%m-%d %H:%M:%S")
    }
}

/// The ticks of a day.
pub const TICKS_PER_DAY: i64 = 24000;

/// The remainder of `ticks` by the ticks of a day, with the sign of `ticks`.
pub open spec fn day_remainder(ticks: int) -> int {
    if ticks >= 0 {
        ticks % (TICKS_PER_DAY as int)
    } else {
        -((-ticks) % (TICKS_PER_DAY as int))
    }
}

/// The time of day that a count of ticks stands for: 0 is sunrise, 6000
/// midday, 12000 sunset, 18000 midnight.
pub fn time_of_day(day_time: i64) -> (r: i64)
    ensures
        r == day_remainder(day_time as int),
{
    day_time % TICKS_PER_DAY
}

/// Where a data version stands among the versions that a table lists.
#[derive(Clone, Copy, Debug, PartialEq, Eq, Structural)]
pub enum VersionClass {
    /// The record states no version: it is older than the versions that are numbered.
    Unversioned,
    /// The version is above the newest that the table lists, which is given.
    NewerThan(i32),
    /// The version is to be looked up in the table.
    Within(i32),
}

/// Where `data_version` stands, given the newest version that the table lists.
pub fn classify_version(data_version: Option<i32>, newest_listed: i32) -> (r: VersionClass)
    ensures
        r == match data_version {
            None => VersionClass::Unversioned,
            Some(v) => if v > newest_listed {
                VersionClass::NewerThan(newest_listed)
            } else {
                VersionClass::Within(v)
            },
        },
{
    match data_version {
        None => VersionClass::Unversioned,
        Some(v) => if v > newest_listed {
            VersionClass::NewerThan(newest_listed)
        } else {
            VersionClass::Within(v)
        },
    }
}

/// The lowest and the highest data version met so far.
#[derive(Clone, Copy, Debug, PartialEq, Eq, Structural)]
pub struct VersionSpan {
    pub lowest: i32,
    pub highest: i32,
}

impl VersionSpan {
    /// The span before any version was met: nothing is below its lowest or
    /// above its highest.
    pub fn new() -> (r: VersionSpan)
        ensures
            r == (VersionSpan { lowest: i32::MAX, highest: i32::MIN }),
    {
        VersionSpan { lowest: i32::MAX, highest: i32::MIN }
    }

    /// Takes note of the version of one more world; a world without a version
    /// changes nothing.
    pub fn note(&mut self, data_version: Option<i32>)
        ensures
            data_version is None ==> *final(self) == *old(self),
            data_version matches Some(v) ==> final(self).lowest == (if v < old(self).lowest {
                v
            } else {
                old(self).lowest
            }) && final(self).highest == (if v > old(self).highest {
                v
            } else {
                old(self).highest
            }),
    {
        match data_version {
            Some(version) => {
                if version < self.lowest {
                    self.lowest = version;
                }
                if version > self.highest {
                    self.highest = version;
                }
            },
            None => {},
        }
    }
}

} // verus!
