//! The wall clock and the calendar.
use crate::text::{padded_string, padded_text};
use std::time::{Duration, SystemTime, SystemTimeError};
use vstd::prelude::*;

verus! {

/// A moment of the system clock.
#[verifier::external_type_specification]
#[verifier::external_body]
pub struct ExSystemTime(std::time::SystemTime);

/// What the system clock reports where one moment is before another.
#[verifier::external_type_specification]
#[verifier::external_body]
pub struct ExSystemTimeError(std::time::SystemTimeError);

/// `SystemTime::now` reads the system clock: nothing is claimed of the moment.
pub assume_specification[ std::time::SystemTime::now ]() -> SystemTime
;

/// `SystemTime::duration_since` measures from an earlier moment: nothing is
/// claimed of the result.
pub assume_specification[ std::time::SystemTime::duration_since ](
    time: &SystemTime,
    earlier: SystemTime,
) -> Result<Duration, SystemTimeError>
;

/// `Duration::as_millis` counts whole milliseconds: nothing is claimed of the
/// count.
pub assume_specification[ std::time::Duration::as_millis ](span: &Duration) -> u128
;

/// `SystemTime::UNIX_EPOCH`.
#[verifier::external_body]
fn unix_epoch() -> SystemTime {
    SystemTime::UNIX_EPOCH
}

/// A count of milliseconds in 64 bits: what does not fit is cut off at the top.
pub fn low_ms(count: u128) -> (ms: u64)
    ensures
        ms == count % 0x1_0000_0000_0000_0000,
{
    (count % 0x1_0000_0000_0000_0000) as u64
}

/// What a reading of the clock comes to: the count of milliseconds since the epoch in
/// 64 bits, and none where the clock stands before it.
pub open spec fn reading_ms(count: Option<u128>) -> Option<u64> {
    match count {
        Some(c) => Some((c % 0x1_0000_0000_0000_0000) as u64),
        None => None,
    }
}

/// What a reading of the clock comes to. See [`reading_ms`].
pub fn ms_of_reading(count: Option<u128>) -> (r: Option<u64>)
    ensures
        r == reading_ms(count),
{
    match count {
        Some(c) => Some(low_ms(c)),
        None => None,
    }
}

/// The milliseconds since the Unix epoch, `None` where the system clock stands
/// before it: what [`ms_of_reading`] makes of the clock's reading. Any reading may come
/// back, so nothing more is claimed.
pub fn unix_ms() -> Option<u64> {
    let count: Option<u128> = match SystemTime::now().duration_since(unix_epoch()) {
        Ok(span) => Some(span.as_millis()),
        Err(_) => None,
    };
    ms_of_reading(count)
}

/// A calendar day.
#[derive(Clone, Copy, Debug, PartialEq, Eq, Structural)]
pub struct Day {
    pub year: i32,
    pub month: u8,
    pub day: u8,
}

impl Day {
    /// The day is one that a calendar can name.
    pub open spec fn ok(self) -> bool {
        -9999 <= self.year <= 9999 && 1 <= self.month <= 12 && 1 <= self.day <= 31
    }
}

/// `OffsetDateTime::now_utc`: today's date in UTC. The year has at most four
/// digits, the month is 1 to 12 and the day 1 to 31.
#[verifier::external_body]
fn utc_today() -> (d: Day)
    ensures
        d.ok(),
{
    let now = time::OffsetDateTime::now_utc();
    Day { year: now.year(), month: u8::from(now.month()), day: now.day() }
}

/// The year in four digits, with a minus sign where it is negative, the month in
/// two digits and the day in two digits.
pub open spec fn day_text(d: Day) -> Seq<char> {
    (if d.year < 0 {
        seq!['-'] + padded_text((-d.year) as nat, 4)
    } else {
        padded_text(d.year as nat, 4)
    }) + padded_text(d.month as nat, 2) + padded_text(d.day as nat, 2)
}

/// A day written as `yyyymmdd`.
pub fn yyyymmdd(d: Day) -> (s: String)
    requires
        d.ok(),
    ensures
        s@ == day_text(d),
{
    let mut s: String = String::new();
    if d.year < 0 {
        s.push('-');
        s.append(padded_string((-d.year) as u128, 4).as_str());
    } else {
        s.append(padded_string(d.year as u128, 4).as_str());
    }
    s.append(padded_string(d.month as u128, 2).as_str());
    s.append(padded_string(d.day as u128, 2).as_str());
    assert(s@ =~= day_text(d));
    s
}

/// Today's date in UTC as `yyyymmdd`.
pub fn today_utc() -> (s: String)
    ensures
        exists|d: Day| d.ok() && s@ == #[trigger] day_text(d),
{
    yyyymmdd(utc_today())
}

/// A clock's count of milliseconds is taken as it is while it fits; without one there is none.
pub proof fn law_reading_is_the_count(count: u128)
    ensures
        count <= u64::MAX ==> reading_ms(Some(count)) == Some(count as u64),
        reading_ms(None) is None,
{
}

} // verus!
