//! When the US equity market takes orders.

use vstd::prelude::*;
use chrono::{Datelike, Timelike};

verus! {

/// A reading of the wall clock: the day of the week counted from Monday = 1,
/// the hour and the minute.
pub struct ClockReading {
    pub weekday: u32,
    pub hour: u32,
    pub minute: u32,
}

/// A reading that a clock can give.
pub open spec fn valid_reading(r: ClockReading) -> bool {
    1 <= r.weekday <= 7 && r.hour < 24 && r.minute < 60
}

/// Reads the current time in the fixed time zone `west_seconds` west of UTC,
/// with `chrono::Utc::now` and `chrono::FixedOffset::west_opt`.
///
/// The time is the machine's, so only the ranges of the fields are claimed.
#[verifier::external_body]
pub(crate) fn clock_west_of_utc(west_seconds: i32) -> (r: ClockReading)
    requires
        -86_400 < west_seconds < 86_400,
    ensures
        valid_reading(r),
{
    let zone = chrono::FixedOffset::west_opt(west_seconds).unwrap();
    let now = chrono::Utc::now().with_timezone(&zone);
    ClockReading { weekday: now.weekday().number_from_monday(), hour: now.hour(), minute: now.minute() }
}

/// Regular US trading hours in Eastern Standard Time: Monday to Friday,
/// 9:30 until 16:00.
pub open spec fn regular_session(weekday: u32, hour: u32, minute: u32) -> bool {
    weekday <= 5 && !(hour < 9 || hour >= 16) && !(hour == 9 && minute < 30)
}

/// Whether the market is open at the given Eastern Standard Time.
pub fn market_open_at(weekday: u32, hour: u32, minute: u32) -> (b: bool)
    requires
        1 <= weekday <= 7,
    ensures
        b == regular_session(weekday, hour, minute),
        weekday >= 6 ==> !b,
        hour < 9 || hour >= 16 || (hour == 9 && minute < 30) ==> !b,
        weekday <= 5 && ((hour == 9 && minute >= 30) || (10 <= hour && hour < 16)) ==> b,
{
    if weekday == 6 || weekday == 7 {
        return false;
    }
    if hour < 9 || hour >= 16 {
        return false;
    }
    if hour == 9 && minute < 30 {
        return false;
    }
    true
}

/// Whether the market is open now, judged by the clock at UTC-5; gives
/// back the reading it judged by.
pub fn is_market_open() -> (r: (bool, ClockReading))
    ensures
        valid_reading(r.1),
        r.0 == regular_session(r.1.weekday, r.1.hour, r.1.minute),
{
    let now = clock_west_of_utc(5 * 3600);
    let open = market_open_at(now.weekday, now.hour, now.minute);
    (open, now)
}

/// The coarse rule used when the exchange calendar cannot be fetched:
/// weekdays from 9:00 until 16:00, read on the UTC clock.
pub open spec fn fallback_session(weekday: u32, hour: u32) -> bool {
    weekday < 6 && 9 <= hour && hour < 16
}

/// Whether the coarse rule deems the market open at the given UTC time.
pub fn fallback_open_at(weekday: u32, hour: u32) -> (b: bool)
    ensures
        b == fallback_session(weekday, hour),
        weekday >= 6 ==> !b,
        weekday < 6 ==> (b <==> 9 <= hour && hour < 16),
{
    if weekday >= 6 {
        return false;
    }
    hour >= 9 && hour < 16
}

/// Whether the coarse rule deems the market open now, read on the UTC
/// clock; gives back the reading it judged by.
pub fn fallback_open_now() -> (r: (bool, ClockReading))
    ensures
        valid_reading(r.1),
        r.0 == fallback_session(r.1.weekday, r.1.hour),
{
    let now = clock_west_of_utc(0);
    let open = fallback_open_at(now.weekday, now.hour);
    (open, now)
}

/// The market is closed all Saturday and Sunday, before 9:30 and from
/// 16:00 on, and open on a weekday from 9:30 until 16:00 (Eastern Standard
/// Time); the coarse rule likewise closes it at weekends.
pub proof fn law_market_hours(weekday: u32, hour: u32, minute: u32)
    ensures
        weekday == 6 || weekday == 7 ==> !regular_session(weekday, hour, minute) && !fallback_session(
            weekday,
            hour,
        ),
        hour < 9 || hour >= 16 || (hour == 9 && minute < 30) ==> !regular_session(
            weekday,
            hour,
            minute,
        ),
        1 <= weekday <= 5 && ((hour == 9 && 30 <= minute) || (10 <= hour && hour < 16))
            ==> regular_session(weekday, hour, minute),
{
}

} // verus!
