//! Local time, and the times that people write down.
//!
//! What a moment is called on the local clock depends on the time zone of the machine. The
//! contracts here say what holds in every time zone that lies less than a day from UTC.

use crate::number::decimal;
use chrono::{Datelike, Local, TimeZone, Timelike};
use vstd::prelude::*;

verus! {

/// The first moment of the calendar, in milliseconds since the start of 1970 in UTC: the start of
/// the year -262143.
pub const FIRST_MS: i64 = -8_334_601_228_800_000;

/// The last moment of the calendar: the end of the year 262142.
pub const LAST_MS: i64 = 8_210_266_876_799_999;

/// The milliseconds of a day.
pub const DAY_MS: i64 = 86_400_000;

/// Whether a moment lies in the calendar.
pub open spec fn in_calendar(ms: int) -> bool {
    FIRST_MS <= ms <= LAST_MS
}

/// Whether local time can be that many seconds ahead of UTC.
pub open spec fn is_offset(offset: int) -> bool {
    -86_400 < offset < 86_400
}

/// What a local clock with this offset shows, in seconds since it showed the start of 1970.
pub open spec fn local_seconds(ms: int, offset: int) -> int {
    ms / 1000 + offset
}

/// The local day of a moment, counted from the first day of 1970.
pub open spec fn local_day(ms: int, offset: int) -> int {
    local_seconds(ms, offset) / 86_400
}

/// The second of the local day of a moment.
pub open spec fn second_of_day(ms: int, offset: int) -> int {
    local_seconds(ms, offset) % 86_400
}

/// A day of the week.
#[derive(Debug, Clone, Copy, PartialEq, Eq, Structural)]
pub enum Weekday {
    Mon,
    Tue,
    Wed,
    Thu,
    Fri,
    Sat,
    Sun,
}

/// The day of the week of a day, counted from the first day of 1970, a Thursday.
pub open spec fn weekday_of(day: int) -> Weekday {
    let since_monday = (day + 3) % 7;
    if since_monday == 0 {
        Weekday::Mon
    } else if since_monday == 1 {
        Weekday::Tue
    } else if since_monday == 2 {
        Weekday::Wed
    } else if since_monday == 3 {
        Weekday::Thu
    } else if since_monday == 4 {
        Weekday::Fri
    } else if since_monday == 5 {
        Weekday::Sat
    } else {
        Weekday::Sun
    }
}

/// Whether a moment can fall on this day of the week.
pub open spec fn may_fall_on(ms: int, weekday: Weekday) -> bool {
    exists|offset: int| is_offset(offset) && weekday_of(#[trigger] local_day(ms, offset)) == weekday
}

/// Gives the day of the week of a moment in local time: `Local.timestamp_millis_opt(..).single()`
/// of `chrono`, and `Datelike::weekday` of it. There is one for every moment of the calendar and
/// for no other; it is the one that the day has by some offset. Which offset holds is up to the
/// time zone of the machine.
#[verifier::external_body]
pub(crate) fn local_weekday(ms: i64) -> (weekday: Option<Weekday>)
    ensures
        weekday is Some <==> in_calendar(ms as int),
        weekday matches Some(day) ==> may_fall_on(ms as int, day),
{
    let moment = Local.timestamp_millis_opt(ms).single()?;
    Some(match moment.weekday() {
        chrono::Weekday::Mon => Weekday::Mon,
        chrono::Weekday::Tue => Weekday::Tue,
        chrono::Weekday::Wed => Weekday::Wed,
        chrono::Weekday::Thu => Weekday::Thu,
        chrono::Weekday::Fri => Weekday::Fri,
        chrono::Weekday::Sat => Weekday::Sat,
        chrono::Weekday::Sun => Weekday::Sun,
    })
}

/// Whether `target` can be the moment at which the clock shows this time of the day on which `now`
/// falls. The offset may change in between.
pub open spec fn may_be_time_of_day(
    now: int,
    target: int,
    hour: int,
    minute: int,
    second: int,
    millis: int,
) -> bool {
    exists|before: int, after: int|
        is_offset(before) && is_offset(after) && #[trigger] local_day(now, before)
            == #[trigger] local_day(target, after) && second_of_day(target, after) == hour * 3600
            + minute * 60 + second && target % 1000 == millis
}

/// Sets the time of the local day of a moment: `Local.timestamp_millis_opt(..).single()` of
/// `chrono`, then `Timelike::with_hour`, `with_minute`, `with_second` and `with_nanosecond`, then
/// `timestamp_millis`. What comes back lies on the same local day, at that time, in the calendar.
/// Nothing comes back for a moment outside the calendar, nor where a step leads to a local time
/// that does not exist or exists twice; that is up to the time zone of the machine.
#[verifier::external_body]
pub(crate) fn local_time_of_day(
    now_ms: i64,
    hour: u32,
    minute: u32,
    second: u32,
    nanosecond: u32,
) -> (target: Option<i64>)
    requires
        hour < 24,
        minute < 60,
        second < 60,
        nanosecond < 1_000_000_000,
    ensures
        target is Some ==> in_calendar(now_ms as int),
        target matches Some(ms) ==> in_calendar(ms as int) && may_be_time_of_day(
            now_ms as int,
            ms as int,
            hour as int,
            minute as int,
            second as int,
            nanosecond as int / 1_000_000,
        ),
{
    let now = Local.timestamp_millis_opt(now_ms).single()?;
    let target = now.with_hour(hour)?.with_minute(minute)?;
    let target = target.with_second(second)?.with_nanosecond(nanosecond)?;
    Some(target.timestamp_millis())
}

/// Whether this is what came of asking the local clock when it shows an hour and a minute on the day
/// of a moment.
pub closed spec fn clock_showed(now_ms: i64, hour: u32, minute: u32, target: Option<i64>) -> bool {
    call_ensures(local_time_of_day, (now_ms, hour, minute, 0u32, 0u32), target)
}

/// What comes of asking the local clock lies on the same local day, at that time, in the calendar.
pub proof fn the_clock_shows_that_time(
    now_ms: i64,
    hour: u32,
    minute: u32,
    target: Option<i64>,
)
    requires
        clock_showed(now_ms, hour, minute, target),
    ensures
        target matches Some(ms) ==> in_calendar(now_ms as int) && in_calendar(ms as int)
            && may_be_time_of_day(now_ms as int, ms as int, hour as int, minute as int, 0, 0),
{
}

/// Asks a clock.
fn ask_clock<F: Fn(i64, u32, u32, u32, u32) -> Option<i64>>(
    clock: F,
    now_ms: i64,
    hour: u32,
    minute: u32,
) -> (target: Option<i64>)
    requires
        call_requires(clock, (now_ms, hour, minute, 0u32, 0u32)),
    ensures
        call_ensures(clock, (now_ms, hour, minute, 0u32, 0u32), target),
{
    clock(now_ms, hour, minute, 0, 0)
}

/// Asks the local clock when it shows an hour and a minute on the day of a moment.
pub(crate) fn ask_local_clock(now_ms: i64, hour: u32, minute: u32) -> (target: Option<i64>)
    requires
        hour < 24,
        minute < 60,
    ensures
        clock_showed(now_ms, hour, minute, target),
{
    ask_clock(local_time_of_day, now_ms, hour, minute)
}

/// Whether this is what came of asking the local clock for the day of the week of a moment.
pub closed spec fn weekday_showed(ms: i64, day: Option<Weekday>) -> bool {
    call_ensures(local_weekday, (ms,), day)
}

/// What comes of asking for a day of the week is one on which the moment can fall.
pub proof fn the_clock_shows_that_weekday(ms: i64, day: Option<Weekday>)
    requires
        weekday_showed(ms, day),
    ensures
        day is Some <==> in_calendar(ms as int),
        day matches Some(shown) ==> may_fall_on(ms as int, shown),
{
}

/// Asks for a day of the week.
fn ask_weekday<F: Fn(i64) -> Option<Weekday>>(clock: F, ms: i64) -> (day: Option<Weekday>)
    requires
        call_requires(clock, (ms,)),
    ensures
        call_ensures(clock, (ms,), day),
{
    clock(ms)
}

/// Asks the local clock for the day of the week of a moment.
pub(crate) fn ask_local_weekday(ms: i64) -> (day: Option<Weekday>)
    ensures
        weekday_showed(ms, day),
        day is Some <==> in_calendar(ms as int),
        day matches Some(shown) ==> may_fall_on(ms as int, shown),
{
    ask_weekday(local_weekday, ms)
}

/// Whether a year has a 29th of February.
pub open spec fn is_leap_year(year: int) -> bool {
    year % 4 == 0 && (year % 100 != 0 || year % 400 == 0)
}

/// How many days of a year come before a month; of the month after December, all of them.
pub open spec fn days_before_month(year: int, month: int) -> int {
    seq![0int, 31, 59, 90, 120, 151, 181, 212, 243, 273, 304, 334, 365][month - 1] + (if month > 2
        && is_leap_year(year) {
        1int
    } else {
        0
    })
}

/// The number of a date, counted from the first day of 1970.
pub open spec fn day_number(year: int, month: int, day: int) -> int {
    let past = year - 1;
    365 * past + past / 4 - past / 100 + past / 400 + days_before_month(year, month) + day - 719_163
}

/// Whether there is such a date.
pub open spec fn is_date(year: int, month: int, day: int) -> bool {
    1 <= month <= 12 && 1 <= day <= days_before_month(year, month + 1) - days_before_month(
        year,
        month,
    )
}

/// A number with zeros before it, up to a width.
pub open spec fn padded(n: nat, width: nat) -> Seq<char> {
    Seq::new(
        if decimal(n).len() < width {
            (width - decimal(n).len()) as nat
        } else {
            0
        },
        |i: int| '0',
    ) + decimal(n)
}

/// A year as four digits, or with a sign where four digits do not tell it.
pub open spec fn year_text(year: int) -> Seq<char> {
    if 0 <= year <= 9999 {
        padded(year as nat, 4)
    } else if year < 0 {
        "-"@ + padded((-year) as nat, 4)
    } else {
        "+"@ + padded(year as nat, 4)
    }
}

/// A date and a time of the day, to the minute.
pub open spec fn moment_text(year: int, month: int, day: int, second_of_day: int) -> Seq<char> {
    year_text(year) + "-"@ + padded(month as nat, 2) + "-"@ + padded(day as nat, 2) + " "@ + padded(
        (second_of_day / 3600) as nat,
        2,
    ) + ":"@ + padded((second_of_day / 60 % 60) as nat, 2)
}

/// Whether a text is how a moment can be written in local time.
pub open spec fn may_be_written(ms: int, text: Seq<char>) -> bool {
    exists|offset: int, year: int, month: int, day: int|
        is_offset(offset) && is_date(year, month, day) && day_number(year, month, day) == local_day(
            ms,
            offset,
        ) && text == #[trigger] moment_text(year, month, day, second_of_day(ms, offset))
}

/// Writes a moment in local time: `Local.timestamp_millis_opt(..).single()` of `chrono`, and
/// `format("%Y-%m-%d %H:%M")` of it. There is a text for every moment of the calendar and for no
/// other; it holds the Gregorian date and the time of the day by some offset. Which offset holds is
/// up to the time zone of the machine.
#[verifier::external_body]
pub(crate) fn write_local_moment(ms: i64) -> (text: Option<String>)
    ensures
        text is Some <==> in_calendar(ms as int),
        text matches Some(t) ==> may_be_written(ms as int, t@),
{
    let moment = Local.timestamp_millis_opt(ms).single()?;
    Some(moment.format("%Y-%m-%d %H:%M").to_string())
}

/// Whether this is what came of writing a moment in local time.
pub closed spec fn moment_showed(ms: i64, text: Option<String>) -> bool {
    call_ensures(write_local_moment, (ms,), text)
}

/// What comes of writing a moment is how it can be written.
pub proof fn the_clock_writes_that_moment(ms: i64, text: Option<String>)
    requires
        moment_showed(ms, text),
    ensures
        text is Some <==> in_calendar(ms as int),
        text matches Some(shown) ==> may_be_written(ms as int, shown@),
{
}

/// Asks for a moment in writing.
fn ask_moment<F: Fn(i64) -> Option<String>>(clock: F, ms: i64) -> (text: Option<String>)
    requires
        call_requires(clock, (ms,)),
    ensures
        call_ensures(clock, (ms,), text),
{
    clock(ms)
}

/// Asks for a moment in writing, in local time.
pub(crate) fn ask_local_moment(ms: i64) -> (text: Option<String>)
    ensures
        moment_showed(ms, text),
        text is Some <==> in_calendar(ms as int),
        text matches Some(shown) ==> may_be_written(ms as int, shown@),
{
    ask_moment(write_local_moment, ms)
}

/// Nothing is said to be shown that the local clock was not asked for.
pub(crate) proof fn only_what_was_asked_is_shown(
    ms: i64,
    hour: u32,
    minute: u32,
    target: Option<i64>,
    day: Option<Weekday>,
    text: Option<String>,
)
    ensures
        clock_showed(ms, hour, minute, target) ==> call_ensures(
            local_time_of_day,
            (ms, hour, minute, 0u32, 0u32),
            target,
        ),
        weekday_showed(ms, day) ==> call_ensures(local_weekday, (ms,), day),
        moment_showed(ms, text) ==> call_ensures(write_local_moment, (ms,), text),
{
}

} // verus!
