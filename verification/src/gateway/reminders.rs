//! Reminders: what `/remind`, `/reminders` and `/reminder` say and do, and when reminders fire.

use crate::gateway::clock::{
    ask_local_clock, ask_local_moment, ask_local_weekday, clock_showed, in_calendar, is_offset,
    local_day, local_seconds, may_be_time_of_day, may_be_written, may_fall_on, moment_showed,
    second_of_day, the_clock_shows_that_time, weekday_of, weekday_showed, Weekday, DAY_MS, LAST_MS,
};
use crate::gateway::duration::{
    a_short_text_can_be_read, a_text_without_units_can_be_read, a_written_number_is_an_amount,
    amount, an_amount_can_be_read, can_be_read, duration_in, is_readable, is_unit_letter,
    may_start, parse_duration_ms, unit_ms, unit_nanos, whole_duration,
};
use crate::number::{
    all_digits, decimal, decimal_reads_back, digits_value, is_digit, parsed_signed,
    parsed_unsigned, read_signed, read_unsigned, signed_decimal, write_signed,
    written_number_reads_back,
};
use crate::text::{
    ascii_lowered, chars_of, find_char, find_space, first_char, first_char_is_first, first_space,
    first_space_is_first, join, joined, quote, quoted, same, same_ignoring_ascii_case, texts, trim,
    trimmed, white_space,
};
use vstd::prelude::*;

verus! {

/// What is said about a `/remind` that cannot be read.
pub const REMIND_USAGE: &'static str =
    "Usage: /remind <when> <message>\n<when> is a duration (30m, 2h, 1d), a HH:MM time, or `daily`/`weekdays` HH:MM.";

/// A text cut at its first white space, if there is one: what stands before it, and what behind.
pub open spec fn cut_at_space(s: Seq<char>) -> Option<(Seq<char>, Seq<char>)> {
    let at = first_space(s, 0);
    if at < s.len() {
        Some((s.take(at), s.skip(at + 1)))
    } else {
        None
    }
}

/// Cuts a text at its first white space.
fn split_at_space<'a>(text: &'a str) -> (parts: Option<(&'a str, &'a str)>)
    ensures
        match parts {
            Some((a, b)) => cut_at_space(text@) == Some((a@, b@)),
            None => cut_at_space(text@) is None,
        },
{
    let chars = chars_of(text);
    let end: usize = chars.len();
    let at = find_space(&chars, 0);
    proof {
        first_space_is_first(text@, 0);
    }
    if at < end {
        assert(text@.subrange(0, at as int) =~= text@.take(at as int));
        assert(text@.subrange(at + 1, text@.len() as int) =~= text@.skip(at + 1));
        Some((text.substring_char(0, at), text.substring_char(at + 1, end)))
    } else {
        None
    }
}

/// How a reminder comes back.
#[derive(Debug, Clone, Copy, PartialEq, Eq, Structural)]
pub enum Recurrence {
    Once,
    Daily,
    Weekdays,
}

/// How a recurrence is stored; nothing for a reminder that fires once.
pub open spec fn recurrence_text(recurrence: Recurrence) -> Seq<char> {
    match recurrence {
        Recurrence::Once => Seq::empty(),
        Recurrence::Daily => "daily"@,
        Recurrence::Weekdays => "weekdays"@,
    }
}

impl Recurrence {
    /// How the recurrence is stored.
    pub fn as_text(self) -> (text: &'static str)
        ensures
            text@ == recurrence_text(self),
    {
        match self {
            Recurrence::Once => {
                proof {
                    reveal_strlit("");
                    assert(""@ =~= Seq::<char>::empty());
                }
                ""
            },
            Recurrence::Daily => "daily",
            Recurrence::Weekdays => "weekdays",
        }
    }
}

/// What the arguments of `/remind` ask for. The text type `S` is `String` in the program and a
/// sequence of characters in contracts.
#[derive(Debug)]
pub enum RemindArgs<S> {
    /// They cannot be read.
    Usage,
    /// A recurring reminder without a time of the day.
    NeedsClock,
    Remind { recurrence: Recurrence, when: S, message: S },
}

impl View for RemindArgs<String> {
    type V = RemindArgs<Seq<char>>;

    open spec fn view(&self) -> RemindArgs<Seq<char>> {
        match self {
            RemindArgs::Usage => RemindArgs::Usage,
            RemindArgs::NeedsClock => RemindArgs::NeedsClock,
            RemindArgs::Remind { recurrence, when, message } => RemindArgs::Remind {
                recurrence: *recurrence,
                when: when@,
                message: message@,
            },
        }
    }
}

/// The recurrence that a word names.
pub open spec fn recurrence_named(word: Seq<char>) -> Recurrence {
    if ascii_lowered(word) == ascii_lowered("daily"@) {
        Recurrence::Daily
    } else if ascii_lowered(word) == ascii_lowered("weekdays"@) {
        Recurrence::Weekdays
    } else {
        Recurrence::Once
    }
}

/// A reminder, unless there is no message, or no time of the day for a recurring one.
pub open spec fn asked(recurrence: Recurrence, when: Seq<char>, message: Seq<char>) -> RemindArgs<
    Seq<char>,
> {
    if message.len() == 0 {
        RemindArgs::Usage
    } else if recurrence !is Once && !when.contains(':') {
        RemindArgs::NeedsClock
    } else {
        RemindArgs::Remind { recurrence, when, message }
    }
}

/// What the arguments of `/remind` ask for.
pub open spec fn remind_args(args: Seq<char>) -> RemindArgs<Seq<char>> {
    match cut_at_space(args) {
        None => RemindArgs::Usage,
        Some((first, rest)) => if recurrence_named(first) is Once {
            asked(Recurrence::Once, first, trimmed(rest))
        } else {
            match cut_at_space(trimmed(rest)) {
                None => RemindArgs::Usage,
                Some((when, message)) => asked(
                    recurrence_named(first),
                    trimmed(when),
                    trimmed(message),
                ),
            }
        },
    }
}

/// Whether a text holds a character.
fn has_char(text: &str, c: char) -> (yes: bool)
    ensures
        yes == text@.contains(c),
{
    let chars = chars_of(text);
    let end: usize = chars.len();
    proof {
        first_char_is_first(text@, c, 0);
    }
    let at = find_char(&chars, c, 0);
    if at < end {
        assert(text@[at as int] == c);
    }
    at < end
}

fn ask(recurrence: Recurrence, when: &str, message: &str) -> (args: RemindArgs<String>)
    ensures
        args@ == asked(recurrence, when@, message@),
{
    if message.is_empty() {
        RemindArgs::Usage
    } else if !matches!(recurrence, Recurrence::Once) && !has_char(when, ':') {
        RemindArgs::NeedsClock
    } else {
        RemindArgs::Remind { recurrence, when: when.to_owned(), message: message.to_owned() }
    }
}

/// Reads the arguments of `/remind`.
pub fn read_remind_args(args: &str) -> (read: RemindArgs<String>)
    ensures
        read@ == remind_args(args@),
{
    match split_at_space(args) {
        None => RemindArgs::Usage,
        Some((first, rest)) => {
            let recurrence = if same_ignoring_ascii_case(first, "daily") {
                Recurrence::Daily
            } else if same_ignoring_ascii_case(first, "weekdays") {
                Recurrence::Weekdays
            } else {
                Recurrence::Once
            };
            if matches!(recurrence, Recurrence::Once) {
                ask(recurrence, first, trim(rest))
            } else {
                match split_at_space(trim(rest)) {
                    None => RemindArgs::Usage,
                    Some((when, message)) => ask(recurrence, trim(when), trim(message)),
                }
            }
        },
    }
}

/// The hour and the minute of a `HH:MM` text.
pub open spec fn clock_of(s: Seq<char>) -> Option<(int, int)> {
    let at = first_char(s, ':', 0);
    if at < s.len() {
        match (
            parsed_unsigned(s.take(at), u32::MAX as int),
            parsed_unsigned(s.skip(at + 1), u32::MAX as int),
        ) {
            (Some(hour), Some(minute)) => if hour <= 23 && minute <= 59 {
                Some((hour, minute))
            } else {
                None
            },
            _ => None,
        }
    } else {
        None
    }
}

/// Reads the hour and the minute of a `HH:MM` text.
pub fn read_clock(text: &str) -> (clock: Option<(u32, u32)>)
    ensures
        clock matches Some((hour, minute)) ==> clock_of(text@) == Some((hour as int, minute as int))
            && hour <= 23 && minute <= 59,
        clock is None ==> clock_of(text@) is None,
{
    let chars = chars_of(text);
    let end: usize = chars.len();
    proof {
        first_char_is_first(text@, ':', 0);
    }
    let at = find_char(&chars, ':', 0);
    if at >= end {
        return None;
    }
    assert(text@.subrange(0, at as int) =~= text@.take(at as int));
    assert(text@.subrange(at + 1, text@.len() as int) =~= text@.skip(at + 1));
    let hour = match read_unsigned(text.substring_char(0, at), u32::MAX as u64) {
        Some(hour) => hour,
        None => return None,
    };
    let minute = match read_unsigned(text.substring_char(at + 1, end), u32::MAX as u64) {
        Some(minute) => minute,
        None => return None,
    };
    if hour > 23 || minute > 59 {
        return None;
    }
    Some((hour as u32, minute as u32))
}

/// The moment after a duration, or the last one that there is a number for; none for a duration
/// that there is no number for.
pub open spec fn moment_after(now: int, duration: int) -> Option<int> {
    if duration > i64::MAX {
        None
    } else if now + duration > i64::MAX {
        Some(i64::MAX as int)
    } else {
        Some(now + duration)
    }
}

/// Adds a duration in milliseconds to a moment.
pub fn after_duration(now_ms: i64, duration_ms: u128) -> (moment: Option<i64>)
    ensures
        match moment {
            Some(ms) => moment_after(now_ms as int, duration_ms as int) == Some(ms as int),
            None => moment_after(now_ms as int, duration_ms as int) is None,
        },
{
    if duration_ms > i64::MAX as u128 {
        return None;
    }
    let millis: i64 = duration_ms as i64;
    match now_ms.checked_add(millis) {
        Some(moment) => Some(moment),
        None => Some(i64::MAX),
    }
}

/// The next time that a clock shows what it shows at `target` today.
pub open spec fn next_time(target: int, now: int) -> int {
    if target <= now {
        target + DAY_MS
    } else {
        target
    }
}

/// Gives the next time that a clock shows what it shows at `target` today.
pub fn next_occurrence(target_ms: i64, now_ms: i64) -> (fire_at: i64)
    requires
        target_ms <= now_ms ==> target_ms <= i64::MAX - DAY_MS,
    ensures
        fire_at == next_time(target_ms as int, now_ms as int),
{
    if target_ms <= now_ms {
        target_ms + DAY_MS
    } else {
        target_ms
    }
}

/// A text with an hour and a minute can be read as a duration, and is none: it holds a colon, and
/// no unit.
proof fn a_clock_is_no_duration(s: Seq<char>)
    requires
        clock_of(s) is Some,
    ensures
        can_be_read(s),
        s.contains(':'),
{
    let at = first_char(s, ':', 0);
    first_char_is_first(s, ':', 0);
    assert(s[at] == ':');
    let hour = s.take(at);
    let minute = s.skip(at + 1);
    assert forall|i: int| 0 <= i < s.len() implies !is_unit_letter(#[trigger] s[i]) by {
        if i < at {
            assert(hour[i] == s[i]);
            assert(i > 0 ==> hour.skip(1)[i - 1] == hour[i]);
        } else if i > at {
            let j = i - at - 1;
            assert(minute[j] == s[i]);
            assert(j > 0 ==> minute.skip(1)[j - 1] == minute[j]);
        }
    }
    a_text_without_units_can_be_read(s);
}

/// What a reminder time comes to.
#[derive(Clone, Copy, Debug, PartialEq, Eq, Structural)]
pub enum Resolved {
    /// The reminder fires at this moment.
    At(i64),
    /// The time is not understood.
    Unknown,
    /// It is a time of the day that has passed, and the calendar ends before it comes again.
    PastEnd,
}

/// What a duration comes to.
pub open spec fn resolved_after(now: int, duration: int) -> Resolved {
    match moment_after(now, duration) {
        Some(ms) => Resolved::At(ms as i64),
        None => Resolved::Unknown,
    }
}

/// What a whole number with a unit comes to.
pub open spec fn resolved_amount(now: int, digits: Seq<char>, unit: Seq<char>) -> Resolved {
    match whole_duration(digits_value(digits), unit_nanos(unit)) {
        Some(duration) => resolved_after(now, duration),
        None => Resolved::Unknown,
    }
}

/// Whether `fire_at` can be the next time that the local clock shows this time of the day.
pub open spec fn may_be_next_time(now: int, fire_at: int, hour: int, minute: int) -> bool {
    exists|target: int| #[trigger]
        may_be_time_of_day(now, target, hour, minute, 0, 0) && fire_at == next_time(target, now)
}

/// What a time of the day comes to, given when the clock shows it today: the next time that it does,
/// as far as the calendar goes. It is not understood where the clock does not show it today.
pub open spec fn clock_resolved(now: int, target: Option<int>) -> Resolved {
    match target {
        Some(today) => if today <= now && today + DAY_MS > LAST_MS {
            Resolved::PastEnd
        } else {
            Resolved::At(next_time(today, now) as i64)
        },
        None => Resolved::Unknown,
    }
}

/// The whole number in an optional one.
pub open spec fn maybe_int(value: Option<i64>) -> Option<int> {
    match value {
        Some(v) => Some(v as int),
        None => None,
    }
}

/// Resolves a time of the day, given when the clock shows it today.
pub fn resolve_clock_given(now_ms: i64, target_ms: Option<i64>) -> (resolved: Resolved)
    ensures
        resolved == clock_resolved(now_ms as int, maybe_int(target_ms)),
{
    match target_ms {
        Some(today) => if today <= now_ms && today > LAST_MS - DAY_MS {
            Resolved::PastEnd
        } else {
            Resolved::At(next_occurrence(today, now_ms))
        },
        None => Resolved::Unknown,
    }
}

/// Whether this can be when the local clock shows a time of the day on the day of now. There may be
/// no such moment, as the time zone has it, and there is none outside the calendar.
pub open spec fn may_show(now: int, hour: int, minute: int, target: Option<int>) -> bool {
    match target {
        Some(today) => in_calendar(now) && in_calendar(today) && may_be_time_of_day(
            now,
            today,
            hour,
            minute,
            0,
            0,
        ),
        None => true,
    }
}

/// Whether a time of the day can come to this in some time zone.
pub open spec fn clock_may_come_to(now: int, hour: int, minute: int, resolved: Resolved) -> bool {
    exists|target: Option<int>| #[trigger]
        may_show(now, hour, minute, target) && resolved == clock_resolved(now, target)
}

/// Whether a time of the day came to this by what the local clock showed.
pub open spec fn clock_came_to(now_ms: i64, hour: int, minute: int, resolved: Resolved) -> bool {
    exists|target: Option<i64>| #[trigger]
        clock_showed(now_ms, hour as u32, minute as u32, target) && resolved == clock_resolved(
            now_ms as int,
            maybe_int(target),
        )
}

/// Whether a reminder time can come to this: the moment after the duration, or the next time of the
/// day; any other text is not understood. A text that makes up more than a duration can hold is
/// none.
pub open spec fn may_come_to(when: Seq<char>, now: int, resolved: Resolved) -> bool {
    if !can_be_read(when) {
        resolved is Unknown
    } else {
        match duration_in(when) {
            Some(duration) => resolved == resolved_after(now, duration as int),
            None => match clock_of(when) {
                Some((hour, minute)) => clock_may_come_to(now, hour, minute, resolved),
                None => resolved is Unknown,
            },
        }
    }
}

/// Resolves a reminder time from a duration (`30m`, `2h`, `1d`) or a `HH:MM` local time (the next
/// occurrence today or tomorrow), wherever it can be resolved.
pub fn resolve_when(when: &str, now_ms: i64) -> (resolved: Resolved)
    ensures
        may_come_to(when@, now_ms as int, resolved),
        forall|digits: Seq<char>, unit: Seq<char>|
            all_digits(digits) && unit_nanos(unit) > 0 && when@ == #[trigger] amount(digits, unit)
                ==> resolved == resolved_amount(now_ms as int, digits, unit),
        forall|n: nat, unit: char|
            unit_ms(unit) is Some && when@ == #[trigger] decimal(n).push(unit) ==> resolved
                == resolved_after(now_ms as int, n * unit_ms(unit)->0),
        clock_of(when@) matches Some((hour, minute)) ==> clock_may_come_to(
            now_ms as int,
            hour,
            minute,
            resolved,
        ),
        clock_of(when@) matches Some((hour, minute)) ==> clock_came_to(
            now_ms,
            hour,
            minute,
            resolved,
        ),
        clock_of(when@) is None && (when@.contains(':') || !may_start(when@)) ==> resolved
            is Unknown,
{
    proof {
        if clock_of(when@) is Some {
            a_clock_is_no_duration(when@);
        }
        assert forall|digits: Seq<char>, unit: Seq<char>|
            all_digits(digits) && unit_nanos(unit) > 0 && when@ == #[trigger] amount(
                digits,
                unit,
            ) implies can_be_read(when@) && clock_of(when@) is None && (whole_duration(
            digits_value(digits),
            unit_nanos(unit),
        ) matches Some(ms) ==> 0 <= ms <= u64::MAX * 1000) by {
            an_amount_can_be_read(digits, unit);
        }
        assert forall|n: nat, unit: char|
            unit_ms(unit) is Some && when@ == #[trigger] decimal(n).push(unit) implies when@
            == amount(decimal(n), seq![unit]) && unit_nanos(seq![unit]) > 0 && all_digits(
            decimal(n),
        ) && resolved_amount(now_ms as int, decimal(n), seq![unit]) == resolved_after(
            now_ms as int,
            n * unit_ms(unit)->0,
        ) by {
            a_written_number_is_an_amount(n, unit);
        }
    }
    if !is_readable(when) {
        return Resolved::Unknown;
    }
    if let Some(duration) = parse_duration_ms(when) {
        return match after_duration(now_ms, duration) {
            Some(moment) => Resolved::At(moment),
            None => Resolved::Unknown,
        };
    }
    let (hour, minute) = match read_clock(when) {
        Some(clock) => clock,
        None => return Resolved::Unknown,
    };
    let target = ask_local_clock(now_ms, hour, minute);
    proof {
        the_clock_shows_that_time(now_ms, hour, minute, target);
    }
    assert(may_show(now_ms as int, hour as int, minute as int, maybe_int(target)));
    assert(clock_showed(now_ms, (hour as int) as u32, (minute as int) as u32, target));
    resolve_clock_given(now_ms, target)
}

/// Whether `parse_when` can be asked. The text must be one that can be read as a duration, which
/// every short one is. Where it is a time of the day, the day after now must lie in the calendar,
/// or now must lie outside of it: in the last day of the calendar the time zone decides whether the
/// time has passed, and `resolve_when` looks.
pub open spec fn can_resolve(when: Seq<char>, now: int) -> bool {
    &&& when.len() <= 11 || can_be_read(when)
    &&& clock_of(when) is Some ==> now <= LAST_MS - DAY_MS || now > LAST_MS
}

/// Tells whether `parse_when` can be asked.
pub fn is_resolvable(when: &str, now_ms: i64) -> (yes: bool)
    ensures
        yes == can_resolve(when@, now_ms as int),
{
    proof {
        if when@.len() <= 11 {
            a_short_text_can_be_read(when@);
        }
    }
    is_readable(when) && (now_ms <= LAST_MS - DAY_MS || now_ms > LAST_MS
        || read_clock(when).is_none())
}

/// Whether `fire_at` can be what a reminder time comes to: the moment after the duration; or the
/// next time of the day, where the time zone has it; nothing for any other text.
pub open spec fn may_resolve_to(when: Seq<char>, now: int, fire_at: Option<int>) -> bool {
    match duration_in(when) {
        Some(duration) => fire_at == moment_after(now, duration as int),
        None => match clock_of(when) {
            Some((hour, minute)) => {
                &&& !in_calendar(now) ==> fire_at is None
                &&& fire_at matches Some(ms) ==> may_be_next_time(now, ms, hour, minute)
            },
            None => fire_at is None,
        },
    }
}

/// Resolves a reminder time from a duration (`30m`, `2h`, `1d`) or a `HH:MM` local time (the next
/// occurrence today or tomorrow).
pub fn parse_when(when: &str, now_ms: i64) -> (fire_at: Option<i64>)
    requires
        can_resolve(when@, now_ms as int),
    ensures
        may_resolve_to(when@, now_ms as int, maybe_int(fire_at)),
        forall|digits: Seq<char>, unit: Seq<char>|
            all_digits(digits) && unit_nanos(unit) > 0 && when@ == #[trigger] amount(digits, unit)
                ==> match whole_duration(digits_value(digits), unit_nanos(unit)) {
                Some(duration) => maybe_int(fire_at) == moment_after(now_ms as int, duration),
                None => fire_at is None,
            },
        forall|n: nat, unit: char|
            unit_ms(unit) is Some && when@ == #[trigger] decimal(n).push(unit) ==> maybe_int(
                fire_at,
            ) == moment_after(now_ms as int, n * unit_ms(unit)->0),
        clock_of(when@) matches Some((hour, minute)) ==> (fire_at matches Some(ms)
            ==> may_be_next_time(now_ms as int, ms as int, hour, minute)),
        clock_of(when@) matches Some((hour, minute)) ==> clock_came_to(
            now_ms,
            hour,
            minute,
            match fire_at {
                Some(ms) => Resolved::At(ms),
                None => Resolved::Unknown,
            },
        ),
        clock_of(when@) is None && (when@.contains(':') || !may_start(when@)) ==> fire_at is None,
{
    proof {
        if when@.len() <= 11 {
            a_short_text_can_be_read(when@);
        }
        assert forall|digits: Seq<char>, unit: Seq<char>|
            all_digits(digits) && unit_nanos(unit) > 0 && when@ == #[trigger] amount(
                digits,
                unit,
            ) implies (whole_duration(digits_value(digits), unit_nanos(unit)) matches Some(ms)
            ==> 0 <= ms) by {
            an_amount_can_be_read(digits, unit);
        }
    }
    match resolve_when(when, now_ms) {
        Resolved::At(fire_at) => Some(fire_at),
        Resolved::Unknown => None,
        Resolved::PastEnd => {
            proof {
                let (hour, minute) = clock_of(when@)->0;
                let target = choose|target: Option<i64>| #[trigger]
                    clock_showed(now_ms, hour as u32, minute as u32, target)
                        && Resolved::PastEnd == clock_resolved(now_ms as int, maybe_int(target));
                the_clock_shows_that_time(now_ms, hour as u32, minute as u32, target);
            }
            None
        },
    }
}

/// A time of the day lies ahead, and within the next day, where today's lies within a day of now.
pub proof fn the_next_time_is_ahead(target: int, now: int)
    requires
        now - DAY_MS < target <= now + DAY_MS,
    ensures
        now < next_time(target, now) <= now + DAY_MS,
{
}

/// Where the clock is not changed between now and the time of the day that is meant, the reminder
/// fires within the next day, and at a whole minute where the clock differs from UTC by whole
/// minutes.
pub proof fn a_clock_time_fires_within_a_day(
    now: int,
    target: int,
    offset: int,
    hour: int,
    minute: int,
)
    requires
        local_day(now, offset) == local_day(target, offset),
        second_of_day(target, offset) == hour * 3600 + minute * 60,
        target % 1000 == 0,
    ensures
        now < next_time(target, now) <= now + DAY_MS,
        offset % 60 == 0 ==> next_time(target, now) % 60_000 == 0,
{
    let a = local_seconds(now, offset);
    let b = local_seconds(target, offset);
    assert(a == 86_400 * (a / 86_400) + a % 86_400);
    assert(b == 86_400 * (b / 86_400) + b % 86_400);
    assert(-86_400 < b - a < 86_400);
    assert(target == 1000 * (target / 1000));
    assert(now == 1000 * (now / 1000) + now % 1000);
    if offset % 60 == 0 {
        let minutes = 1440 * (b / 86_400) + hour * 60 + minute - offset / 60;
        assert(target == 60_000 * minutes);
    }
}

/// Whether a day of the week is free.
pub open spec fn is_weekend(day: Weekday) -> bool {
    day is Sat || day is Sun
}

/// Whether the day of this index is the first that is not free.
pub open spec fn is_first_workday(days: Seq<Weekday>, at: int) -> bool {
    0 <= at < days.len() && !is_weekend(days[at]) && forall|i: int|
        0 <= i < at ==> is_weekend(#[trigger] days[i])
}

/// Computes the next fire time of a recurring reminder, given on which days of the week the days
/// after it fall; none for a reminder that fires once, or an unknown recurrence.
pub fn next_recurrence_given(fire_at_ms: i64, recurrence: &str, days: &Vec<Weekday>) -> (next:
    Option<i64>)
    requires
        days@.len() <= 7,
        fire_at_ms <= i64::MAX - 7 * DAY_MS,
    ensures
        recurrence@ == "daily"@ ==> next == Some((fire_at_ms + DAY_MS) as i64),
        recurrence@ == "weekdays"@ ==> match next {
            Some(ms) => exists|at: int| #[trigger]
                is_first_workday(days@, at) && ms == fire_at_ms + (at + 1) * DAY_MS,
            None => forall|i: int| 0 <= i < days@.len() ==> is_weekend(#[trigger] days@[i]),
        },
        recurrence@ != "daily"@ && recurrence@ != "weekdays"@ ==> next is None,
{
    proof {
        reveal_strlit("daily");
        reveal_strlit("weekdays");
        assert("daily"@.len() != "weekdays"@.len());
    }
    if same(recurrence, "daily") {
        return Some(fire_at_ms + DAY_MS);
    }
    if !same(recurrence, "weekdays") {
        return None;
    }
    let mut i: usize = 0;
    let mut next: i64 = fire_at_ms;
    while i < days.len()
        invariant
            i <= days@.len() <= 7,
            fire_at_ms <= i64::MAX - 7 * DAY_MS,
            next == fire_at_ms + i * DAY_MS,
            recurrence@ == "weekdays"@,
            "daily"@ != "weekdays"@,
            forall|j: int| 0 <= j < i ==> is_weekend(#[trigger] days@[j]),
        decreases days@.len() - i,
    {
        next = next + DAY_MS;
        if !matches!(days[i], Weekday::Sat | Weekday::Sun) {
            assert(is_first_workday(days@, i as int));
            return Some(next);
        }
        i = i + 1;
    }
    None
}

/// Whether these can be the days of the week on which the days after a moment fall.
pub open spec fn may_follow(ms: int, days: Seq<Weekday>) -> bool {
    forall|i: int|
        0 <= i < days.len() ==> may_fall_on(ms + (i + 1) * DAY_MS, #[trigger] days[i])
}

/// Some days later, the local day is that many days later in UTC, or one more or less.
proof fn a_later_day_is_near(ms: int, days: int, offset: int)
    requires
        is_offset(offset),
    ensures
        -1 <= local_day(ms + days * DAY_MS, offset) - (ms / 1000 / 86_400 + days) <= 1,
{
    let seconds = ms / 1000;
    let today = seconds / 86_400;
    let later = ms + days * DAY_MS;
    assert(later / 1000 == seconds + 86_400 * days) by {
        assert(later == 1000 * (seconds + 86_400 * days) + ms % 1000);
    }
    let shown = later / 1000 + offset;
    let day = shown / 86_400;
    assert(86_400 * today <= seconds < 86_400 * (today + 1));
    assert(86_400 * day <= shown < 86_400 * (day + 1));
    assert(86_400 * (today + days - 1) < shown < 86_400 * (today + days + 2));
}

/// Among five days in a row there is one that is not free in any time zone.
proof fn five_days_hold_a_workday(ms: int) -> (k: int)
    ensures
        1 <= k <= 5,
        forall|day: Weekday| #[trigger]
            may_fall_on(ms + k * DAY_MS, day) ==> !is_weekend(day),
{
    let today = ms / 1000 / 86_400;
    let tomorrow = (today + 4) % 7;
    let k = if tomorrow == 0 {
        2
    } else if tomorrow <= 3 {
        1
    } else {
        9 - tomorrow
    };
    let later = ms + k * DAY_MS;
    let weeks = (today + k + 3) / 7;
    assert(7 * weeks + 1 <= today + k + 3 <= 7 * weeks + 3);
    assert forall|day: Weekday| #[trigger] may_fall_on(later, day) implies !is_weekend(day) by {
        let offset = choose|offset: int|
            is_offset(offset) && weekday_of(#[trigger] local_day(later, offset)) == day;
        a_later_day_is_near(ms, k, offset);
        let since_monday = local_day(later, offset) + 3 - 7 * weeks;
        assert(0 <= since_monday <= 4);
        assert((local_day(later, offset) + 3) % 7 == since_monday);
    }
    k
}

/// What becomes of a reminder that has fired.
#[derive(Clone, Copy, Debug, PartialEq, Eq, Structural)]
pub enum Recurred {
    /// It fires again at this moment.
    At(i64),
    /// It does not fire again.
    Never,
    /// The calendar ends before the next time.
    PastEnd,
}

/// Whether all of these days are free.
pub open spec fn all_free(days: Seq<Weekday>) -> bool {
    forall|i: int| 0 <= i < days.len() ==> is_weekend(#[trigger] days[i])
}

/// Whether `next` can be the next time on a weekday: as many days later as it takes to get to the
/// first day that is not free.
pub open spec fn may_be_next_weekday(fire_at: int, next: int) -> bool {
    exists|days: Seq<Weekday>| #[trigger]
        may_follow(fire_at, days) && 1 <= days.len() <= 5 && is_first_workday(
            days,
            days.len() - 1,
        ) && next == fire_at + days.len() * DAY_MS
}

/// Whether all days after a moment that the calendar still has can be free.
pub open spec fn may_run_out_of_days(fire_at: int) -> bool {
    exists|days: Seq<Weekday>| #[trigger]
        may_follow(fire_at, days) && all_free(days) && fire_at + (days.len() + 1) * DAY_MS > LAST_MS
}

/// Whether this can become of a reminder that has fired. The day after it must lie in the calendar,
/// whatever the recurrence.
pub open spec fn may_recur(fire_at: int, recurrence: Seq<char>, next: Recurred) -> bool {
    if !in_calendar(fire_at) {
        next is Never
    } else if fire_at + DAY_MS > LAST_MS {
        next is PastEnd
    } else if recurrence == "daily"@ {
        next == Recurred::At((fire_at + DAY_MS) as i64)
    } else if recurrence == "weekdays"@ {
        match next {
            Recurred::At(ms) => ms <= LAST_MS && may_be_next_weekday(fire_at, ms as int),
            Recurred::Never => false,
            Recurred::PastEnd => may_run_out_of_days(fire_at),
        }
    } else {
        next is Never
    }
}

/// Whether these are the days of the week that the local clock showed for the days after a moment.
pub open spec fn days_showed(fire_at_ms: i64, days: Seq<Weekday>) -> bool {
    forall|i: int|
        0 <= i < days.len() ==> weekday_showed(
            (fire_at_ms + (i + 1) * DAY_MS) as i64,
            Some(#[trigger] days[i]),
        )
}

/// Whether a reminder on weekdays came to this by the days that the local clock showed: it fires
/// again on the first that is not free, unless all are that the calendar still has.
pub open spec fn weekdays_came_to(fire_at_ms: i64, next: Recurred) -> bool {
    exists|days: Seq<Weekday>| #[trigger]
        days_showed(fire_at_ms, days) && match next {
            Recurred::At(ms) => is_first_workday(days, days.len() - 1) && ms == fire_at_ms
                + days.len() * DAY_MS,
            Recurred::Never => false,
            Recurred::PastEnd => all_free(days) && fire_at_ms + (days.len() + 1) * DAY_MS
                > LAST_MS,
        }
}

/// Computes what becomes of a reminder that has fired, up to the end of the calendar.
pub fn advance_recurrence(fire_at_ms: i64, recurrence: &str) -> (next: Recurred)
    ensures
        may_recur(fire_at_ms as int, recurrence@, next),
        in_calendar(fire_at_ms as int) && fire_at_ms + DAY_MS <= LAST_MS && recurrence@
            == "weekdays"@ ==> weekdays_came_to(fire_at_ms, next),
{
    proof {
        reveal_strlit("daily");
        reveal_strlit("weekdays");
        assert("daily"@.len() != "weekdays"@.len());
    }
    if ask_local_weekday(fire_at_ms).is_none() {
        return Recurred::Never;
    }
    if fire_at_ms > LAST_MS - DAY_MS {
        return Recurred::PastEnd;
    }
    let mut days: Vec<Weekday> = Vec::new();
    if same(recurrence, "weekdays") {
        let mut next: i64 = fire_at_ms;
        loop
            invariant_except_break
                all_free(days@),
            invariant
                days@.len() <= 5,
                may_follow(fire_at_ms as int, days@),
                days_showed(fire_at_ms, days@),
                next == fire_at_ms + days@.len() * DAY_MS,
                next <= LAST_MS,
                in_calendar(fire_at_ms as int),
                fire_at_ms <= LAST_MS - DAY_MS,
                recurrence@ == "weekdays"@,
                "daily"@ != "weekdays"@,
            ensures
                days@.len() > 0,
                is_first_workday(days@, days@.len() - 1),
            decreases 5 - days@.len(),
        {
            proof {
                let k = five_days_hold_a_workday(fire_at_ms as int);
                if days@.len() == 5 {
                    assert(may_fall_on(fire_at_ms + k * DAY_MS, days@[k - 1]));
                }
            }
            if next > LAST_MS - DAY_MS {
                assert(may_run_out_of_days(fire_at_ms as int));
                assert(weekdays_came_to(fire_at_ms, Recurred::PastEnd));
                return Recurred::PastEnd;
            }
            next = next + DAY_MS;
            let day = match ask_local_weekday(next) {
                Some(day) => day,
                None => return Recurred::PastEnd,
            };
            let ghost before = days@;
            days.push(day);
            assert(may_follow(fire_at_ms as int, days@)) by {
                assert forall|i: int| 0 <= i < days@.len() implies may_fall_on(
                    fire_at_ms + (i + 1) * DAY_MS,
                    #[trigger] days@[i],
                ) by {
                    if i < before.len() {
                        assert(days@[i] == before[i]);
                    }
                }
            }
            assert(days_showed(fire_at_ms, days@)) by {
                assert forall|i: int| 0 <= i < days@.len() implies weekday_showed(
                    (fire_at_ms + (i + 1) * DAY_MS) as i64,
                    Some(#[trigger] days@[i]),
                ) by {
                    if i < before.len() {
                        assert(days@[i] == before[i]);
                    }
                }
            }
            if !matches!(day, Weekday::Sat | Weekday::Sun) {
                break;
            }
        }
    }
    let next = next_recurrence_given(fire_at_ms, recurrence, &days);
    proof {
        if recurrence@ == "weekdays"@ {
            assert(next is Some) by {
                assert(!is_weekend(days@[days@.len() - 1]));
            }
            let at = choose|at: int| #[trigger]
                is_first_workday(days@, at) && next->0 == fire_at_ms + (at + 1) * DAY_MS;
            assert(at == days@.len() - 1) by {
                if at < days@.len() - 1 {
                    assert(is_weekend(days@[at]));
                }
            }
            assert(may_be_next_weekday(fire_at_ms as int, next->0 as int));
            assert(weekdays_came_to(fire_at_ms, Recurred::At(next->0)));
        }
    }
    match next {
        Some(ms) => Recurred::At(ms),
        None => Recurred::Never,
    }
}

/// Whether `next_recurrence` can be asked: a day later, or five days later for weekdays, must lie
/// in the calendar, or the reminder must lie outside of it. Nearer to the end of the calendar the
/// time zone decides how many days are free; `advance_recurrence` looks.
pub open spec fn can_recur(fire_at: int, recurrence: Seq<char>) -> bool {
    fire_at > LAST_MS || fire_at <= LAST_MS - (if recurrence == "weekdays"@ {
        5 * DAY_MS
    } else {
        DAY_MS as int
    })
}

/// Tells whether `next_recurrence` can be asked.
pub fn is_recurrable(fire_at_ms: i64, recurrence: &str) -> (yes: bool)
    ensures
        yes == can_recur(fire_at_ms as int, recurrence@),
{
    let ahead: i64 = if same(recurrence, "weekdays") {
        5 * DAY_MS
    } else {
        DAY_MS
    };
    fire_at_ms > LAST_MS || fire_at_ms <= LAST_MS - ahead
}

/// Computes the next fire time for a recurring reminder, or none for a one-off or unknown
/// recurrence.
pub fn next_recurrence(fire_at_ms: i64, recurrence: &str) -> (next: Option<i64>)
    requires
        can_recur(fire_at_ms as int, recurrence@),
    ensures
        !in_calendar(fire_at_ms as int) ==> next is None,
        in_calendar(fire_at_ms as int) && recurrence@ == "daily"@ ==> next == Some(
            (fire_at_ms + DAY_MS) as i64,
        ),
        in_calendar(fire_at_ms as int) && recurrence@ == "weekdays"@ ==> next is Some
            && may_be_next_weekday(fire_at_ms as int, next->0 as int) && weekdays_came_to(
            fire_at_ms,
            Recurred::At(next->0),
        ),
        recurrence@ != "daily"@ && recurrence@ != "weekdays"@ ==> next is None,
{
    proof {
        reveal_strlit("daily");
        reveal_strlit("weekdays");
        assert("daily"@.len() != "weekdays"@.len());
    }
    match advance_recurrence(fire_at_ms, recurrence) {
        Recurred::At(ms) => Some(ms),
        Recurred::Never => None,
        Recurred::PastEnd => {
            proof {
                let days = choose|days: Seq<Weekday>| #[trigger]
                    may_follow(fire_at_ms as int, days) && all_free(days) && fire_at_ms + (
                    days.len() + 1) * DAY_MS > LAST_MS;
                let k = five_days_hold_a_workday(fire_at_ms as int);
                assert(may_fall_on(fire_at_ms + (k - 1 + 1) * DAY_MS, days[k - 1]));
            }
            None
        },
    }
}

/// A recurring reminder comes back a whole number of days later, at least one and at most five;
/// so it fires later than before.
pub proof fn a_recurring_reminder_moves_on(fire_at: int, next: int)
    requires
        may_be_next_weekday(fire_at, next),
    ensures
        fire_at + DAY_MS <= next <= fire_at + 5 * DAY_MS,
        (next - fire_at) % (DAY_MS as int) == 0,
        exists|day: Weekday| #[trigger] may_fall_on(next, day) && !is_weekend(day),
{
    let days = choose|days: Seq<Weekday>| #[trigger]
        may_follow(fire_at, days) && 1 <= days.len() <= 5 && is_first_workday(
            days,
            days.len() - 1,
        ) && next == fire_at + days.len() * DAY_MS;
    assert(may_fall_on(fire_at + (days.len() - 1 + 1) * DAY_MS, days[days.len() - 1]));
    assert((next - fire_at) % (DAY_MS as int) == 0) by (nonlinear_arith)
        requires
            next - fire_at == days.len() * DAY_MS,
            DAY_MS == 86_400_000,
    ;
}

/// Whether a text can stand for a moment: how it is written in local time, or other words for one
/// outside the calendar.
pub open spec fn may_stand_for(ms: int, text: Seq<char>) -> bool {
    if in_calendar(ms) {
        may_be_written(ms, text)
    } else {
        text == "the scheduled time"@
    }
}

/// Whether this is how a moment was told: as the local clock wrote it, or in other words where it
/// did not.
pub open spec fn was_told_as(ms: i64, text: Seq<char>) -> bool {
    exists|shown: Option<String>| #[trigger]
        moment_showed(ms, shown) && text == (match shown {
            Some(written) => written@,
            None => "the scheduled time"@,
        })
}

/// Writes a moment in local time.
pub fn format_local(ms: i64) -> (text: String)
    ensures
        may_stand_for(ms as int, text@),
        was_told_as(ms, text@),
{
    match ask_local_moment(ms) {
        Some(text) => text,
        None => "the scheduled time".to_owned(),
    }
}

/// A reminder that is to be stored.
#[derive(Debug)]
pub struct NewReminder {
    pub message: String,
    pub fire_at_ms: i64,
    pub recurrence: Recurrence,
}

/// What is done about a `/remind`.
#[derive(Debug)]
pub enum RemindStep {
    /// The sender is told this.
    Reply(String),
    /// The reminder is stored.
    Store(NewReminder),
}

/// What is said about a recurring reminder without a time of the day.
pub open spec fn needs_clock() -> Seq<char> {
    "Recurring reminders need a HH:MM time, e.g. /remind daily 09:00 <message>."@
}

/// What is said about a time that is not understood, given how it is quoted.
pub open spec fn not_understood(quote: Seq<char>) -> Seq<char> {
    "Couldn't understand the time "@ + quote + ". Use a duration like 2h or a HH:MM time."@
}

/// What is done about arguments of `/remind`, given what their time came to.
pub open spec fn remind_step(
    args: RemindArgs<Seq<char>>,
    resolved: Resolved,
    step: RemindStep,
) -> bool {
    match args {
        RemindArgs::Usage => step matches RemindStep::Reply(reply) && reply@ == REMIND_USAGE@,
        RemindArgs::NeedsClock => step matches RemindStep::Reply(reply) && reply@ == needs_clock(),
        RemindArgs::Remind { recurrence, when, message } => match resolved {
            Resolved::At(ms) => step matches RemindStep::Store(reminder) && reminder.message@
                == message && reminder.fire_at_ms == ms && reminder.recurrence == recurrence,
            Resolved::Unknown | Resolved::PastEnd => step matches RemindStep::Reply(reply) && reply@
                == not_understood(quoted(when)),
        },
    }
}

/// Says that a time is not understood, given how it is quoted.
fn not_understood_reply(quote: &str) -> (reply: String)
    ensures
        reply@ == not_understood(quote@),
{
    let mut reply = "Couldn't understand the time ".to_owned();
    reply.append(quote);
    reply.append(". Use a duration like 2h or a HH:MM time.");
    reply
}

/// Decides what is done about a `/remind`, given what its time came to, where it names one.
pub fn set_reminder_given(args: RemindArgs<String>, resolved: Resolved) -> (step: RemindStep)
    ensures
        remind_step(args@, resolved, step),
{
    match args {
        RemindArgs::Usage => RemindStep::Reply(REMIND_USAGE.to_owned()),
        RemindArgs::NeedsClock => RemindStep::Reply(
            "Recurring reminders need a HH:MM time, e.g. /remind daily 09:00 <message>.".to_owned(),
        ),
        RemindArgs::Remind { recurrence, when, message } => match resolved {
            Resolved::At(fire_at_ms) => RemindStep::Store(
                NewReminder { message, fire_at_ms, recurrence },
            ),
            Resolved::Unknown | Resolved::PastEnd => RemindStep::Reply(
                not_understood_reply(quote(when.as_str()).as_str()),
            ),
        },
    }
}

/// Whether the arguments of a `/remind` name this time.
pub open spec fn asks_for(args: RemindArgs<Seq<char>>, time: Seq<char>) -> bool {
    match args {
        RemindArgs::Remind { when, .. } => when == time,
        _ => false,
    }
}

/// Whether the time in the arguments of a `/remind`, where they name one, can come to this.
pub open spec fn args_may_come_to(
    args: RemindArgs<Seq<char>>,
    now: int,
    resolved: Resolved,
) -> bool {
    match args {
        RemindArgs::Remind { when, .. } => {
            &&& may_come_to(when, now, resolved)
            &&& clock_of(when) matches Some((hour, minute)) ==> clock_may_come_to(
                now,
                hour,
                minute,
                resolved,
            )
        },
        _ => true,
    }
}

/// Whether this can be done about a `/remind` at this time.
pub open spec fn may_be_done(args: Seq<char>, now: int, step: RemindStep) -> bool {
    exists|resolved: Resolved| #[trigger]
        args_may_come_to(remind_args(args), now, resolved) && remind_step(
            remind_args(args),
            resolved,
            step,
        )
}

/// Decides what is done about a `/remind`.
pub fn set_reminder(args: &str, now_ms: i64) -> (step: RemindStep)
    ensures
        may_be_done(args@, now_ms as int, step),
        forall|digits: Seq<char>, unit: Seq<char>|
            all_digits(digits) && unit_nanos(unit) > 0 && asks_for(
                remind_args(args@),
                #[trigger] amount(digits, unit),
            ) ==> remind_step(
                remind_args(args@),
                resolved_amount(now_ms as int, digits, unit),
                step,
            ),
        forall|n: nat, unit: char|
            unit_ms(unit) is Some && asks_for(
                remind_args(args@),
                #[trigger] decimal(n).push(unit),
            ) ==> remind_step(
                remind_args(args@),
                resolved_after(now_ms as int, n * unit_ms(unit)->0),
                step,
            ),
        remind_args(args@) matches RemindArgs::Remind { when, .. } ==> (clock_of(when) matches Some(
            (hour, minute),
        ) ==> exists|target: Option<i64>| #[trigger]
            clock_showed(now_ms, hour as u32, minute as u32, target) && remind_step(
                remind_args(args@),
                clock_resolved(now_ms as int, maybe_int(target)),
                step,
            )),
{
    let read = read_remind_args(args);
    let resolved = match &read {
        RemindArgs::Remind { when, .. } => resolve_when(when.as_str(), now_ms),
        _ => Resolved::Unknown,
    };
    assert(args_may_come_to(remind_args(args@), now_ms as int, resolved));
    set_reminder_given(read, resolved)
}

/// What is said about a stored reminder, given its fire time in words.
pub open spec fn set_text(recurrence: Recurrence, time: Seq<char>) -> Seq<char> {
    if recurrence is Once {
        "⏰ Reminder set for "@ + time + "."@
    } else {
        "⏰ Recurring reminder ("@ + recurrence_text(recurrence) + ") set, next at "@ + time + "."@
    }
}

/// Tells what became of storing a reminder, given its fire time in words.
pub fn reminder_set_given(recurrence: Recurrence, time: &str) -> (reply: String)
    ensures
        reply@ == set_text(recurrence, time@),
{
    if matches!(recurrence, Recurrence::Once) {
        let mut reply = "⏰ Reminder set for ".to_owned();
        reply.append(time);
        reply.append(".");
        reply
    } else {
        let mut reply = "⏰ Recurring reminder (".to_owned();
        reply.append(recurrence.as_text());
        reply.append(") set, next at ");
        reply.append(time);
        reply.append(".");
        reply
    }
}

/// Tells what became of storing a reminder.
pub fn reminder_set(reminder: &NewReminder, stored: &Result<(), String>) -> (reply: String)
    ensures
        match stored {
            Ok(_) => exists|time: Seq<char>| #[trigger]
                may_stand_for(reminder.fire_at_ms as int, time) && was_told_as(
                    reminder.fire_at_ms,
                    time,
                ) && reply@ == set_text(reminder.recurrence, time),
            Err(error) => reply@ == "Couldn't save the reminder: "@ + error@,
        },
{
    match stored {
        Ok(_) => {
            let time = format_local(reminder.fire_at_ms);
            reminder_set_given(reminder.recurrence, time.as_str())
        },
        Err(error) => {
            let mut reply = "Couldn't save the reminder: ".to_owned();
            reply.append(error.as_str());
            reply
        },
    }
}

/// A stored reminder that has not fired.
#[derive(Debug)]
pub struct Reminder {
    pub id: i64,
    pub message: String,
    pub fire_at_ms: i64,
    /// As it is stored: nothing for a reminder that fires once.
    pub recurrence: String,
}

/// What the listing says about a recurrence.
pub open spec fn recurrence_note(recurrence: Seq<char>) -> Seq<char> {
    if recurrence.len() == 0 {
        Seq::empty()
    } else {
        " ["@ + recurrence + "]"@
    }
}

/// The line about a reminder, given its fire time in words.
pub open spec fn reminder_line(reminder: Reminder, time: Seq<char>) -> Seq<char> {
    "#"@ + signed_decimal(reminder.id as int) + " · "@ + time + recurrence_note(
        reminder.recurrence@,
    ) + " · "@ + reminder.message@
}

/// The lines about reminders, given their fire times in words.
pub open spec fn reminder_lines(reminders: Seq<Reminder>, times: Seq<Seq<char>>) -> Seq<Seq<char>> {
    Seq::new(reminders.len(), |i: int| reminder_line(reminders[i], times[i]))
}

/// The listing of reminders, given their fire times in words.
pub open spec fn reminders_text(reminders: Seq<Reminder>, times: Seq<Seq<char>>) -> Seq<char> {
    if reminders.len() == 0 {
        "No pending reminders."@
    } else {
        joined(
            (seq!["Pending reminders:"@] + reminder_lines(reminders, times)).push(
                "Cancel with /reminder cancel <id>."@,
            ),
            "\n"@,
        )
    }
}

/// Writes the line about a reminder, given its fire time in words.
fn write_reminder_line(reminder: &Reminder, time: &str) -> (line: String)
    ensures
        line@ == reminder_line(*reminder, time@),
{
    let mut line = "#".to_owned();
    line.append(write_signed(reminder.id).as_str());
    line.append(" · ");
    line.append(time);
    if reminder.recurrence.as_str().is_empty() {
        assert(line@ + Seq::<char>::empty() =~= line@);
    } else {
        let mut note = " [".to_owned();
        note.append(reminder.recurrence.as_str());
        note.append("]");
        line.append(note.as_str());
    }
    line.append(" · ");
    line.append(reminder.message.as_str());
    line
}

/// Lists reminders, given their fire times in words.
pub fn list_reminders_given(reminders: &Vec<Reminder>, times: &Vec<String>) -> (reply: String)
    requires
        times@.len() == reminders@.len(),
    ensures
        reply@ == reminders_text(reminders@, texts(times@)),
{
    if reminders.len() == 0 {
        return "No pending reminders.".to_owned();
    }
    let ghost all = reminder_lines(reminders@, texts(times@));
    let mut lines: Vec<String> = Vec::new();
    lines.push("Pending reminders:".to_owned());
    let mut i: usize = 0;
    assert(texts(lines@) =~= seq!["Pending reminders:"@] + all.take(0));
    while i < reminders.len()
        invariant
            i <= reminders@.len(),
            times@.len() == reminders@.len(),
            all == reminder_lines(reminders@, texts(times@)),
            texts(lines@) == seq!["Pending reminders:"@] + all.take(i as int),
        decreases reminders@.len() - i,
    {
        let ghost before = texts(lines@);
        let line = write_reminder_line(&reminders[i], times[i].as_str());
        lines.push(line);
        assert(texts(lines@) =~= before.push(line@));
        assert(texts(times@)[i as int] == times@[i as int]@);
        assert(seq!["Pending reminders:"@] + all.take(i + 1) =~= before.push(line@));
        i = i + 1;
    }
    assert(all.take(i as int) =~= all);
    let ghost before = texts(lines@);
    lines.push("Cancel with /reminder cancel <id>.".to_owned());
    assert(texts(lines@) =~= before.push("Cancel with /reminder cancel <id>."@));
    join(&lines, "\n")
}

/// Whether these can be the fire times of reminders in words.
pub open spec fn may_be_times(reminders: Seq<Reminder>, times: Seq<Seq<char>>) -> bool {
    times.len() == reminders.len() && forall|i: int|
        0 <= i < reminders.len() ==> may_stand_for(
            reminders[i].fire_at_ms as int,
            #[trigger] times[i],
        )
}

/// Whether these are how the fire times of reminders were told.
pub open spec fn were_times(reminders: Seq<Reminder>, times: Seq<Seq<char>>) -> bool {
    times.len() == reminders.len() && forall|i: int|
        0 <= i < reminders.len() ==> was_told_as(reminders[i].fire_at_ms, #[trigger] times[i])
}

/// Replies to `/reminders`, given the pending reminders of the chat or why they cannot be read.
pub fn list_reminders(pending: &Result<Vec<Reminder>, String>) -> (reply: String)
    ensures
        match pending {
            Ok(reminders) => exists|times: Seq<Seq<char>>| #[trigger]
                may_be_times(reminders@, times) && were_times(reminders@, times) && reply@
                    == reminders_text(reminders@, times),
            Err(error) => reply@ == "Couldn't read reminders: "@ + error@,
        },
{
    let reminders = match pending {
        Ok(reminders) => reminders,
        Err(error) => {
            let mut reply = "Couldn't read reminders: ".to_owned();
            reply.append(error.as_str());
            return reply;
        },
    };
    let mut times: Vec<String> = Vec::new();
    let mut i: usize = 0;
    while i < reminders.len()
        invariant
            i <= reminders@.len(),
            times@.len() == i,
            forall|j: int|
                0 <= j < i ==> may_stand_for(
                    reminders@[j].fire_at_ms as int,
                    (#[trigger] times@[j])@,
                ) && was_told_as(reminders@[j].fire_at_ms, times@[j]@),
        decreases reminders@.len() - i,
    {
        times.push(format_local(reminders[i].fire_at_ms));
        i = i + 1;
    }
    proof {
        assert forall|j: int| 0 <= j < reminders@.len() implies may_stand_for(
            reminders@[j].fire_at_ms as int,
            #[trigger] texts(times@)[j],
        ) && was_told_as(reminders@[j].fire_at_ms, texts(times@)[j]) by {
            assert(texts(times@)[j] == times@[j]@);
        }
        assert(may_be_times(reminders@, texts(times@)));
        assert(were_times(reminders@, texts(times@)));
    }
    list_reminders_given(reminders, &times)
}

/// The id of the reminder that the arguments of `/reminder` cancel.
pub open spec fn cancelled_id(args: Seq<char>) -> Option<int> {
    let (verb, rest) = match cut_at_space(args) {
        Some(parts) => parts,
        None => (args, Seq::empty()),
    };
    if ascii_lowered(verb) == ascii_lowered("cancel"@) {
        parsed_signed(trimmed(rest))
    } else {
        None
    }
}

/// The id by which a reminder is listed cancels that reminder.
pub proof fn a_listed_reminder_can_be_cancelled(id: i64)
    ensures
        cancelled_id("cancel "@ + signed_decimal(id as int)) == Some(id as int),
{
    let number = signed_decimal(id as int);
    let args = "cancel "@ + number;
    reveal_strlit("cancel ");
    reveal_strlit("cancel");
    let n: nat = (if id < 0 {
        -id
    } else {
        id as int
    }) as nat;
    decimal_reads_back(n);
    written_number_reads_back(id);
    assert(is_digit(decimal(n)[0]));
    assert(is_digit(decimal(n)[decimal(n).len() - 1]));
    assert(number.last() == decimal(n)[decimal(n).len() - 1]);
    assert(!white_space(number[0]) && !white_space(number.last()));
    assert(trimmed(number) == number);
    let at = first_space(args, 0);
    first_space_is_first(args, 0);
    assert(args[6] == ' ');
    assert(at == 6) by {
        if at < 6 {
            assert(args[at] == "cancel "@[at]);
        }
    }
    assert(args.take(6) =~= "cancel"@);
    assert(args.skip(7) =~= number);
}

/// Reads which reminder the arguments of `/reminder` cancel.
pub fn read_cancellation(args: &str) -> (id: Option<i64>)
    ensures
        maybe_int(id) == cancelled_id(args@),
{
    let (verb, rest) = match split_at_space(args) {
        Some(parts) => parts,
        None => {
            proof {
                reveal_strlit("");
                assert(""@ =~= Seq::<char>::empty());
            }
            (args, "")
        },
    };
    if same_ignoring_ascii_case(verb, "cancel") {
        read_signed(trim(rest))
    } else {
        None
    }
}

/// What became of cancelling a reminder.
#[derive(Debug)]
pub enum Cancellation {
    /// Whether there was such a reminder in the chat.
    Done(bool),
    Failed(String),
}

/// The reply to `/reminder`.
pub open spec fn cancel_text(id: Option<int>, outcome: Cancellation) -> Seq<char> {
    match id {
        None => "Usage: /reminder cancel <id>"@,
        Some(id) => match outcome {
            Cancellation::Done(true) => "Cancelled reminder #"@ + signed_decimal(id) + "."@,
            Cancellation::Done(false) => "No pending reminder #"@ + signed_decimal(id)
                + " in this chat."@,
            Cancellation::Failed(error) => "Couldn't cancel the reminder: "@ + error@,
        },
    }
}

/// Replies to `/reminder`, given the id that was read and, where there is one, what became of
/// cancelling that reminder.
pub fn reminder_command(id: Option<i64>, outcome: &Cancellation) -> (reply: String)
    ensures
        reply@ == cancel_text(maybe_int(id), *outcome),
{
    let id = match id {
        Some(id) => id,
        None => return "Usage: /reminder cancel <id>".to_owned(),
    };
    match outcome {
        Cancellation::Done(found) => {
            let mut reply = if *found {
                "Cancelled reminder #".to_owned()
            } else {
                "No pending reminder #".to_owned()
            };
            reply.append(write_signed(id).as_str());
            if *found {
                reply.append(".");
            } else {
                reply.append(" in this chat.");
            }
            reply
        },
        Cancellation::Failed(error) => {
            let mut reply = "Couldn't cancel the reminder: ".to_owned();
            reply.append(error.as_str());
            reply
        },
    }
}

} // verus!
