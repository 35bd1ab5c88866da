//! What holds of reminders: how their arguments are read, when they fire and what is said of them.

use crate::gateway::clock::{
    clock_showed, in_calendar, may_be_time_of_day, may_be_written, may_fall_on, moment_showed,
    weekday_showed, Weekday, DAY_MS, LAST_MS,
};
use crate::gateway::duration::{can_be_read, duration_in, unit_nanos, whole_duration};
use crate::gateway::reminders::{
    all_free, can_recur, can_resolve, cancel_text, cancelled_id, clock_came_to, clock_may_come_to,
    clock_of, clock_resolved, cut_at_space, days_showed, is_first_workday, is_weekend, may_be_done,
    may_be_next_time, may_be_times, may_be_next_weekday, may_come_to, may_follow, may_recur,
    may_resolve_to, maybe_int, may_show, may_stand_for, moment_after, next_time, recurrence_text,
    remind_args, remind_step, reminder_line, reminder_lines, reminders_text, resolved_after,
    resolved_amount, set_text, was_told_as, weekdays_came_to, were_times, Cancellation, RemindArgs,
    RemindStep, Recurred, Recurrence, Reminder, Resolved, REMIND_USAGE,
};
use crate::number::{after_plus, all_digits, digits_value, is_digit, parsed_signed, signed_decimal};
use crate::text::{
    ascii_lowered, first_char, first_char_is_first, first_space, first_space_is_first, joined,
    quoted, trim_is_idempotent, trimmed, trimmed_is_what_white_space_surrounds, white_space,
};
use vstd::prelude::*;

verus! {

/// Whether a text holds no white space.
pub open spec fn is_word(s: Seq<char>) -> bool {
    forall|i: int| 0 <= i < s.len() ==> !white_space(#[trigger] s[i])
}

/// A text is cut behind its first word.
proof fn cut_behind_word(word: Seq<char>, space: char, rest: Seq<char>)
    requires
        is_word(word),
        white_space(space),
    ensures
        cut_at_space(word.push(space) + rest) == Some((word, rest)),
{
    let s = word.push(space) + rest;
    let n = word.len() as int;
    first_space_is_first(s, 0);
    assert(s[n] == space);
    assert(forall|i: int| 0 <= i < n ==> s[i] == word[i]);
    let at = first_space(s, 0);
    assert(at == n) by {
        if at < n {
            assert(white_space(s[at]));
        }
    }
    assert(s.take(n) =~= word);
    assert(s.skip(n + 1) =~= rest);
}

/// A word is not cut.
proof fn a_word_is_not_cut(word: Seq<char>)
    requires
        is_word(word),
    ensures
        cut_at_space(word) is None,
{
    first_space_is_first(word, 0);
}

/// The words for recurrences are in lower case.
proof fn recurrences_are_lower()
    ensures
        ascii_lowered("daily"@) == "daily"@,
        ascii_lowered("weekdays"@) == "weekdays"@,
        ascii_lowered("cancel"@) == "cancel"@,
        "daily"@ != "weekdays"@,
{
    reveal_strlit("daily");
    reveal_strlit("weekdays");
    reveal_strlit("cancel");
    assert(ascii_lowered("daily"@) =~= "daily"@);
    assert(ascii_lowered("weekdays"@) =~= "weekdays"@);
    assert(ascii_lowered("cancel"@) =~= "cancel"@);
    assert("daily"@.len() != "weekdays"@.len());
}

/// A reminder whose first word is neither `daily` nor `weekdays` fires once, at the time that this
/// word says, a time of the day included; the rest is its message. Without a message, nothing is
/// asked for.
pub proof fn a_reminder_fires_once_unless_it_says_otherwise(
    first: Seq<char>,
    space: char,
    rest: Seq<char>,
)
    requires
        is_word(first),
        white_space(space),
        ascii_lowered(first) != "daily"@,
        ascii_lowered(first) != "weekdays"@,
    ensures
        remind_args(first.push(space) + rest) == (if trimmed(rest).len() == 0 {
            RemindArgs::Usage
        } else {
            RemindArgs::Remind { recurrence: Recurrence::Once, when: first, message: trimmed(rest) }
        }),
{
    cut_behind_word(first, space, rest);
    recurrences_are_lower();
}

/// A reminder whose first word is `daily` or `weekdays`, in any case, comes back that often; its
/// second word is the time of the day, and what is left is its message. Without a colon the second
/// word is no time of the day.
pub proof fn a_recurring_reminder_says_so_first(
    first: Seq<char>,
    space: char,
    rest: Seq<char>,
    when_word: Seq<char>,
    second_space: char,
    message: Seq<char>,
)
    requires
        is_word(first),
        white_space(space),
        ascii_lowered(first) == "daily"@ || ascii_lowered(first) == "weekdays"@,
        is_word(when_word),
        white_space(second_space),
        trimmed(rest) == when_word.push(second_space) + message,
    ensures
        trimmed(message).len() > 0,
        remind_args(first.push(space) + rest) == (if exists|i: int|
            0 <= i < when_word.len() && #[trigger] when_word[i] == ':' {
            RemindArgs::Remind {
                recurrence: if ascii_lowered(first) == "daily"@ {
                    Recurrence::Daily
                } else {
                    Recurrence::Weekdays
                },
                when: when_word,
                message: trimmed(message),
            }
        } else {
            RemindArgs::NeedsClock
        }),
{
    let body = trimmed(rest);
    cut_behind_word(first, space, rest);
    cut_behind_word(when_word, second_space, message);
    recurrences_are_lower();
    trim_is_idempotent(rest);
    let n = message.len() as int;
    assert(n > 0) by {
        if n == 0 {
            assert(body.last() == second_space);
        }
    }
    assert(body.last() == message[n - 1]);
    assert(trimmed(message).len() > 0) by {
        trim_is_idempotent(message);
        let a = crate::text::trim_start_is_suffix(message);
        assert(a < n) by {
            if a == n {
                assert(white_space(message[n - 1]));
            }
        }
        let left = message.skip(a);
        let b = crate::text::trim_end_is_prefix(left);
        assert(left[left.len() - 1] == message[n - 1]);
        assert(b == left.len());
    }
    assert(trimmed(when_word) == when_word) by {
        trimmed_is_what_white_space_surrounds(when_word, 0, when_word.len() as int);
        assert(when_word.subrange(0, when_word.len() as int) =~= when_word);
    }
}

/// Arguments of `/remind` that are one word, or only say how often, ask for nothing.
pub proof fn a_reminder_needs_a_time_and_a_message(
    word: Seq<char>,
    first: Seq<char>,
    space: char,
    rest: Seq<char>,
)
    requires
        is_word(word),
        is_word(first),
        white_space(space),
        is_word(trimmed(rest)),
        ascii_lowered(first) == "daily"@ || ascii_lowered(first) == "weekdays"@,
    ensures
        remind_args(word) is Usage,
        remind_args(first.push(space) + rest) is Usage,
{
    a_word_is_not_cut(word);
    a_word_is_not_cut(trimmed(rest));
    cut_behind_word(first, space, rest);
    recurrences_are_lower();
}

/// What is done about a `/remind`: a time that was resolved is stored with the message and how often
/// it comes back, and everything else is answered and stores nothing.
pub proof fn a_resolved_reminder_is_stored_as_asked(
    args: RemindArgs<Seq<char>>,
    resolved: Resolved,
    step: RemindStep,
)
    requires
        remind_step(args, resolved, step),
    ensures
        step is Store <==> args is Remind && resolved is At,
        match step {
            RemindStep::Store(reminder) => args == (RemindArgs::Remind {
                recurrence: reminder.recurrence,
                when: args->when,
                message: reminder.message@,
            }) && resolved == Resolved::At(reminder.fire_at_ms),
            RemindStep::Reply(reply) => match args {
                RemindArgs::Usage => reply@ == REMIND_USAGE@,
                RemindArgs::NeedsClock => reply@
                    == "Recurring reminders need a HH:MM time, e.g. /remind daily 09:00 <message>."@,
                RemindArgs::Remind { when, .. } => reply@ == "Couldn't understand the time "@
                    + quoted(when) + ". Use a duration like 2h or a HH:MM time."@,
            },
        },
{
}

/// Two numbers with a colon between them are an hour and a minute, where there are such; they may
/// have zeros in front.
pub proof fn two_numbers_make_a_clock_time(hour: Seq<char>, minute: Seq<char>)
    requires
        all_digits(hour),
        all_digits(minute),
    ensures
        clock_of(hour.push(':') + minute) == (if digits_value(hour) <= 23 && digits_value(minute)
            <= 59 {
            Some((digits_value(hour), digits_value(minute)))
        } else {
            None
        }),
{
    let s = hour.push(':') + minute;
    let n = hour.len() as int;
    first_char_is_first(s, ':', 0);
    let at = first_char(s, ':', 0);
    assert(s[n] == ':');
    assert(forall|i: int| 0 <= i < n ==> s[i] == hour[i]);
    assert(at == n) by {
        if at < n {
            assert(is_digit(hour[at]));
        }
    }
    assert(s.take(n) =~= hour);
    assert(s.skip(n + 1) =~= minute);
    assert(is_digit(hour[0]));
    assert(is_digit(minute[0]));
}

/// A time of the day is two numbers with a colon between them, the hour before and the minute
/// behind; each may have a plus sign.
pub proof fn a_clock_time_is_two_numbers(s: Seq<char>)
    ensures
        clock_of(s) matches Some((hour, minute)) ==> 0 <= hour <= 23 && 0 <= minute <= 59 && exists|
            a: Seq<char>,
            b: Seq<char>,
        |
            s == #[trigger] (a.push(':') + b) && all_digits(after_plus(a)) && all_digits(
                after_plus(b),
            ) && digits_value(after_plus(a)) == hour && digits_value(after_plus(b)) == minute,
{
    if clock_of(s) is Some {
        first_char_is_first(s, ':', 0);
        let at = first_char(s, ':', 0);
        let a = s.take(at);
        let b = s.skip(at + 1);
        assert(s =~= a.push(':') + b);
        let x = after_plus(a);
        let y = after_plus(b);
        crate::number::digits_value_grows(x, x.len() as int, x.len() as int);
        crate::number::digits_value_grows(y, y.len() as int, y.len() as int);
        assert(x.take(x.len() as int) =~= x);
        assert(y.take(y.len() as int) =~= y);
    }
}

/// A duration ahead is a duration ahead, but no further than there is a number for; one that there
/// is no number for is not understood.
pub proof fn a_duration_is_added(now: i64, duration: nat)
    ensures
        moment_after(now as int, duration as int) == (if duration > i64::MAX {
            None
        } else if now + duration <= i64::MAX {
            Some(now + duration)
        } else {
            Some(0x7fff_ffff_ffff_ffffint)
        }),
{
}

/// A time of the day that is still ahead today fires today; one that has come fires a day later, as
/// long as the calendar has that day.
pub proof fn a_time_of_the_day_fires_today_or_tomorrow(now: i64, today: i64)
    requires
        today <= LAST_MS,
    ensures
        clock_resolved(now as int, None) is Unknown,
        today > now ==> clock_resolved(now as int, Some(today as int)) == Resolved::At(today),
        today <= now && today + 86_400_000 <= LAST_MS ==> clock_resolved(
            now as int,
            Some(today as int),
        ) == Resolved::At((today + 86_400_000) as i64),
        today <= now && today + 86_400_000 > LAST_MS ==> clock_resolved(
            now as int,
            Some(today as int),
        ) is PastEnd,
        next_time(today as int, now as int) == today || next_time(today as int, now as int) == today
            + 86_400_000,
        next_time(today as int, now as int) > today <==> today <= now,
{
}

/// A time comes to the moment after its duration; or to a time of the day of the local clock; any
/// other text is not understood.
pub proof fn a_time_is_a_duration_or_a_clock_time(when_text: Seq<char>, now: i64, resolved: Resolved)
    requires
        may_come_to(when_text, now as int, resolved),
    ensures
        !can_be_read(when_text) ==> resolved is Unknown,
        can_be_read(when_text) ==> match duration_in(when_text) {
            Some(duration) => if duration > i64::MAX {
                resolved is Unknown
            } else if now + duration <= i64::MAX {
                resolved == Resolved::At((now + duration) as i64)
            } else {
                resolved == Resolved::At(i64::MAX)
            },
            None => match clock_of(when_text) {
                Some((hour, minute)) => exists|target: Option<int>| #[trigger]
                    may_show(now as int, hour, minute, target) && resolved == clock_resolved(
                        now as int,
                        target,
                    ),
                None => resolved is Unknown,
            },
        },
{
}

/// Saturday and Sunday are free, and no other day. The first day that is not free is the one with
/// only free days before it.
pub proof fn only_saturday_and_sunday_are_free(day: Weekday, days: Seq<Weekday>, at: int)
    ensures
        is_weekend(day) <==> day == Weekday::Sat || day == Weekday::Sun,
        is_first_workday(days, at) <==> 0 <= at < days.len() && days[at] != Weekday::Sat && days[at]
            != Weekday::Sun && forall|i: int|
            0 <= i < at ==> (#[trigger] days[i] == Weekday::Sat || days[i] == Weekday::Sun),
{
}

/// A reminder on weekdays comes back as soon as it can: on every day that is left out it could be
/// Saturday or Sunday.
pub proof fn only_free_days_are_left_out(fire_at: int, next: int, days_on: int)
    requires
        may_be_next_weekday(fire_at, next),
        0 < days_on,
        fire_at + days_on * 86_400_000 < next,
    ensures
        may_fall_on(fire_at + days_on * 86_400_000, Weekday::Sat) || may_fall_on(
            fire_at + days_on * 86_400_000,
            Weekday::Sun,
        ),
{
    let days = choose|days: Seq<Weekday>| #[trigger]
        may_follow(fire_at, days) && 1 <= days.len() <= 5 && is_first_workday(
            days,
            days.len() - 1,
        ) && next == fire_at + days.len() * DAY_MS;
    assert(may_fall_on(fire_at + (days_on - 1 + 1) * DAY_MS, days[days_on - 1]));
    assert(is_weekend(days[days_on - 1]));
}

/// A reminder that fires daily comes back a day later, one that fires on weekdays a whole number of
/// days later, and any other does not come back. Outside the calendar nothing does.
pub proof fn a_reminder_comes_back_as_it_says(fire_at: i64, recurrence: Seq<char>, next: Recurred)
    requires
        may_recur(fire_at as int, recurrence, next),
    ensures
        !in_calendar(fire_at as int) ==> next is Never,
        in_calendar(fire_at as int) && fire_at + 86_400_000 > LAST_MS ==> next is PastEnd,
        in_calendar(fire_at as int) && fire_at + 86_400_000 <= LAST_MS ==> {
            &&& recurrence == "daily"@ ==> next == Recurred::At((fire_at + 86_400_000) as i64)
            &&& recurrence == "weekdays"@ ==> next !is Never && (next matches Recurred::At(ms)
                ==> may_be_next_weekday(fire_at as int, ms as int) && ms <= LAST_MS)
            &&& recurrence != "daily"@ && recurrence != "weekdays"@ ==> next is Never
        },
{
    recurrences_are_lower();
}

/// How a recurrence is stored is the word that asks for it, and a reminder that fires once has none;
/// so a stored recurrence comes back as it was asked for.
pub proof fn a_recurrence_is_stored_by_its_word(recurrence: Recurrence)
    ensures
        recurrence is Once ==> recurrence_text(recurrence).len() == 0,
        recurrence is Daily ==> recurrence_text(recurrence) == "daily"@,
        recurrence is Weekdays ==> recurrence_text(recurrence) == "weekdays"@,
{
}

/// A stored reminder is confirmed with its time, and one that comes back also with how often.
pub proof fn a_stored_reminder_is_confirmed_with_its_time(time: Seq<char>)
    ensures
        set_text(Recurrence::Once, time) == "⏰ Reminder set for "@ + time + "."@,
        set_text(Recurrence::Daily, time) == "⏰ Recurring reminder ("@ + "daily"@
            + ") set, next at "@ + time + "."@,
        set_text(Recurrence::Weekdays, time) == "⏰ Recurring reminder ("@ + "weekdays"@
            + ") set, next at "@ + time + "."@,
{
}

/// The lines about reminders, one below the other, each with the id by which it is cancelled, its
/// time, how often it comes back, and its message.
pub open spec fn listed_below(
    head: Seq<char>,
    reminders: Seq<Reminder>,
    times: Seq<Seq<char>>,
) -> Seq<char>
    decreases reminders.len(),
{
    if reminders.len() == 0 {
        head
    } else {
        let reminder = reminders.last();
        listed_below(head, reminders.drop_last(), times.drop_last()) + "\n"@ + ("#"@
            + signed_decimal(reminder.id as int) + " · "@ + times.last() + (
        if reminder.recurrence@.len() == 0 {
            Seq::empty()
        } else {
            " ["@ + reminder.recurrence@ + "]"@
        }) + " · "@ + reminder.message@)
    }
}

/// The head of a listing and the lines below it, joined.
proof fn lines_stand_below(head: Seq<char>, reminders: Seq<Reminder>, times: Seq<Seq<char>>)
    requires
        times.len() == reminders.len(),
    ensures
        joined(seq![head] + reminder_lines(reminders, times), "\n"@) == listed_below(
            head,
            reminders,
            times,
        ),
    decreases reminders.len(),
{
    let lines = seq![head] + reminder_lines(reminders, times);
    if reminders.len() == 0 {
        assert(lines =~= seq![head]);
    } else {
        let front = seq![head] + reminder_lines(reminders.drop_last(), times.drop_last());
        assert(lines.drop_last() =~= front);
        assert(lines.last() == reminder_line(reminders.last(), times.last()));
        lines_stand_below(head, reminders.drop_last(), times.drop_last());
    }
}

/// The listing holds every pending reminder in order, one to a line, below a head and above how to
/// cancel one; where none is pending it says so.
pub proof fn every_reminder_is_listed(reminders: Seq<Reminder>, times: Seq<Seq<char>>)
    requires
        times.len() == reminders.len(),
    ensures
        reminders.len() == 0 ==> reminders_text(reminders, times) == "No pending reminders."@,
        reminders.len() > 0 ==> reminders_text(reminders, times) == listed_below(
            "Pending reminders:"@,
            reminders,
            times,
        ) + "\n"@ + "Cancel with /reminder cancel <id>."@,
{
    if reminders.len() > 0 {
        let front = seq!["Pending reminders:"@] + reminder_lines(reminders, times);
        let lines = front.push("Cancel with /reminder cancel <id>."@);
        lines_stand_below("Pending reminders:"@, reminders, times);
        assert(lines.drop_last() =~= front);
    }
}

/// Only the word `cancel`, in any case, cancels, and it cancels the reminder of the number behind
/// it.
pub proof fn only_cancel_cancels(verb: Seq<char>, space: char, rest: Seq<char>)
    requires
        is_word(verb),
        white_space(space),
    ensures
        cancelled_id(verb) is None,
        ascii_lowered(verb) == "cancel"@ ==> cancelled_id(verb.push(space) + rest) == parsed_signed(
            trimmed(rest),
        ),
        ascii_lowered(verb) != "cancel"@ ==> cancelled_id(verb.push(space) + rest) is None,
{
    cut_behind_word(verb, space, rest);
    a_word_is_not_cut(verb);
    recurrences_are_lower();
    trimmed_is_what_white_space_surrounds(Seq::empty(), 0, 0);
}

/// What is said of a cancellation names the reminder, and tells one that was there from one that was
/// not.
pub proof fn a_cancellation_is_told(id: int, error: String, outcome: Cancellation)
    ensures
        cancel_text(None, outcome) == "Usage: /reminder cancel <id>"@,
        cancel_text(Some(id), Cancellation::Done(true)) == "Cancelled reminder #"@
            + signed_decimal(id) + "."@,
        cancel_text(Some(id), Cancellation::Done(false)) == "No pending reminder #"@
            + signed_decimal(id) + " in this chat."@,
        cancel_text(Some(id), Cancellation::Failed(error)) == "Couldn't cancel the reminder: "@
            + error@,
{
}

/// What is said about arguments that cannot be read.
pub proof fn the_usage_tells_how_to_ask()
    ensures
        REMIND_USAGE
            == "Usage: /remind <when> <message>\n<when> is a duration (30m, 2h, 1d), a HH:MM time, or `daily`/`weekdays` HH:MM.",
{
}

/// What comes of a duration and of a whole number with a unit is the moment so much later.
pub proof fn an_amount_comes_to_the_moment_so_much_later(
    now: i64,
    duration: nat,
    digits: Seq<char>,
    unit: Seq<char>,
)
    ensures
        duration <= i64::MAX && now + duration <= i64::MAX ==> resolved_after(
            now as int,
            duration as int,
        ) == Resolved::At((now + duration) as i64),
        duration <= i64::MAX && now + duration > i64::MAX ==> resolved_after(
            now as int,
            duration as int,
        ) == Resolved::At(i64::MAX),
        duration > i64::MAX ==> resolved_after(now as int, duration as int) is Unknown,
        match whole_duration(digits_value(digits), unit_nanos(unit)) {
            Some(ms) => resolved_amount(now as int, digits, unit) == resolved_after(now as int, ms),
            None => resolved_amount(now as int, digits, unit) is Unknown,
        },
{
}

/// A time of the day comes to what the local clock shows on the day of now, to the minute, and to
/// nothing outside the calendar.
pub proof fn a_clock_time_is_of_the_day_of_now(
    now: int,
    hour: int,
    minute: int,
    resolved: Resolved,
    fire_at: int,
)
    ensures
        clock_may_come_to(now, hour, minute, resolved) && resolved !is Unknown ==> in_calendar(now)
            && exists|today: int| #[trigger]
            may_be_time_of_day(now, today, hour, minute, 0, 0) && in_calendar(today) && resolved
                == clock_resolved(now, Some(today)),
        may_be_next_time(now, fire_at, hour, minute) ==> exists|today: int| #[trigger]
            may_be_time_of_day(now, today, hour, minute, 0, 0) && (if today <= now {
                fire_at == today + 86_400_000
            } else {
                fire_at == today
            }),
{
}

/// What a time can be resolved to is the moment after its duration, or the next time of its day, and
/// nothing else.
pub proof fn a_resolved_time_is_a_duration_or_a_clock_time(
    when_text: Seq<char>,
    now: i64,
    fire_at: Option<int>,
)
    requires
        may_resolve_to(when_text, now as int, fire_at),
    ensures
        duration_in(when_text) matches Some(duration) ==> fire_at == moment_after(
            now as int,
            duration as int,
        ),
        duration_in(when_text) is None && clock_of(when_text) is None ==> fire_at is None,
        duration_in(when_text) is None ==> (clock_of(when_text) matches Some((hour, minute)) ==> (
        fire_at matches Some(ms) ==> in_calendar(now as int) && may_be_next_time(
            now as int,
            ms,
            hour,
            minute,
        ))),
{
}

/// A `/remind` that stores a reminder stores what its arguments say, at a moment that its time comes
/// to; one that stores nothing is answered.
pub proof fn a_stored_reminder_is_the_one_asked_for(args: Seq<char>, now: int, step: RemindStep)
    requires
        may_be_done(args, now, step),
    ensures
        match step {
            RemindStep::Store(reminder) => remind_args(args) matches RemindArgs::Remind {
                recurrence,
                when,
                message,
            } && reminder.recurrence == recurrence && reminder.message@ == message && may_come_to(
                when,
                now,
                Resolved::At(reminder.fire_at_ms),
            ),
            RemindStep::Reply(reply) => match remind_args(args) {
                RemindArgs::Usage => reply@ == REMIND_USAGE@,
                RemindArgs::NeedsClock => reply@
                    == "Recurring reminders need a HH:MM time, e.g. /remind daily 09:00 <message>."@,
                RemindArgs::Remind { when, .. } => may_come_to(when, now, Resolved::Unknown)
                    || may_come_to(when, now, Resolved::PastEnd),
            },
        },
{
}

/// A moment in the calendar is told by its local date and time, and any other in words.
pub proof fn a_moment_is_told_by_its_date(ms: int, text: Seq<char>)
    ensures
        in_calendar(ms) ==> (may_stand_for(ms, text) <==> may_be_written(ms, text)),
        !in_calendar(ms) ==> (may_stand_for(ms, text) <==> text == "the scheduled time"@),
{
}

/// Everything but the end of the calendar can be asked: a time that can be read up to the last day,
/// a daily recurrence up to the last day, and one on weekdays up to the last five.
pub proof fn all_but_the_end_of_the_calendar_can_be_asked(
    when_text: Seq<char>,
    now: int,
    recurrence: Seq<char>,
)
    ensures
        can_be_read(when_text) && (now <= LAST_MS - 86_400_000 || now > LAST_MS) ==> can_resolve(
            when_text,
            now,
        ),
        can_be_read(when_text) && clock_of(when_text) is None ==> can_resolve(when_text, now),
        now > LAST_MS ==> can_recur(now, recurrence),
        now <= LAST_MS - 5 * 86_400_000 ==> can_recur(now, recurrence),
        recurrence != "weekdays"@ && now <= LAST_MS - 86_400_000 ==> can_recur(now, recurrence),
        can_recur(now, recurrence) && in_calendar(now) ==> now + 86_400_000 <= LAST_MS && (
        recurrence == "weekdays"@ ==> now + 5 * 86_400_000 <= LAST_MS),
{
}

/// A time of the day comes to what the local clock showed when it was asked: to nothing where it
/// showed nothing, to that moment where it is ahead, and to a day later where it has come, unless
/// the calendar ends before.
pub proof fn a_clock_time_comes_to_what_the_clock_showed(
    now: i64,
    hour: int,
    minute: int,
    resolved: Resolved,
)
    requires
        clock_came_to(now, hour, minute, resolved),
    ensures
        exists|target: Option<i64>| #[trigger]
            clock_showed(now, hour as u32, minute as u32, target) && match target {
                None => resolved is Unknown,
                Some(today) => if today > now {
                    resolved == Resolved::At(today)
                } else if today + 86_400_000 <= LAST_MS {
                    resolved == Resolved::At((today + 86_400_000) as i64)
                } else {
                    resolved is PastEnd
                },
            },
{
    let target = choose|target: Option<i64>| #[trigger]
        clock_showed(now, hour as u32, minute as u32, target) && resolved == clock_resolved(
            now as int,
            maybe_int(target),
        );
    assert(clock_showed(now, hour as u32, minute as u32, target));
}

/// A reminder on weekdays comes back on the first of the following days for which the local clock
/// showed neither Saturday nor Sunday; it runs past the calendar only where it showed these for all
/// days that are left.
pub proof fn a_weekday_is_what_the_clock_showed(fire_at: i64, next: Recurred)
    requires
        weekdays_came_to(fire_at, next),
        fire_at <= LAST_MS,
    ensures
        next !is Never,
        exists|days: Seq<Weekday>| #[trigger]
            days_showed(fire_at, days) && (forall|i: int|
                0 <= i < days.len() - 1 ==> (#[trigger] days[i] == Weekday::Sat || days[i]
                    == Weekday::Sun)) && match next {
                Recurred::At(ms) => days.len() > 0 && days.last() != Weekday::Sat && days.last()
                    != Weekday::Sun && ms == fire_at + days.len() * 86_400_000,
                Recurred::Never => false,
                Recurred::PastEnd => (days.len() > 0 ==> days.last() == Weekday::Sat || days.last()
                    == Weekday::Sun) && fire_at + (days.len() + 1) * 86_400_000 > LAST_MS,
            },
{
    let days = choose|days: Seq<Weekday>| #[trigger]
        days_showed(fire_at, days) && match next {
            Recurred::At(ms) => is_first_workday(days, days.len() - 1) && ms == fire_at + days.len()
                * DAY_MS,
            Recurred::Never => false,
            Recurred::PastEnd => all_free(days) && fire_at + (days.len() + 1) * DAY_MS > LAST_MS,
        };
    assert(days_showed(fire_at, days));
    assert forall|i: int| 0 <= i < days.len() - 1 implies (#[trigger] days[i] == Weekday::Sat
        || days[i] == Weekday::Sun) by {
        assert(is_weekend(days[i]));
    }
    if next is PastEnd && days.len() > 0 {
        assert(is_weekend(days[days.len() - 1]));
    }
}

/// The days that were shown are those for which the local clock was asked, one after the other; and
/// a moment is told as the clock wrote it, or in words where it wrote nothing.
pub proof fn days_and_moments_are_told_as_they_were_shown(
    fire_at: i64,
    days: Seq<Weekday>,
    i: int,
    text: Seq<char>,
    reminders: Seq<Reminder>,
    times: Seq<Seq<char>>,
)
    ensures
        days_showed(fire_at, days) && 0 <= i < days.len() ==> weekday_showed(
            (fire_at + (i + 1) * 86_400_000) as i64,
            Some(days[i]),
        ),
        was_told_as(fire_at, text) ==> exists|shown: Option<String>| #[trigger]
            moment_showed(fire_at, shown) && match shown {
                Some(written) => text == written@,
                None => text == "the scheduled time"@,
            },
        were_times(reminders, times) ==> times.len() == reminders.len() && (0 <= i
            < reminders.len() ==> was_told_as(reminders[i].fire_at_ms, times[i])),
        may_be_times(reminders, times) ==> times.len() == reminders.len() && (0 <= i
            < reminders.len() ==> may_stand_for(reminders[i].fire_at_ms as int, times[i])),
{
    if days_showed(fire_at, days) && 0 <= i < days.len() {
        assert(weekday_showed((fire_at + (i + 1) * DAY_MS) as i64, Some(days[i])));
    }
    if 0 <= i < reminders.len() && may_be_times(reminders, times) {
        assert(may_stand_for(reminders[i].fire_at_ms as int, times[i]));
    }
}

} // verus!
