use chrono::{Datelike, Local, TimeZone, Timelike, Weekday};
use push_gateway::gateway::clock::{Weekday as Day, FIRST_MS, LAST_MS};
use push_gateway::gateway::duration::is_readable;
use push_gateway::gateway::reminders::{
    advance_recurrence, after_duration, format_local, is_recurrable, is_resolvable,
    list_reminders, list_reminders_given, next_occurrence, next_recurrence,
    next_recurrence_given, parse_when, read_cancellation, read_clock, read_remind_args,
    reminder_command, reminder_set, resolve_clock_given, resolve_when, set_reminder,
    Cancellation, NewReminder, Recurred, Recurrence, RemindArgs, RemindStep, Reminder, Resolved,
    REMIND_USAGE,
};

#[test]
fn parse_when_reads_durations() {
    assert_eq!(parse_when("2h", 1_000), Some(1_000 + 7_200_000));
    assert_eq!(parse_when("30m", 0), Some(1_800_000));
    assert_eq!(parse_when("1d", 0), Some(86_400_000));
}

#[test]
fn parse_when_reads_hh_mm_within_next_day() {
    let now = 1_700_000_000_000;
    let fire = parse_when("15:30", now).unwrap();
    assert!(fire > now, "reminder time must be in the future");
    assert!(fire <= now + 86_400_000, "within the next 24 hours");
    // Seconds are zeroed, so the fire time lands on a whole minute.
    assert_eq!(fire % 60_000, 0);
}

#[test]
fn parse_when_rejects_garbage_and_out_of_range() {
    assert_eq!(parse_when("later", 0), None);
    assert_eq!(parse_when("25:00", 0), None);
    assert_eq!(parse_when("12:60", 0), None);
}

#[test]
fn format_local_renders_a_timestamp() {
    // Any valid epoch renders to a YYYY-MM-DD HH:MM string.
    let rendered = format_local(1_700_000_000_000);
    assert_eq!(rendered.len(), 16);
    assert_eq!(&rendered[4..5], "-");
}

#[test]
fn next_recurrence_advances_daily_and_skips_weekends() {
    let base = 1_700_000_000_000;
    assert_eq!(next_recurrence(base, "daily"), Some(base + 86_400_000));
    assert_eq!(next_recurrence(base, ""), None);
    assert_eq!(next_recurrence(base, "monthly"), None);

    let weekday_next = next_recurrence(base, "weekdays").unwrap();
    assert!(weekday_next >= base + 86_400_000);
    assert!(weekday_next <= base + 3 * 86_400_000);
    let day = Local.timestamp_millis_opt(weekday_next).single().unwrap().weekday();
    assert!(!matches!(day, Weekday::Sat | Weekday::Sun));
}

#[test]
fn durations_of_one_letter_units() {
    for (text, ms) in [
        ("45s", 45_000),
        ("0m", 0),
        ("90m", 5_400_000),
        ("999999999s", 999_999_999_000),
        ("3w", 1_814_400_000),
        ("1h30m", 5_400_000),
        ("1.5h", 5_400_000),
    ] {
        assert_eq!(parse_when(text, 7), Some(7 + ms), "{text}");
    }
    assert_eq!(parse_when("2", 0), None);
    assert_eq!(parse_when("h", 0), None);
}

#[test]
fn durations_saturate_or_are_refused() {
    assert_eq!(parse_when("1s", i64::MAX), Some(i64::MAX));
    assert_eq!(after_duration(0, i64::MAX as u128), Some(i64::MAX));
    assert_eq!(after_duration(0, i64::MAX as u128 + 1), None);
    assert_eq!(after_duration(-5, 3), Some(-2));
    // More milliseconds than there is a number for.
    assert_eq!(parse_when("900000000y", 0), None);
}

#[test]
fn clock_times_are_read_as_numbers() {
    assert_eq!(read_clock("09:05"), Some((9, 5)));
    assert_eq!(read_clock("+9:5"), Some((9, 5)));
    assert_eq!(read_clock("9:5:1"), None);
    assert_eq!(read_clock(" 9:05"), None);
    assert_eq!(read_clock("24:00"), None);
    assert_eq!(read_clock("0:60"), None);
    assert_eq!(read_clock("-1:00"), None);
    assert_eq!(read_clock("0900"), None);
    assert_eq!(read_clock(":"), None);
}

#[test]
fn a_clock_time_is_the_next_one_of_the_local_clock() {
    let now = 1_700_000_000_000;
    let local = Local.timestamp_millis_opt(now).single().unwrap();
    let later = parse_when("23:59", now).unwrap();
    let fire = Local.timestamp_millis_opt(later).single().unwrap();
    assert_eq!((fire.hour(), fire.minute(), fire.second()), (23, 59, 0));
    let text = format!("{}:{}", local.hour(), local.minute());
    let tomorrow = parse_when(&text, now).unwrap();
    assert!(tomorrow > now + 86_400_000 - 60_000);
    assert_eq!(next_occurrence(now, now), now + 86_400_000);
    assert_eq!(next_occurrence(now + 1, now), now + 1);
}

#[test]
fn the_end_of_the_calendar_is_left_out() {
    assert!(is_resolvable("10:00", LAST_MS - 86_400_000));
    assert!(!is_resolvable("10:00", LAST_MS - 86_400_000 + 1));
    assert!(!is_resolvable("10:00", LAST_MS));
    assert!(is_resolvable("10:00", LAST_MS + 1));
    assert!(is_resolvable("10h", LAST_MS));
    assert_eq!(parse_when("10:00", LAST_MS + 1), None);
    assert_eq!(resolve_when("10:00", LAST_MS + 1), Resolved::Unknown);
    assert!(is_recurrable(LAST_MS - 86_400_000, "daily"));
    assert!(is_recurrable(LAST_MS - 5 * 86_400_000, "weekdays"));
    assert!(!is_recurrable(LAST_MS - 5 * 86_400_000 + 1, "weekdays"));
    assert!(!is_recurrable(LAST_MS, ""));
    assert!(is_recurrable(LAST_MS + 1, "daily"));
    assert_eq!(next_recurrence(LAST_MS + 1, "daily"), None);
}

#[test]
fn the_last_day_of_the_calendar_is_used_up() {
    let now = LAST_MS - 7_200_000;
    let local = Local.timestamp_millis_opt(now).single().unwrap();
    if local.offset().local_minus_utc() == 0 {
        assert_eq!(resolve_when("23:59", now), Resolved::At(LAST_MS - 59_999));
        assert_eq!(resolve_when("00:00", now), Resolved::PastEnd);
        match set_reminder("23:59 tea", now) {
            RemindStep::Store(reminder) => assert_eq!(reminder.fire_at_ms, LAST_MS - 59_999),
            other => panic!("{other:?}"),
        }
        match set_reminder("00:00 tea", now) {
            RemindStep::Reply(reply) => assert_eq!(
                reply,
                "Couldn't understand the time \"00:00\". Use a duration like 2h or a HH:MM time."
            ),
            other => panic!("{other:?}"),
        }
    }
    assert_eq!(resolve_clock_given(LAST_MS, None), Resolved::Unknown);
    assert_eq!(resolve_clock_given(5, Some(6)), Resolved::At(6));
    assert_eq!(resolve_clock_given(5, Some(5)), Resolved::At(86_400_005));
    let day_before = LAST_MS - 86_400_000;
    assert_eq!(resolve_clock_given(LAST_MS, Some(day_before)), Resolved::At(LAST_MS));
    assert_eq!(resolve_clock_given(LAST_MS, Some(day_before + 1)), Resolved::PastEnd);
    assert_eq!(resolve_clock_given(LAST_MS - 1, Some(LAST_MS)), Resolved::At(LAST_MS));
}

#[test]
fn a_recurrence_goes_on_to_the_end_of_the_calendar() {
    let last = Local.timestamp_millis_opt(LAST_MS).single().unwrap().weekday();
    let expected = if matches!(last, Weekday::Sat | Weekday::Sun) {
        Recurred::PastEnd
    } else {
        Recurred::At(LAST_MS)
    };
    let day_before = LAST_MS - 86_400_000;
    assert_eq!(advance_recurrence(day_before, "weekdays"), expected);
    assert_eq!(advance_recurrence(day_before, "daily"), Recurred::At(LAST_MS));
    assert_eq!(advance_recurrence(day_before, ""), Recurred::Never);
    assert_eq!(advance_recurrence(day_before + 1, "daily"), Recurred::PastEnd);
    assert_eq!(advance_recurrence(LAST_MS, ""), Recurred::PastEnd);
    assert_eq!(advance_recurrence(LAST_MS + 1, "daily"), Recurred::Never);
    for day in 0..7 {
        let base = 1_700_000_000_000 + day * 86_400_000;
        let next = next_recurrence(base, "weekdays").unwrap();
        assert_eq!(advance_recurrence(base, "weekdays"), Recurred::At(next));
    }
}

#[test]
fn long_durations_are_read_by_what_they_add_up_to() {
    for (text, ms) in [
        ("0000000000000002h", 7_200_000),
        ("1234567890123456s", 1_234_567_890_123_456_000),
        ("1000000000000000ns", 1_000_000_000),
        ("00000000001h 00000000030m", 5_400_000),
        ("1 0 m 5\u{b5}s", 600_000),
        ("1day 2hr 3mins 4secs 5msec", 93_784_005),
        ("1M 1y", 2_630_016_000 + 31_557_600_000),
    ] {
        assert_eq!(resolve_when(text, 0), Resolved::At(ms), "{text}");
        assert_eq!(parse_when(text, 0), Some(ms), "{text}");
    }
    // More than there is a number for.
    for text in [
        "99999999999999999999999s",
        "18446744073709551615s 999ms",
        "18446744073709551615s 1001ms",
        "18446744073709551615s 2s",
        "18446744073709551614s 0.5s 1.4s",
        "18446744073709551614s 0.50000000000000000000s 1.5s",
        "584542046090y 584542046090y",
    ] {
        assert!(is_readable(text), "{text}");
        assert_eq!(resolve_when(text, 0), Resolved::Unknown, "{text}");
    }
    for text in [
        "18446744073709551615s 1000ms",
        "18446744073709551614s 1s 1000ms",
        "307445734561825860m 15s 1000ms",
        "584542046090y 19767615s 1s",
        "18446744073709551614s 0.5s 1.5s",
        "18446744073709551615s 1000ms 5s",
    ] {
        assert!(!is_readable(text), "{text}");
        assert_eq!(resolve_when(text, 0), Resolved::Unknown, "{text}");
    }
    assert!(is_readable("584542046090y 19767615s"));
    assert!(is_readable("12:30"));
    assert!(is_readable("no time"));
    match set_reminder("18446744073709551615s1000ms tea", 0) {
        RemindStep::Reply(reply) => assert_eq!(
            reply,
            "Couldn't understand the time \"18446744073709551615s1000ms\". \
             Use a duration like 2h or a HH:MM time."
        ),
        other => panic!("{other:?}"),
    }
}

#[test]
fn every_unit_has_its_length() {
    for (names, nanos) in [
        ("nanos nsec ns", 1_i64),
        ("usec us \u{b5}s", 1_000),
        ("millis msec ms", 1_000_000),
        ("seconds second secs sec s", 1_000_000_000),
        ("minutes minute min mins m", 60_000_000_000),
        ("hours hour hr hrs h", 3_600_000_000_000),
        ("days day d", 86_400_000_000_000),
        ("weeks week wk wks w", 604_800_000_000_000),
        ("months month M", 2_630_016_000_000_000),
        ("years year yr yrs y", 31_557_600_000_000_000),
    ] {
        for name in names.split(' ') {
            let text = format!("0200{name}");
            assert_eq!(resolve_when(&text, 0), Resolved::At(200 * nanos / 1_000_000), "{text}");
        }
    }
    for (text, ms) in [
        ("18446744073709551615ns", 18_446_744_073_709),
        ("18446744073709ms", 18_446_744_073_709),
        ("1000000000ns", 1_000),
        ("1500us", 1),
        ("9223372036854775s", 9_223_372_036_854_775_000),
    ] {
        assert_eq!(resolve_when(text, 0), Resolved::At(ms), "{text}");
    }
    for text in [
        "18446744073709551616ns",
        "18446744073710ms",
        "9223372036854776s",
        "18446744073709551615s",
        "307445734561825861m",
    ] {
        assert_eq!(resolve_when(text, 0), Resolved::Unknown, "{text}");
    }
}

#[test]
fn a_text_that_starts_otherwise_is_no_duration() {
    for text in ["later", "", "+2h", "-2h", ".5h", "h2", "\u{661}h"] {
        assert_eq!(parse_when(text, 0), None, "{text}");
    }
    assert_eq!(parse_when("\u{a0}2h", 0), Some(7_200_000));
}

#[test]
fn a_colon_makes_no_duration() {
    for text in ["1h:30m", ":2h", "9:5:1", "12:60", "x:y"] {
        assert_eq!(parse_when(text, 0), None, "{text}");
    }
}

#[test]
fn the_calendar_ends_where_chrono_says() {
    assert!(Local.timestamp_millis_opt(LAST_MS).single().is_some());
    assert!(Local.timestamp_millis_opt(LAST_MS + 1).single().is_none());
    assert_eq!(format_local(LAST_MS + 1), "the scheduled time");
    assert_ne!(format_local(LAST_MS), "the scheduled time");
    assert!(Local.timestamp_millis_opt(FIRST_MS).single().is_some());
    assert!(Local.timestamp_millis_opt(FIRST_MS - 1).single().is_none());
    assert_eq!(format_local(FIRST_MS - 1), "the scheduled time");
}

#[test]
fn moments_are_written_to_the_minute() {
    let ms = 951_782_400_000 + 3_660_000; // 2000-02-29 01:01 UTC
    let local = Local.timestamp_millis_opt(ms).single().unwrap();
    let expected = format!(
        "{:04}-{:02}-{:02} {:02}:{:02}",
        local.year(),
        local.month(),
        local.day(),
        local.hour(),
        local.minute()
    );
    assert_eq!(format_local(ms), expected);
}

#[test]
fn weekends_are_skipped_day_by_day() {
    let given = |days: Vec<Day>| next_recurrence_given(0, "weekdays", &days);
    assert_eq!(given(vec![Day::Fri]), Some(86_400_000));
    assert_eq!(given(vec![Day::Sat, Day::Sun, Day::Mon]), Some(3 * 86_400_000));
    assert_eq!(given(vec![Day::Sun]), None);
    assert_eq!(next_recurrence_given(0, "daily", &Vec::new()), Some(86_400_000));
    assert_eq!(next_recurrence_given(0, "Daily", &Vec::new()), None);
    for day in 0..7 {
        let base = 1_700_000_000_000 + day * 86_400_000;
        let next = next_recurrence(base, "weekdays").unwrap();
        let fires = Local.timestamp_millis_opt(next).single().unwrap().weekday();
        assert!(!matches!(fires, Weekday::Sat | Weekday::Sun));
        assert_eq!((next - base) % 86_400_000, 0);
        assert!(next > base);
    }
}

#[test]
fn remind_arguments_are_read() {
    let read = |args: &str| match read_remind_args(args) {
        RemindArgs::Usage => "usage".to_string(),
        RemindArgs::NeedsClock => "clock".to_string(),
        RemindArgs::Remind { recurrence, when, message } => {
            format!("{recurrence:?}|{when}|{message}")
        }
    };
    assert_eq!(read("2h Buy  Milk "), "Once|2h|Buy  Milk");
    assert_eq!(read("Daily 09:00 stand up"), "Daily|09:00|stand up");
    assert_eq!(read("WEEKDAYS   09:00   stand up"), "Weekdays|09:00|stand up");
    assert_eq!(read("daily 2h tea"), "clock");
    assert_eq!(read("daily 09:00"), "usage");
    assert_eq!(read("daily"), "usage");
    assert_eq!(read("2h"), "usage");
    assert_eq!(read(""), "usage");
    assert_eq!(read("2h   "), "usage");
}

#[test]
fn a_reminder_is_stored_or_its_failure_told() {
    match set_reminder("2h tea", 1_000) {
        RemindStep::Store(reminder) => {
            assert_eq!(reminder.message, "tea");
            assert_eq!(reminder.fire_at_ms, 7_201_000);
            assert_eq!(reminder.recurrence, Recurrence::Once);
        }
        other => panic!("{other:?}"),
    }
    let reply = |args: &str| match set_reminder(args, 0) {
        RemindStep::Reply(reply) => reply,
        other => panic!("{other:?}"),
    };
    assert_eq!(reply("tea"), REMIND_USAGE);
    assert_eq!(
        reply("daily 2h tea"),
        "Recurring reminders need a HH:MM time, e.g. /remind daily 09:00 <message>."
    );
    assert_eq!(
        reply("later tea"),
        "Couldn't understand the time \"later\". Use a duration like 2h or a HH:MM time."
    );
    assert_eq!(
        reply("a\"b\\ tea"),
        "Couldn't understand the time \"a\\\"b\\\\\". Use a duration like 2h or a HH:MM time."
    );
    match set_reminder("0000000000000002h tea", 5) {
        RemindStep::Store(reminder) => assert_eq!(reminder.fire_at_ms, 7_200_005),
        other => panic!("{other:?}"),
    }
    assert_eq!(
        reply("900000000y tea"),
        "Couldn't understand the time \"900000000y\". Use a duration like 2h or a HH:MM time."
    );
}

#[test]
fn a_stored_reminder_is_confirmed() {
    let reminder = |recurrence| NewReminder {
        message: "tea".to_string(),
        fire_at_ms: i64::MAX,
        recurrence,
    };
    assert_eq!(
        reminder_set(&reminder(Recurrence::Once), &Ok(())),
        "⏰ Reminder set for the scheduled time."
    );
    assert_eq!(
        reminder_set(&reminder(Recurrence::Weekdays), &Ok(())),
        "⏰ Recurring reminder (weekdays) set, next at the scheduled time."
    );
    assert_eq!(
        reminder_set(&reminder(Recurrence::Daily), &Err("disk full".to_string())),
        "Couldn't save the reminder: disk full"
    );
}

#[test]
fn pending_reminders_are_listed() {
    let reminders = vec![
        Reminder {
            id: 3,
            message: "tea".to_string(),
            fire_at_ms: 0,
            recurrence: String::new(),
        },
        Reminder {
            id: -4,
            message: "stand up".to_string(),
            fire_at_ms: 1,
            recurrence: "daily".to_string(),
        },
    ];
    assert_eq!(
        list_reminders_given(&reminders, &vec!["soon".to_string(), "later".to_string()]),
        "Pending reminders:\n#3 · soon · tea\n#-4 · later [daily] · stand up\nCancel with /reminder cancel <id>."
    );
    assert_eq!(list_reminders(&Ok(Vec::new())), "No pending reminders.");
    assert_eq!(
        list_reminders(&Err("locked".to_string())),
        "Couldn't read reminders: locked"
    );
    let listing = list_reminders(&Ok(reminders));
    assert!(listing.contains(&format!("#3 · {} · tea", format_local(0))));
}

#[test]
fn a_reminder_is_cancelled_by_its_id() {
    assert_eq!(read_cancellation("cancel 12"), Some(12));
    assert_eq!(read_cancellation("CANCEL \t -7 "), Some(-7));
    assert_eq!(read_cancellation("cancel"), None);
    assert_eq!(read_cancellation("cancel x"), None);
    assert_eq!(read_cancellation("delete 12"), None);
    assert_eq!(read_cancellation("cancel 9223372036854775808"), None);
    assert_eq!(read_cancellation("cancel 9223372036854775807"), Some(i64::MAX));
    let reply = |id, outcome| reminder_command(id, &outcome);
    assert_eq!(reply(None, Cancellation::Done(true)), "Usage: /reminder cancel <id>");
    assert_eq!(reply(Some(5), Cancellation::Done(true)), "Cancelled reminder #5.");
    assert_eq!(
        reply(Some(5), Cancellation::Done(false)),
        "No pending reminder #5 in this chat."
    );
    assert_eq!(
        reply(Some(5), Cancellation::Failed("locked".to_string())),
        "Couldn't cancel the reminder: locked"
    );
}
