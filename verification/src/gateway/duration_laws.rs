//! What holds of durations as they are written down.

use crate::gateway::duration::{
    amount, can_be_read, count_of_numbers, ends_number, ends_unit, fraction_nanos, has_fraction,
    is_unit_letter, may_start, meets_end, number_end, number_within, part_is_within, unit_at,
    unit_end, unit_ms, unit_nanos, unit_start, whole_duration, whole_nanos, DURATION_END_NANOS,
};
use crate::number::{all_digits, digits_value, is_digit};
use crate::text::{first_where_is_first, white_space};
use vstd::prelude::*;

verus! {

/// Every unit has its length, by each of its names; a month is 30.44 days, and a year is 365 days and
/// a quarter. Nothing else is a unit.
#[verifier::rlimit(60)]
pub proof fn every_unit_has_its_length(unit: Seq<char>)
    ensures
        unit == "nanos"@ || unit == "nsec"@ || unit == "ns"@ ==> unit_nanos(unit) == 1,
        unit == "usec"@ || unit == "us"@ || unit == "\u{b5}s"@ ==> unit_nanos(unit) == 1_000,
        unit == "millis"@ || unit == "msec"@ || unit == "ms"@ ==> unit_nanos(unit) == 1_000_000,
        unit == "seconds"@ || unit == "second"@ || unit == "secs"@ || unit == "sec"@ || unit
            == "s"@ ==> unit_nanos(unit) == 1_000_000_000,
        unit == "minutes"@ || unit == "minute"@ || unit == "min"@ || unit == "mins"@ || unit
            == "m"@ ==> unit_nanos(unit) == 60 * 1_000_000_000,
        unit == "hours"@ || unit == "hour"@ || unit == "hr"@ || unit == "hrs"@ || unit == "h"@
            ==> unit_nanos(unit) == 3600 * 1_000_000_000,
        unit == "days"@ || unit == "day"@ || unit == "d"@ ==> unit_nanos(unit) == 86_400
            * 1_000_000_000,
        unit == "weeks"@ || unit == "week"@ || unit == "wk"@ || unit == "wks"@ || unit == "w"@
            ==> unit_nanos(unit) == 604_800 * 1_000_000_000,
        unit == "months"@ || unit == "month"@ || unit == "M"@ ==> unit_nanos(unit) == 2_630_016
            * 1_000_000_000,
        unit == "years"@ || unit == "year"@ || unit == "yr"@ || unit == "yrs"@ || unit == "y"@
            ==> unit_nanos(unit) == 31_557_600 * 1_000_000_000,
        unit_nanos(unit) > 0 ==> seq![
            "nanos"@,
            "nsec"@,
            "ns"@,
            "usec"@,
            "us"@,
            "\u{b5}s"@,
            "millis"@,
            "msec"@,
            "ms"@,
            "seconds"@,
            "second"@,
            "secs"@,
            "sec"@,
            "s"@,
            "minutes"@,
            "minute"@,
            "min"@,
            "mins"@,
            "m"@,
            "hours"@,
            "hour"@,
            "hr"@,
            "hrs"@,
            "h"@,
            "days"@,
            "day"@,
            "d"@,
            "weeks"@,
            "week"@,
            "wk"@,
            "wks"@,
            "w"@,
            "months"@,
            "month"@,
            "M"@,
            "years"@,
            "year"@,
            "yr"@,
            "yrs"@,
            "y"@,
        ].contains(unit),
{
    reveal_strlit("nanos");
    reveal_strlit("nsec");
    reveal_strlit("ns");
    reveal_strlit("usec");
    reveal_strlit("us");
    reveal_strlit("\u{b5}s");
    reveal_strlit("millis");
    reveal_strlit("msec");
    reveal_strlit("ms");
    reveal_strlit("seconds");
    reveal_strlit("second");
    reveal_strlit("secs");
    reveal_strlit("sec");
    reveal_strlit("s");
    reveal_strlit("minutes");
    reveal_strlit("minute");
    reveal_strlit("min");
    reveal_strlit("mins");
    reveal_strlit("m");
    reveal_strlit("hours");
    reveal_strlit("hour");
    reveal_strlit("hr");
    reveal_strlit("hrs");
    reveal_strlit("h");
    reveal_strlit("days");
    reveal_strlit("day");
    reveal_strlit("d");
    reveal_strlit("weeks");
    reveal_strlit("week");
    reveal_strlit("wk");
    reveal_strlit("wks");
    reveal_strlit("w");
    reveal_strlit("months");
    reveal_strlit("month");
    reveal_strlit("M");
    reveal_strlit("years");
    reveal_strlit("year");
    reveal_strlit("yr");
    reveal_strlit("yrs");
    reveal_strlit("y");
    assert("nanos"@ =~= seq!['n', 'a', 'n', 'o', 's']);
    assert("nsec"@ =~= seq!['n', 's', 'e', 'c']);
    assert("ns"@ =~= seq!['n', 's']);
    assert("usec"@ =~= seq!['u', 's', 'e', 'c']);
    assert("us"@ =~= seq!['u', 's']);
    assert("\u{b5}s"@ =~= seq!['\u{b5}', 's']);
    assert("millis"@ =~= seq!['m', 'i', 'l', 'l', 'i', 's']);
    assert("msec"@ =~= seq!['m', 's', 'e', 'c']);
    assert("ms"@ =~= seq!['m', 's']);
    assert("seconds"@ =~= seq!['s', 'e', 'c', 'o', 'n', 'd', 's']);
    assert("second"@ =~= seq!['s', 'e', 'c', 'o', 'n', 'd']);
    assert("secs"@ =~= seq!['s', 'e', 'c', 's']);
    assert("sec"@ =~= seq!['s', 'e', 'c']);
    assert("s"@ =~= seq!['s']);
    assert("minutes"@ =~= seq!['m', 'i', 'n', 'u', 't', 'e', 's']);
    assert("minute"@ =~= seq!['m', 'i', 'n', 'u', 't', 'e']);
    assert("min"@ =~= seq!['m', 'i', 'n']);
    assert("mins"@ =~= seq!['m', 'i', 'n', 's']);
    assert("m"@ =~= seq!['m']);
    assert("hours"@ =~= seq!['h', 'o', 'u', 'r', 's']);
    assert("hour"@ =~= seq!['h', 'o', 'u', 'r']);
    assert("hr"@ =~= seq!['h', 'r']);
    assert("hrs"@ =~= seq!['h', 'r', 's']);
    assert("h"@ =~= seq!['h']);
    assert("days"@ =~= seq!['d', 'a', 'y', 's']);
    assert("day"@ =~= seq!['d', 'a', 'y']);
    assert("d"@ =~= seq!['d']);
    assert("weeks"@ =~= seq!['w', 'e', 'e', 'k', 's']);
    assert("week"@ =~= seq!['w', 'e', 'e', 'k']);
    assert("wk"@ =~= seq!['w', 'k']);
    assert("wks"@ =~= seq!['w', 'k', 's']);
    assert("w"@ =~= seq!['w']);
    assert("months"@ =~= seq!['m', 'o', 'n', 't', 'h', 's']);
    assert("month"@ =~= seq!['m', 'o', 'n', 't', 'h']);
    assert("M"@ =~= seq!['M']);
    assert("years"@ =~= seq!['y', 'e', 'a', 'r', 's']);
    assert("year"@ =~= seq!['y', 'e', 'a', 'r']);
    assert("yr"@ =~= seq!['y', 'r']);
    assert("yrs"@ =~= seq!['y', 'r', 's']);
    assert("y"@ =~= seq!['y']);
    if unit == "nanos"@ {
        assert(unit[0] == 'n' && unit[1] == 'a' && unit[2] == 'n' && unit[3] == 'o' && unit[4] == 's');
        assert(unit_nanos(unit) == 1);
    }
    if unit == "nsec"@ {
        assert(unit[0] == 'n' && unit[1] == 's' && unit[2] == 'e' && unit[3] == 'c');
        assert(unit_nanos(unit) == 1);
    }
    if unit == "ns"@ {
        assert(unit[0] == 'n' && unit[1] == 's');
        assert(unit_nanos(unit) == 1);
    }
    if unit == "usec"@ {
        assert(unit[0] == 'u' && unit[1] == 's' && unit[2] == 'e' && unit[3] == 'c');
        assert(unit_nanos(unit) == 1_000);
    }
    if unit == "us"@ {
        assert(unit[0] == 'u' && unit[1] == 's');
        assert(unit_nanos(unit) == 1_000);
    }
    if unit == "\u{b5}s"@ {
        assert(unit[0] == '\u{b5}' && unit[1] == 's');
        assert(unit_nanos(unit) == 1_000);
    }
    if unit == "millis"@ {
        assert(unit[0] == 'm' && unit[1] == 'i' && unit[2] == 'l' && unit[3] == 'l' && unit[4] == 'i' && unit[5] == 's');
        assert(unit_nanos(unit) == 1_000_000);
    }
    if unit == "msec"@ {
        assert(unit[0] == 'm' && unit[1] == 's' && unit[2] == 'e' && unit[3] == 'c');
        assert(unit_nanos(unit) == 1_000_000);
    }
    if unit == "ms"@ {
        assert(unit[0] == 'm' && unit[1] == 's');
        assert(unit_nanos(unit) == 1_000_000);
    }
    if unit == "seconds"@ {
        assert(unit[0] == 's' && unit[1] == 'e' && unit[2] == 'c' && unit[3] == 'o' && unit[4] == 'n' && unit[5] == 'd' && unit[6] == 's');
        assert(unit_nanos(unit) == 1_000_000_000);
    }
    if unit == "second"@ {
        assert(unit[0] == 's' && unit[1] == 'e' && unit[2] == 'c' && unit[3] == 'o' && unit[4] == 'n' && unit[5] == 'd');
        assert(unit_nanos(unit) == 1_000_000_000);
    }
    if unit == "secs"@ {
        assert(unit[0] == 's' && unit[1] == 'e' && unit[2] == 'c' && unit[3] == 's');
        assert(unit_nanos(unit) == 1_000_000_000);
    }
    if unit == "sec"@ {
        assert(unit[0] == 's' && unit[1] == 'e' && unit[2] == 'c');
        assert(unit_nanos(unit) == 1_000_000_000);
    }
    if unit == "s"@ {
        assert(unit[0] == 's');
        assert(unit_nanos(unit) == 1_000_000_000);
    }
    if unit == "minutes"@ {
        assert(unit[0] == 'm' && unit[1] == 'i' && unit[2] == 'n' && unit[3] == 'u' && unit[4] == 't' && unit[5] == 'e' && unit[6] == 's');
        assert(unit_nanos(unit) == 60_000_000_000);
    }
    if unit == "minute"@ {
        assert(unit[0] == 'm' && unit[1] == 'i' && unit[2] == 'n' && unit[3] == 'u' && unit[4] == 't' && unit[5] == 'e');
        assert(unit_nanos(unit) == 60_000_000_000);
    }
    if unit == "min"@ {
        assert(unit[0] == 'm' && unit[1] == 'i' && unit[2] == 'n');
        assert(unit_nanos(unit) == 60_000_000_000);
    }
    if unit == "mins"@ {
        assert(unit[0] == 'm' && unit[1] == 'i' && unit[2] == 'n' && unit[3] == 's');
        assert(unit_nanos(unit) == 60_000_000_000);
    }
    if unit == "m"@ {
        assert(unit[0] == 'm');
        assert(unit_nanos(unit) == 60_000_000_000);
    }
    if unit == "hours"@ {
        assert(unit[0] == 'h' && unit[1] == 'o' && unit[2] == 'u' && unit[3] == 'r' && unit[4] == 's');
        assert(unit_nanos(unit) == 3_600_000_000_000);
    }
    if unit == "hour"@ {
        assert(unit[0] == 'h' && unit[1] == 'o' && unit[2] == 'u' && unit[3] == 'r');
        assert(unit_nanos(unit) == 3_600_000_000_000);
    }
    if unit == "hr"@ {
        assert(unit[0] == 'h' && unit[1] == 'r');
        assert(unit_nanos(unit) == 3_600_000_000_000);
    }
    if unit == "hrs"@ {
        assert(unit[0] == 'h' && unit[1] == 'r' && unit[2] == 's');
        assert(unit_nanos(unit) == 3_600_000_000_000);
    }
    if unit == "h"@ {
        assert(unit[0] == 'h');
        assert(unit_nanos(unit) == 3_600_000_000_000);
    }
    if unit == "days"@ {
        assert(unit[0] == 'd' && unit[1] == 'a' && unit[2] == 'y' && unit[3] == 's');
        assert(unit_nanos(unit) == 86_400_000_000_000);
    }
    if unit == "day"@ {
        assert(unit[0] == 'd' && unit[1] == 'a' && unit[2] == 'y');
        assert(unit_nanos(unit) == 86_400_000_000_000);
    }
    if unit == "d"@ {
        assert(unit[0] == 'd');
        assert(unit_nanos(unit) == 86_400_000_000_000);
    }
    if unit == "weeks"@ {
        assert(unit[0] == 'w' && unit[1] == 'e' && unit[2] == 'e' && unit[3] == 'k' && unit[4] == 's');
        assert(unit_nanos(unit) == 604_800_000_000_000);
    }
    if unit == "week"@ {
        assert(unit[0] == 'w' && unit[1] == 'e' && unit[2] == 'e' && unit[3] == 'k');
        assert(unit_nanos(unit) == 604_800_000_000_000);
    }
    if unit == "wk"@ {
        assert(unit[0] == 'w' && unit[1] == 'k');
        assert(unit_nanos(unit) == 604_800_000_000_000);
    }
    if unit == "wks"@ {
        assert(unit[0] == 'w' && unit[1] == 'k' && unit[2] == 's');
        assert(unit_nanos(unit) == 604_800_000_000_000);
    }
    if unit == "w"@ {
        assert(unit[0] == 'w');
        assert(unit_nanos(unit) == 604_800_000_000_000);
    }
    if unit == "months"@ {
        assert(unit[0] == 'm' && unit[1] == 'o' && unit[2] == 'n' && unit[3] == 't' && unit[4] == 'h' && unit[5] == 's');
        assert(unit_nanos(unit) == 2_630_016_000_000_000);
    }
    if unit == "month"@ {
        assert(unit[0] == 'm' && unit[1] == 'o' && unit[2] == 'n' && unit[3] == 't' && unit[4] == 'h');
        assert(unit_nanos(unit) == 2_630_016_000_000_000);
    }
    if unit == "M"@ {
        assert(unit[0] == 'M');
        assert(unit_nanos(unit) == 2_630_016_000_000_000);
    }
    if unit == "years"@ {
        assert(unit[0] == 'y' && unit[1] == 'e' && unit[2] == 'a' && unit[3] == 'r' && unit[4] == 's');
        assert(unit_nanos(unit) == 31_557_600_000_000_000);
    }
    if unit == "year"@ {
        assert(unit[0] == 'y' && unit[1] == 'e' && unit[2] == 'a' && unit[3] == 'r');
        assert(unit_nanos(unit) == 31_557_600_000_000_000);
    }
    if unit == "yr"@ {
        assert(unit[0] == 'y' && unit[1] == 'r');
        assert(unit_nanos(unit) == 31_557_600_000_000_000);
    }
    if unit == "yrs"@ {
        assert(unit[0] == 'y' && unit[1] == 'r' && unit[2] == 's');
        assert(unit_nanos(unit) == 31_557_600_000_000_000);
    }
    if unit == "y"@ {
        assert(unit[0] == 'y');
        assert(unit_nanos(unit) == 31_557_600_000_000_000);
    }
    let all = seq![
        "nanos"@,
        "nsec"@,
        "ns"@,
        "usec"@,
        "us"@,
        "\u{b5}s"@,
        "millis"@,
        "msec"@,
        "ms"@,
        "seconds"@,
        "second"@,
        "secs"@,
        "sec"@,
        "s"@,
        "minutes"@,
        "minute"@,
        "min"@,
        "mins"@,
        "m"@,
        "hours"@,
        "hour"@,
        "hr"@,
        "hrs"@,
        "h"@,
        "days"@,
        "day"@,
        "d"@,
        "weeks"@,
        "week"@,
        "wk"@,
        "wks"@,
        "w"@,
        "months"@,
        "month"@,
        "M"@,
        "years"@,
        "year"@,
        "yr"@,
        "yrs"@,
        "y"@,
    ];
    if unit_nanos(unit) > 0 {
        assert(all[0] == unit || all[1] == unit || all[2] == unit || all[3] == unit || all[4] == unit || all[5] == unit || all[6] == unit || all[7] == unit || all[8] == unit || all[9] == unit || all[10] == unit || all[11] == unit || all[12] == unit || all[13] == unit || all[14] == unit || all[15] == unit || all[16] == unit || all[17] == unit || all[18] == unit || all[19] == unit || all[20] == unit || all[21] == unit || all[22] == unit || all[23] == unit || all[24] == unit || all[25] == unit || all[26] == unit || all[27] == unit || all[28] == unit || all[29] == unit || all[30] == unit || all[31] == unit || all[32] == unit || all[33] == unit || all[34] == unit || all[35] == unit || all[36] == unit || all[37] == unit || all[38] == unit || all[39] == unit);
    }
}

/// The units of one letter are a second, a minute, an hour, a day and a week.
pub proof fn one_letter_units_have_their_length(unit: char)
    ensures
        unit == 's' ==> unit_ms(unit) == Some(1000int),
        unit == 'm' ==> unit_ms(unit) == Some(60 * 1000int),
        unit == 'h' ==> unit_ms(unit) == Some(60 * 60 * 1000int),
        unit == 'd' ==> unit_ms(unit) == Some(24 * 60 * 60 * 1000int),
        unit == 'w' ==> unit_ms(unit) == Some(7 * 24 * 60 * 60 * 1000int),
        unit != 's' && unit != 'm' && unit != 'h' && unit != 'd' && unit != 'w' ==> unit_ms(unit)
            is None,
{
}

/// So many units are so many times its length, in whole milliseconds; they are no duration where
/// they are more than 64 bits hold, of nanoseconds for units below a second and of seconds for the
/// others.
pub proof fn units_are_counted_within_64_bits(n: nat, nanos: nat)
    ensures
        nanos < 1_000_000_000 && n * nanos <= u64::MAX ==> whole_duration(n as int, nanos) == Some(
            (n * nanos) as int / 1_000_000,
        ),
        nanos < 1_000_000_000 && n * nanos > u64::MAX ==> whole_duration(n as int, nanos) is None,
        nanos >= 1_000_000_000 && n * nanos <= u64::MAX * 1_000_000_000 ==> whole_duration(
            n as int,
            nanos,
        ) == Some((n * nanos) as int / 1_000_000),
        nanos >= 1_000_000_000 && n * nanos > u64::MAX * 1_000_000_000 ==> whole_duration(
            n as int,
            nanos,
        ) is None,
{
}

/// A duration starts with a digit, or with white space before it.
pub proof fn a_duration_starts_with_a_digit(first: char, rest: Seq<char>)
    ensures
        may_start(seq![first] + rest) <==> ('0' <= first && first <= '9') || white_space(first),
        !may_start(Seq::empty()),
{
}

/// What all numbers of a text from a position on stand for.
pub open spec fn all_nanos(s: Seq<char>, pos: int) -> nat
    decreases s.len() - pos,
    when 0 <= pos
{
    proof {
        if pos < s.len() && is_digit(s[pos]) {
            part_is_within(s, pos);
        }
    }
    if pos >= s.len() {
        0
    } else if is_digit(s[pos]) {
        whole_nanos(s, pos) + fraction_nanos(s, pos) + all_nanos(s, unit_end(s, pos))
    } else {
        all_nanos(s, pos + 1)
    }
}

/// Numbers that make up less than the end of all durations do not meet it on the way.
proof fn less_does_not_meet_end(s: Seq<char>, pos: int, before: nat)
    requires
        0 <= pos,
        before + all_nanos(s, pos) < DURATION_END_NANOS,
    ensures
        !meets_end(s, pos, before),
    decreases s.len() - pos,
{
    if pos < s.len() {
        if is_digit(s[pos]) {
            part_is_within(s, pos);
            less_does_not_meet_end(
                s,
                unit_end(s, pos),
                before + whole_nanos(s, pos) + fraction_nanos(s, pos),
            );
        } else {
            less_does_not_meet_end(s, pos + 1, before);
        }
    }
}

/// A text whose numbers make up no more than the largest duration can be read.
pub proof fn a_text_within_the_largest_duration_can_be_read(s: Seq<char>)
    requires
        all_nanos(s, 0) < 18_446_744_073_709_551_616 * 1_000_000_000,
    ensures
        can_be_read(s),
{
    less_does_not_meet_end(s, 0, 0);
}

/// The digits of a part of a text stand for their number.
proof fn digits_stand_for_their_number(s: Seq<char>, from: int, digits: Seq<char>)
    requires
        0 <= from,
        from + digits.len() <= s.len(),
        s.subrange(from, from + digits.len()) == digits,
        forall|i: int| 0 <= i < digits.len() ==> is_digit(#[trigger] digits[i]),
    ensures
        number_within(s, from, from + digits.len()) == digits_value(digits),
        digits_value(digits) >= 0,
    decreases digits.len(),
{
    if digits.len() > 0 {
        let front = digits.drop_last();
        let last = from + digits.len() - 1;
        assert(s.subrange(from, last) =~= front);
        assert(s[last] == s.subrange(from, from + digits.len())[digits.len() - 1]);
        assert forall|i: int| 0 <= i < front.len() implies is_digit(#[trigger] front[i]) by {
            assert(front[i] == digits[i]);
        }
        digits_stand_for_their_number(s, from, front);
        assert(is_digit(digits[digits.len() - 1]));
    }
}

/// A whole number with a unit in a text, up to a character that is no letter, is found as such.
proof fn an_amount_is_found(
    s: Seq<char>,
    from: int,
    digits: Seq<char>,
    unit: Seq<char>,
)
    requires
        0 <= from,
        all_digits(digits),
        unit_nanos(unit) > 0,
        from + digits.len() + unit.len() <= s.len(),
        s.subrange(from, from + digits.len() + unit.len()) == amount(digits, unit),
        from + digits.len() + unit.len() < s.len() ==> !is_unit_letter(
            s[from + digits.len() + unit.len()],
        ),
        unit.len() > 0,
        forall|i: int| 0 <= i < unit.len() ==> is_unit_letter(#[trigger] unit[i]),
    ensures
        is_digit(s[from]),
        from < s.len(),
        !has_fraction(s, from),
        unit_end(s, from) == from + digits.len() + unit.len(),
        whole_nanos(s, from) == digits_value(digits) * unit_nanos(unit),
        fraction_nanos(s, from) == 0,
{
    let n = digits.len() as int;
    let m = unit.len() as int;
    let part = s.subrange(from, from + n + m);
    assert forall|i: int| 0 <= i < n implies s[from + i] == #[trigger] digits[i] by {
        assert(part[i] == s[from + i]);
    }
    assert forall|i: int| 0 <= i < m implies s[from + n + i] == #[trigger] unit[i] by {
        assert(part[n + i] == s[from + n + i]);
    }
    assert(s[from] == digits[0]);
    first_where_is_first(s, ends_number(), from);
    let end = number_end(s, from);
    assert(s[from + n] == unit[0]);
    assert(is_unit_letter(unit[0]));
    assert(ends_number()(s[from + n]));
    assert(end == from + n) by {
        if end < from + n {
            assert(s[end] == digits[end - from]);
            assert(is_digit(digits[end - from]));
            assert(ends_number()(s[end]));
        }
    }
    assert(unit_start(s, from) == from + n);
    first_where_is_first(s, ends_unit(), from + n);
    let stop = unit_end(s, from);
    assert(stop == from + n + m) by {
        if stop < from + n + m {
            assert(s[stop] == unit[stop - from - n]);
            assert(ends_unit()(s[stop]));
        }
        if stop > from + n + m {
            assert(!ends_unit()(s[from + n + m]));
        }
    }
    assert(unit_at(s, from) =~= unit);
    assert(s.subrange(from, from + n) =~= digits);
    digits_stand_for_their_number(s, from, digits);
}

/// Two whole numbers with their units, one behind the other, can be read unless they make up, or the
/// first alone makes up, exactly one nanosecond more than the largest duration.
pub proof fn two_amounts_can_be_read_unless_they_meet_the_end(
    first: Seq<char>,
    unit: Seq<char>,
    second: Seq<char>,
    other: Seq<char>,
)
    requires
        all_digits(first),
        unit_nanos(unit) > 0,
        all_digits(second),
        unit_nanos(other) > 0,
    ensures
        ({
            let a = digits_value(first) * unit_nanos(unit);
            let b = digits_value(second) * unit_nanos(other);
            can_be_read(amount(first, unit) + amount(second, other)) <==> a
                != 18_446_744_073_709_551_616 * 1_000_000_000 && a + b
                != 18_446_744_073_709_551_616 * 1_000_000_000
        }),
{
    crate::gateway::duration::units_are_letters(unit);
    crate::gateway::duration::units_are_letters(other);
    let s = amount(first, unit) + amount(second, other);
    let n = (first.len() + unit.len()) as int;
    let end = s.len() as int;
    assert(s.subrange(0, n) =~= amount(first, unit));
    assert(s[n] == second[0]);
    assert(is_digit(second[0]));
    an_amount_is_found(s, 0, first, unit);
    assert(s.subrange(n, n + second.len() + other.len()) =~= amount(second, other));
    an_amount_is_found(s, n, second, other);
    assert(count_of_numbers(s, end) == 0);
    assert(count_of_numbers(s, n) == 1);
    assert(count_of_numbers(s, 0) == 2);
    let a = whole_nanos(s, 0);
    let b = whole_nanos(s, n);
    assert(!meets_end(s, end, a + b));
    assert(meets_end(s, n, a) == (a + b == DURATION_END_NANOS));
    assert(meets_end(s, 0, 0) == (a == DURATION_END_NANOS || a + b == DURATION_END_NANOS));
}

} // verus!
