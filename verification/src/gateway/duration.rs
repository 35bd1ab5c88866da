//! Durations such as `30m` or `1h 30m`, which `humantime` reads.

use crate::number::{
    all_digits, decimal, decimal_reads_back, digit_value, digits_value, digits_value_grows,
    is_digit,
};
use crate::text::{chars_of, first_where, first_where_is_first, is_white_space, same, white_space};
use vstd::prelude::*;

verus! {

/// As many nanoseconds as no duration has: the largest one is a nanosecond shorter.
pub const DURATION_END_NANOS: u128 = 18_446_744_073_709_551_616_000_000_000;

/// Whether a character can stand in the name of a unit.
pub open spec fn is_unit_letter(c: char) -> bool {
    'a' <= c && c <= 'z' || 'A' <= c && c <= 'Z' || c == '\u{b5}'
}

/// Which characters end a number: all but digits, and white space between them.
pub open spec fn ends_number() -> spec_fn(char) -> bool {
    |c: char| !is_digit(c) && !white_space(c)
}

/// Which characters end the name of a unit.
pub open spec fn ends_unit() -> spec_fn(char) -> bool {
    |c: char| !is_unit_letter(c)
}

/// The number whose digits stand in a part of a text; other characters do not count.
pub open spec fn number_within(s: Seq<char>, from: int, to: int) -> nat
    decreases to - from,
{
    if to <= from {
        0
    } else if is_digit(s[to - 1]) {
        (10 * number_within(s, from, to - 1) + digit_value(s[to - 1])) as nat
    } else {
        number_within(s, from, to - 1)
    }
}

/// Where the whole number that starts here ends.
pub open spec fn number_end(s: Seq<char>, pos: int) -> int {
    first_where(s, ends_number(), pos)
}

/// Whether the number that starts here has a fraction.
pub open spec fn has_fraction(s: Seq<char>, pos: int) -> bool {
    number_end(s, pos) < s.len() && s[number_end(s, pos)] == '.'
}

/// Where the unit of the number that starts here begins.
pub open spec fn unit_start(s: Seq<char>, pos: int) -> int {
    if has_fraction(s, pos) {
        first_where(s, ends_number(), number_end(s, pos) + 1)
    } else {
        number_end(s, pos)
    }
}

/// Where the unit of the number that starts here ends.
pub open spec fn unit_end(s: Seq<char>, pos: int) -> int {
    first_where(s, ends_unit(), unit_start(s, pos))
}

/// The nanoseconds of a unit; none for a name that is no unit.
pub open spec fn unit_nanos(unit: Seq<char>) -> nat {
    if unit.len() == 0 {
        0
    } else if unit == "nanos"@ || unit == "nsec"@ || unit == "ns"@ {
        1
    } else if unit == "usec"@ || unit == "us"@ || unit == "\u{b5}s"@ {
        1_000
    } else if unit == "millis"@ || unit == "msec"@ || unit == "ms"@ {
        1_000_000
    } else if unit == "seconds"@ || unit == "second"@ || unit == "secs"@ || unit == "sec"@ || unit
        == "s"@ {
        1_000_000_000
    } else if unit == "minutes"@ || unit == "minute"@ || unit == "min"@ || unit == "mins"@ || unit
        == "m"@ {
        60_000_000_000
    } else if unit == "hours"@ || unit == "hour"@ || unit == "hr"@ || unit == "hrs"@ || unit
        == "h"@ {
        3_600_000_000_000
    } else if unit == "days"@ || unit == "day"@ || unit == "d"@ {
        86_400_000_000_000
    } else if unit == "weeks"@ || unit == "week"@ || unit == "wk"@ || unit == "wks"@ || unit
        == "w"@ {
        604_800_000_000_000
    } else if unit == "months"@ || unit == "month"@ || unit == "M"@ {
        2_630_016_000_000_000
    } else if unit == "years"@ || unit == "year"@ || unit == "yr"@ || unit == "yrs"@ || unit
        == "y"@ {
        31_557_600_000_000_000
    } else {
        0
    }
}

/// How many digits stand in a part of a text.
pub open spec fn digits_within(s: Seq<char>, from: int, to: int) -> nat
    decreases to - from,
{
    if to <= from {
        0
    } else if is_digit(s[to - 1]) {
        digits_within(s, from, to - 1) + 1
    } else {
        digits_within(s, from, to - 1)
    }
}

/// A power of ten.
pub open spec fn tens(n: int) -> nat
    decreases n,
{
    if n <= 0 {
        1
    } else {
        10 * tens(n - 1)
    }
}

/// The name of the unit of the number that starts here.
pub open spec fn unit_at(s: Seq<char>, pos: int) -> Seq<char> {
    s.subrange(unit_start(s, pos), unit_end(s, pos))
}

/// The nanoseconds of the whole part of the number that starts here.
pub open spec fn whole_nanos(s: Seq<char>, pos: int) -> nat {
    number_within(s, pos, number_end(s, pos)) * unit_nanos(unit_at(s, pos))
}

/// The nanoseconds of a fraction of a unit, with the digits in a part of a text. There are none for
/// more digits than a denominator of 64 bits has zeros.
pub open spec fn fraction_within(s: Seq<char>, from: int, to: int, unit: nat) -> nat {
    if digits_within(s, from, to) > 19 {
        0
    } else {
        number_within(s, from, to) * unit / tens(digits_within(s, from, to) as int)
    }
}

/// The nanoseconds of the fraction of the number that starts here.
pub open spec fn fraction_nanos(s: Seq<char>, pos: int) -> nat {
    if has_fraction(s, pos) {
        fraction_within(
            s,
            number_end(s, pos) + 1,
            unit_start(s, pos),
            unit_nanos(unit_at(s, pos)),
        )
    } else {
        0
    }
}

/// The number that starts here ends further on, and within the text.
pub proof fn part_is_within(s: Seq<char>, pos: int)
    requires
        0 <= pos < s.len(),
        is_digit(s[pos]),
    ensures
        pos < number_end(s, pos) <= unit_start(s, pos) <= unit_end(s, pos) <= s.len(),
        has_fraction(s, pos) ==> number_end(s, pos) < unit_start(s, pos),
{
    let end = number_end(s, pos);
    first_where_is_first(s, ends_number(), pos);
    assert(!ends_number()(s[pos]));
    if end < s.len() {
        first_where_is_first(s, ends_number(), end + 1);
    }
    first_where_is_first(s, ends_unit(), unit_start(s, pos));
}

/// How many numbers a text holds from a position on.
pub open spec fn count_of_numbers(s: Seq<char>, pos: int) -> nat
    decreases s.len() - pos,
    when 0 <= pos
{
    proof {
        if pos < s.len() && is_digit(s[pos]) {
            part_is_within(s, pos);
        }
    }
    if pos >= s.len() {
        0
    } else if is_digit(s[pos]) {
        1 + count_of_numbers(s, unit_end(s, pos))
    } else {
        count_of_numbers(s, pos + 1)
    }
}

/// Whether the numbers of a text from a position on, added up one after the other to what came
/// before, ever make exactly what no duration has. The whole part of a number comes before its
/// fraction.
pub open spec fn meets_end(s: Seq<char>, pos: int, before: nat) -> bool
    decreases s.len() - pos,
    when 0 <= pos
{
    proof {
        if pos < s.len() && is_digit(s[pos]) {
            part_is_within(s, pos);
        }
    }
    if pos >= s.len() {
        false
    } else if is_digit(s[pos]) {
        let whole = before + whole_nanos(s, pos);
        let all = whole + fraction_nanos(s, pos);
        whole == DURATION_END_NANOS || all == DURATION_END_NANOS || meets_end(
            s,
            unit_end(s, pos),
            all,
        )
    } else {
        meets_end(s, pos + 1, before)
    }
}

/// Whether a text can be read as a duration: it holds one number at most, or its numbers never make
/// exactly what no duration has.
pub open spec fn can_be_read(s: Seq<char>) -> bool {
    count_of_numbers(s, 0) <= 1 || !meets_end(s, 0, 0)
}

/// A text without letters can be read: no number of it has a unit.
pub proof fn a_text_without_units_can_be_read(s: Seq<char>)
    requires
        forall|i: int| 0 <= i < s.len() ==> !is_unit_letter(#[trigger] s[i]),
    ensures
        can_be_read(s),
{
    nothing_without_units(s, 0);
}

/// The numbers of a text without letters stand for nothing.
proof fn nothing_without_units(s: Seq<char>, pos: int)
    requires
        0 <= pos,
        forall|i: int| 0 <= i < s.len() ==> !is_unit_letter(#[trigger] s[i]),
    ensures
        !meets_end(s, pos, 0),
    decreases s.len() - pos,
{
    if pos < s.len() {
        if is_digit(s[pos]) {
            part_is_within(s, pos);
            let start = unit_start(s, pos);
            assert(unit_end(s, pos) == start);
            assert(unit_nanos(unit_at(s, pos)) == 0);
            let n = number_within(s, pos, number_end(s, pos));
            assert(n * 0nat == 0) by (nonlinear_arith);
            let from = number_end(s, pos) + 1;
            let m = number_within(s, from, start);
            let zeros = digits_within(s, from, start) as int;
            tens_multiply(zeros, 0);
            assert(m * 0nat / tens(zeros) == 0) by (nonlinear_arith)
                requires
                    tens(zeros) >= 1,
            ;
            nothing_without_units(s, unit_end(s, pos));
        } else {
            nothing_without_units(s, pos + 1);
        }
    }
}

/// More zeros make a larger power of ten, and powers multiply by adding up their zeros.
proof fn tens_multiply(a: int, b: int)
    requires
        0 <= a,
        0 <= b,
    ensures
        tens(a + b) == tens(a) * tens(b),
        a > 0 ==> tens(a) >= 10,
        b > 0 ==> tens(b) >= 10,
        tens(a + b) >= tens(a) >= 1,
        tens(b) >= 1,
    decreases a + b,
{
    if b == 0 {
        if a > 0 {
            tens_multiply(a - 1, 0);
        }
        assert(tens(0) == 1);
        assert(tens(a) * 1 == tens(a)) by (nonlinear_arith);
    } else {
        tens_multiply(a, b - 1);
        assert(tens(a + b) == 10 * tens(a + (b - 1)));
        assert(tens(a) * (10 * tens(b - 1)) == 10 * (tens(a) * tens(b - 1))) by (nonlinear_arith);
    }
}

/// A number is smaller than a power of ten with as many zeros as it has digits, and so than one with
/// as many zeros as there are characters.
proof fn number_is_below_tens(s: Seq<char>, from: int, to: int)
    requires
        0 <= from <= to <= s.len(),
    ensures
        digits_within(s, from, to) <= to - from,
        number_within(s, from, to) < tens(digits_within(s, from, to) as int) <= tens(to - from),
    decreases to - from,
{
    if from < to {
        number_is_below_tens(s, from, to - 1);
        let zeros = digits_within(s, from, to) as int;
        tens_multiply(zeros, to - from - zeros);
    }
}

/// A fraction of a unit is no more than the unit.
proof fn fraction_is_within_unit(s: Seq<char>, from: int, to: int, unit: nat)
    requires
        0 <= from <= to <= s.len(),
    ensures
        fraction_within(s, from, to, unit) <= unit,
{
    let n = number_within(s, from, to);
    let zeros = digits_within(s, from, to) as int;
    number_is_below_tens(s, from, to);
    assert(n * unit / tens(zeros) <= unit) by (nonlinear_arith)
        requires
            n < tens(zeros),
    ;
}

/// The numbers of a text stand for no more years than a power of ten with as many zeros as there
/// are characters.
proof fn few_characters_do_not_meet_end(s: Seq<char>, pos: int, before: nat)
    requires
        0 <= pos <= s.len(),
        before + tens(s.len() - pos) * 31_557_600_000_000_000 < DURATION_END_NANOS,
    ensures
        !meets_end(s, pos, before),
    decreases s.len() - pos,
{
    if pos < s.len() && is_digit(s[pos]) {
        part_is_within(s, pos);
        let end = number_end(s, pos);
        let next = unit_end(s, pos);
        let n = number_within(s, pos, end);
        let unit = unit_nanos(unit_at(s, pos));
        let part = whole_nanos(s, pos) + fraction_nanos(s, pos);
        number_is_below_tens(s, pos, end);
        if has_fraction(s, pos) {
            fraction_is_within_unit(s, end + 1, unit_start(s, pos), unit);
        }
        assert(part <= n * unit + unit);
        tens_multiply(end - pos, next - end);
        assert((end - pos) + (next - end) == next - pos);
        assert(n * unit + unit <= tens(next - pos) * 31_557_600_000_000_000) by (nonlinear_arith)
            requires
                n + 1 <= tens(next - pos),
                unit <= 31_557_600_000_000_000,
        ;
        tens_multiply(next - pos, s.len() - next);
        assert((next - pos) + (s.len() - next) == s.len() - pos);
        if next < s.len() {
            let a = tens(next - pos);
            let b = tens(s.len() - next);
            assert(a + b <= a * b) by (nonlinear_arith)
                requires
                    a >= 10,
                    b >= 10,
            ;
            few_characters_do_not_meet_end(s, next, before + part);
        } else {
            assert(!meets_end(s, next, before + part));
        }
    } else if pos < s.len() {
        tens_multiply(s.len() - pos - 1, 1);
        few_characters_do_not_meet_end(s, pos + 1, before);
    }
}

/// A text of up to eleven characters can be read, whatever it holds.
pub proof fn a_short_text_can_be_read(s: Seq<char>)
    requires
        s.len() <= 11,
    ensures
        can_be_read(s),
{
    tens_multiply(s.len() as int, 11 - s.len());
    assert(tens(11) == 100_000_000_000) by {
        reveal_with_fuel(tens, 12);
    }
    few_characters_do_not_meet_end(s, 0, 0);
}

/// More nanoseconds than what no duration has.
pub const BEYOND_END_NANOS: u128 = 18_446_744_073_709_551_616_000_000_001;

/// A number up to what no duration has, or one number that stands for all larger ones.
pub open spec fn capped(n: nat) -> nat {
    if n <= DURATION_END_NANOS {
        n
    } else {
        BEYOND_END_NANOS as nat
    }
}

/// Cuts a number down to what counts.
fn cap(n: u128) -> (capped_n: u128)
    ensures
        capped_n == capped(n as nat),
{
    if n <= DURATION_END_NANOS {
        n
    } else {
        BEYOND_END_NANOS
    }
}

/// Finds where a number ends.
fn find_number_end(chars: &Vec<char>, from: usize) -> (at: usize)
    requires
        from <= chars@.len(),
    ensures
        at == first_where(chars@, ends_number(), from as int),
        from <= at <= chars@.len(),
{
    let mut i: usize = from;
    while i < chars.len() && (('0' <= chars[i] && chars[i] <= '9') || is_white_space(chars[i]))
        invariant
            from <= i <= chars@.len(),
            first_where(chars@, ends_number(), from as int) == first_where(
                chars@,
                ends_number(),
                i as int,
            ),
        decreases chars@.len() - i,
    {
        i = i + 1;
    }
    i
}

/// Finds where the name of a unit ends.
fn find_unit_end(chars: &Vec<char>, from: usize) -> (at: usize)
    requires
        from <= chars@.len(),
    ensures
        at == first_where(chars@, ends_unit(), from as int),
        from <= at <= chars@.len(),
{
    let mut i: usize = from;
    while i < chars.len() && (('a' <= chars[i] && chars[i] <= 'z') || ('A' <= chars[i] && chars[i]
        <= 'Z') || chars[i] == '\u{b5}')
        invariant
            from <= i <= chars@.len(),
            first_where(chars@, ends_unit(), from as int) == first_where(
                chars@,
                ends_unit(),
                i as int,
            ),
        decreases chars@.len() - i,
    {
        i = i + 1;
    }
    i
}

/// Reads the number whose digits stand in a part of a text, as far as it counts.
fn read_number(chars: &Vec<char>, from: usize, to: usize) -> (n: u128)
    requires
        from <= to <= chars@.len(),
    ensures
        n == capped(number_within(chars@, from as int, to as int)),
{
    let mut n: u128 = 0;
    let mut i: usize = from;
    while i < to
        invariant
            from <= i <= to <= chars@.len(),
            n == capped(number_within(chars@, from as int, i as int)),
        decreases to - i,
    {
        if '0' <= chars[i] && chars[i] <= '9' {
            let digit: u128 = (chars[i] as u32 - 48) as u128;
            let longer: u128 = 10 * n + digit;
            n = cap(longer);
        }
        i = i + 1;
    }
    n
}

/// Gives the nanoseconds of a unit.
fn nanos_of_unit(unit: &str) -> (nanos: u128)
    ensures
        nanos == unit_nanos(unit@),
        nanos <= 31_557_600_000_000_000,
{
    if unit.is_empty() {
        0
    } else if same(unit, "nanos") || same(unit, "nsec") || same(unit, "ns") {
        1
    } else if same(unit, "usec") || same(unit, "us") || same(unit, "\u{b5}s") {
        1_000
    } else if same(unit, "millis") || same(unit, "msec") || same(unit, "ms") {
        1_000_000
    } else if same(unit, "seconds") || same(unit, "second") || same(unit, "secs") || same(
        unit,
        "sec",
    ) || same(unit, "s") {
        1_000_000_000
    } else if same(unit, "minutes") || same(unit, "minute") || same(unit, "min") || same(
        unit,
        "mins",
    ) || same(unit, "m") {
        60_000_000_000
    } else if same(unit, "hours") || same(unit, "hour") || same(unit, "hr") || same(unit, "hrs")
        || same(unit, "h") {
        3_600_000_000_000
    } else if same(unit, "days") || same(unit, "day") || same(unit, "d") {
        86_400_000_000_000
    } else if same(unit, "weeks") || same(unit, "week") || same(unit, "wk") || same(unit, "wks")
        || same(unit, "w") {
        604_800_000_000_000
    } else if same(unit, "months") || same(unit, "month") || same(unit, "M") {
        2_630_016_000_000_000
    } else if same(unit, "years") || same(unit, "year") || same(unit, "yr") || same(unit, "yrs")
        || same(unit, "y") {
        31_557_600_000_000_000
    } else {
        0
    }
}

/// Multiplies a number with a unit, as far as it counts.
fn times(n: u128, unit: u128, Ghost(whole): Ghost<nat>) -> (nanos: u128)
    requires
        n == capped(whole),
        unit <= 31_557_600_000_000_000,
    ensures
        nanos == capped(whole * unit as nat),
{
    if unit == 0 {
        assert(whole * 0nat == 0) by (nonlinear_arith);
        return 0;
    }
    if n > DURATION_END_NANOS / unit {
        proof {
            let quotient = DURATION_END_NANOS as nat / unit as nat;
            assert(whole * unit as nat > DURATION_END_NANOS) by (nonlinear_arith)
                requires
                    whole >= quotient + 1,
                    quotient == DURATION_END_NANOS as nat / unit as nat,
                    unit > 0,
            ;
        }
        return BEYOND_END_NANOS;
    }
    proof {
        assert(n <= n * unit <= DURATION_END_NANOS) by (nonlinear_arith)
            requires
                n <= DURATION_END_NANOS / unit,
                unit > 0,
        ;
    }
    n * unit
}

/// Reads a fraction of a unit.
fn read_fraction(chars: &Vec<char>, from: usize, to: usize, unit: u128) -> (nanos: u128)
    requires
        from <= to <= chars@.len(),
        unit <= 31_557_600_000_000_000,
    ensures
        nanos == fraction_within(chars@, from as int, to as int, unit as nat),
{
    let mut n: u128 = 0;
    let mut count: usize = 0;
    let mut scale: u128 = 1;
    let mut i: usize = from;
    while i < to
        invariant
            from <= i <= to <= chars@.len(),
            count <= 20,
            count < 20 ==> count == digits_within(chars@, from as int, i as int) && n
                == number_within(chars@, from as int, i as int) && scale == tens(count as int)
                && scale <= 10_000_000_000_000_000_000,
            count == 20 ==> digits_within(chars@, from as int, i as int) >= 20,
        decreases to - i,
    {
        proof {
            number_is_below_tens(chars@, from as int, i as int);
            assert(tens(19) == 10_000_000_000_000_000_000) by {
                reveal_with_fuel(tens, 20);
            }
            if count < 19 {
                tens_multiply(count + 1, 19 - (count + 1));
            }
        }
        if '0' <= chars[i] && chars[i] <= '9' && count < 20 {
            count = count + 1;
            if count < 20 {
                let digit: u128 = (chars[i] as u32 - 48) as u128;
                n = 10 * n + digit;
                scale = 10 * scale;
            }
        }
        i = i + 1;
    }
    if count == 20 {
        return 0;
    }
    proof {
        number_is_below_tens(chars@, from as int, to as int);
        assert(n * unit <= 10_000_000_000_000_000_000 * 31_557_600_000_000_000) by (nonlinear_arith)
            requires
                n <= 10_000_000_000_000_000_000,
                unit <= 31_557_600_000_000_000,
        ;
    }
    n * unit / scale
}

/// Tells whether a text can be read as a duration.
pub fn is_readable(text: &str) -> (yes: bool)
    ensures
        yes == can_be_read(text@),
{
    let chars = chars_of(text);
    let end: usize = chars.len();
    let mut count: usize = 0;
    let mut met = false;
    let mut sum: u128 = 0;
    let mut pos: usize = 0;
    let ghost mut nanos: nat = 0;
    while pos < end
        invariant
            chars@ == text@,
            end == text@.len(),
            pos <= end,
            count <= pos,
            count_of_numbers(text@, 0) == count + count_of_numbers(text@, pos as int),
            meets_end(text@, 0, 0) == (met || meets_end(text@, pos as int, nanos)),
            sum == capped(nanos),
        decreases end - pos,
    {
        if '0' <= chars[pos] && chars[pos] <= '9' {
            proof {
                part_is_within(text@, pos as int);
            }
            let whole_end = find_number_end(&chars, pos);
            let fraction = whole_end < end && chars[whole_end] == '.';
            let unit_from: usize = if fraction {
                find_number_end(&chars, whole_end + 1)
            } else {
                whole_end
            };
            let unit_to = find_unit_end(&chars, unit_from);
            let unit = nanos_of_unit(text.substring_char(unit_from, unit_to));
            let n = read_number(&chars, pos, whole_end);
            let ghost number = number_within(text@, pos as int, whole_end as int);
            let part = times(n, unit, Ghost(number));
            assert(number * unit as nat == whole_nanos(text@, pos as int));
            sum = cap(sum + part);
            if sum == DURATION_END_NANOS {
                met = true;
            }
            if fraction {
                let rest = read_fraction(&chars, whole_end + 1, unit_from, unit);
                proof {
                    fraction_is_within_unit(
                        text@,
                        whole_end + 1,
                        unit_from as int,
                        unit as nat,
                    );
                }
                sum = cap(sum + rest);
                if sum == DURATION_END_NANOS {
                    met = true;
                }
            }
            proof {
                nanos = nanos + whole_nanos(text@, pos as int) + fraction_nanos(text@, pos as int);
            }
            count = count + 1;
            pos = unit_to;
        } else {
            pos = pos + 1;
        }
    }
    count <= 1 || !met
}

/// The milliseconds that a unit of one letter stands for.
pub open spec fn unit_ms(unit: char) -> Option<int> {
    if unit == 's' {
        Some(1000)
    } else if unit == 'm' {
        Some(60_000)
    } else if unit == 'h' {
        Some(3_600_000)
    } else if unit == 'd' {
        Some(86_400_000)
    } else if unit == 'w' {
        Some(604_800_000)
    } else {
        None
    }
}

/// A whole number behind which a unit stands.
pub open spec fn amount(digits: Seq<char>, unit: Seq<char>) -> Seq<char> {
    digits + unit
}

/// The whole milliseconds of so many units of so many nanoseconds; none where they are too many.
/// Units below a second are counted in nanoseconds, and the others in seconds, with 64 bits.
pub open spec fn whole_duration(n: int, nanos: nat) -> Option<int> {
    if n * nanos <= (if nanos < 1_000_000_000 {
        u64::MAX as int
    } else {
        u64::MAX * 1_000_000_000
    }) {
        Some(n * nanos / 1_000_000)
    } else {
        None
    }
}

/// The name of a unit is letters. The one-letter names stand for what `unit_ms` says.
pub proof fn units_are_letters(unit: Seq<char>)
    ensures
        unit_nanos(unit) > 0 ==> unit.len() > 0 && forall|i: int|
            0 <= i < unit.len() ==> is_unit_letter(#[trigger] unit[i]),
        unit.len() == 1 && unit_ms(unit[0]) is Some ==> unit_nanos(unit) == unit_ms(unit[0])->0
            * 1_000_000,
{
    reveal_strlit("nanos");
    reveal_strlit("nsec");
    reveal_strlit("ns");
    reveal_strlit("usec");
    reveal_strlit("us");
    reveal_strlit("\u{b5}s");
    reveal_strlit("millis");
    reveal_strlit("msec");
    reveal_strlit("ms");
    reveal_strlit("seconds");
    reveal_strlit("second");
    reveal_strlit("secs");
    reveal_strlit("sec");
    reveal_strlit("s");
    reveal_strlit("minutes");
    reveal_strlit("minute");
    reveal_strlit("min");
    reveal_strlit("mins");
    reveal_strlit("m");
    reveal_strlit("hours");
    reveal_strlit("hour");
    reveal_strlit("hr");
    reveal_strlit("hrs");
    reveal_strlit("h");
    reveal_strlit("days");
    reveal_strlit("day");
    reveal_strlit("d");
    reveal_strlit("weeks");
    reveal_strlit("week");
    reveal_strlit("wk");
    reveal_strlit("wks");
    reveal_strlit("w");
    reveal_strlit("months");
    reveal_strlit("month");
    reveal_strlit("M");
    reveal_strlit("years");
    reveal_strlit("year");
    reveal_strlit("yr");
    reveal_strlit("yrs");
    reveal_strlit("y");
    if unit.len() == 1 && unit_ms(unit[0]) is Some {
        assert(unit =~= seq![unit[0]]);
        assert("s"@ =~= seq!['s']);
        assert("m"@ =~= seq!['m']);
        assert("h"@ =~= seq!['h']);
        assert("d"@ =~= seq!['d']);
        assert("w"@ =~= seq!['w']);
    }
}

/// A whole number with a unit can be read, however large it is.
pub proof fn an_amount_can_be_read(digits: Seq<char>, unit: Seq<char>)
    requires
        all_digits(digits),
        unit_nanos(unit) > 0,
    ensures
        can_be_read(amount(digits, unit)),
        !amount(digits, unit).contains(':'),
        whole_duration(digits_value(digits), unit_nanos(unit)) matches Some(ms) ==> 0 <= ms
            <= u64::MAX * 1000,
{
    digits_value_grows(digits, digits.len() as int, digits.len() as int);
    assert(digits.take(digits.len() as int) =~= digits);
    assert(digits_value(digits) * unit_nanos(unit) >= 0) by (nonlinear_arith)
        requires
            digits_value(digits) >= 0,
    ;
    let s = amount(digits, unit);
    let n = digits.len() as int;
    units_are_letters(unit);
    assert forall|i: int| 0 <= i < s.len() implies if i < n {
        is_digit(#[trigger] s[i])
    } else {
        is_unit_letter(s[i])
    } by {
        if i < n {
            assert(s[i] == digits[i]);
        } else {
            assert(s[i] == unit[i - n]);
        }
    }
    first_where_is_first(s, ends_number(), 0);
    assert(ends_number()(s[n]));
    assert(number_end(s, 0) == n);
    assert(unit_start(s, 0) == n);
    first_where_is_first(s, ends_unit(), n);
    if unit_end(s, 0) < s.len() {
        assert(ends_unit()(s[unit_end(s, 0)]));
    }
    assert(unit_end(s, 0) == s.len());
    assert(count_of_numbers(s, s.len() as int) == 0);
    assert(is_digit(s[0]));
}

/// A number in decimal with a unit of one letter is an amount.
pub proof fn a_written_number_is_an_amount(n: nat, unit: char)
    requires
        unit_ms(unit) is Some,
    ensures
        decimal(n).push(unit) == amount(decimal(n), seq![unit]),
        all_digits(decimal(n)),
        unit_nanos(seq![unit]) > 0,
        whole_duration(digits_value(decimal(n)), unit_nanos(seq![unit])) == if n * unit_ms(unit)->0
            <= u64::MAX * 1000 {
            Some(n * unit_ms(unit)->0)
        } else {
            None
        },
{
    decimal_reads_back(n);
    units_are_letters(seq![unit]);
    assert(decimal(n).push(unit) =~= amount(decimal(n), seq![unit]));
    let ms = unit_ms(unit)->0;
    assert(n * (ms * 1_000_000) == (n * ms) * 1_000_000) by (nonlinear_arith);
}

/// Whether a text can start a duration: with a digit, behind white space at most.
pub open spec fn may_start(s: Seq<char>) -> bool {
    s.len() > 0 && (is_digit(s[0]) || white_space(s[0]))
}

/// The whole milliseconds of the duration that `humantime::parse_duration` reads in a text.
pub uninterp spec fn duration_in(s: Seq<char>) -> Option<u128>;

/// Calls `humantime::parse_duration`, and `Duration::as_millis` on what it reads; nothing comes
/// back where it gives an error. The result is named `duration_in`. A text with a colon is no
/// duration, nor is one that starts with anything but a digit or white space. A whole number with a
/// unit is that many of the unit, and an error where 64 bits do not hold them. What texts with a
/// fraction, several numbers or white space mean is not stated.
///
/// The function panics where the parts that it has read so far make up one nanosecond more than the
/// largest duration, in the form of `u64::MAX` seconds and a whole second in nanoseconds. One number
/// alone never does: as seconds or more it has no nanoseconds that are a whole second beside that
/// many seconds, and as less than a second it is too short. So a text is left out only where it
/// holds two numbers or more and some of them, from the first on, make up exactly that much. On
/// such a text the function panics or gives an error.
#[verifier::external_body]
pub(crate) fn parse_duration_ms(text: &str) -> (ms: Option<u128>)
    requires
        can_be_read(text@),
    ensures
        ms == duration_in(text@),
        text@.contains(':') ==> ms is None,
        !may_start(text@) ==> ms is None,
        forall|digits: Seq<char>, unit: Seq<char>|
            all_digits(digits) && unit_nanos(unit) > 0 && text@ == #[trigger] amount(digits, unit)
                ==> ms == match whole_duration(digits_value(digits), unit_nanos(unit)) {
                Some(whole) => Some(whole as u128),
                None => None,
            },
{
    match humantime::parse_duration(text) {
        Ok(duration) => Some(duration.as_millis()),
        Err(_) => None,
    }
}

} // verus!
