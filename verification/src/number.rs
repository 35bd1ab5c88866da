//! Decimal numbers as text, written and read.

use crate::text::chars_of;
use vstd::prelude::*;

verus! {

/// The character of a digit.
pub open spec fn digit(d: int) -> char {
    ((48 + d) as u8) as char
}

/// Whether a character is a decimal digit.
pub open spec fn is_digit(c: char) -> bool {
    '0' <= c && c <= '9'
}

/// What a digit stands for.
pub open spec fn digit_value(c: char) -> int {
    c as int - 48
}

/// A natural number in decimal, without leading zeros.
pub open spec fn decimal(n: nat) -> Seq<char>
    decreases n,
{
    if n < 10 {
        seq![digit(n as int)]
    } else {
        decimal(n / 10).push(digit((n % 10) as int))
    }
}

/// An integer in decimal, with a minus sign where it is negative.
pub open spec fn signed_decimal(n: int) -> Seq<char> {
    if n < 0 {
        seq!['-'] + decimal((-n) as nat)
    } else {
        decimal(n as nat)
    }
}

/// Whether a text is one or more digits.
pub open spec fn all_digits(s: Seq<char>) -> bool {
    s.len() > 0 && forall|i: int| 0 <= i < s.len() ==> is_digit(#[trigger] s[i])
}

/// The number that a sequence of digits stands for.
pub open spec fn digits_value(s: Seq<char>) -> int
    decreases s.len(),
{
    if s.len() == 0 {
        0
    } else {
        digits_value(s.drop_last()) * 10 + digit_value(s.last())
    }
}

/// The digits of a number, which may stand behind a plus sign.
pub open spec fn after_plus(s: Seq<char>) -> Seq<char> {
    if s.len() > 0 && s[0] == '+' {
        s.skip(1)
    } else {
        s
    }
}

/// What an unsigned number reads as: digits behind an optional plus sign, up to `max`.
pub open spec fn parsed_unsigned(s: Seq<char>, max: int) -> Option<int> {
    let digits = after_plus(s);
    if all_digits(digits) && digits_value(digits) <= max {
        Some(digits_value(digits))
    } else {
        None
    }
}

/// What a signed number of 64 bits reads as: digits behind an optional sign, within the range.
pub open spec fn parsed_signed(s: Seq<char>) -> Option<int> {
    if s.len() > 0 && s[0] == '-' {
        let digits = s.skip(1);
        if all_digits(digits) && digits_value(digits) <= 0x8000_0000_0000_0000 {
            Some(-digits_value(digits))
        } else {
            None
        }
    } else {
        parsed_unsigned(s, i64::MAX as int)
    }
}

/// A decimal number is digits that stand for the number.
pub proof fn decimal_reads_back(n: nat)
    ensures
        all_digits(decimal(n)),
        digits_value(decimal(n)) == n,
    decreases n,
{
    if n < 10 {
        let s = decimal(n);
        assert(s.drop_last() == Seq::<char>::empty());
        assert(digits_value(Seq::<char>::empty()) == 0);
    } else {
        let front = decimal(n / 10);
        decimal_reads_back(n / 10);
        let s = decimal(n);
        assert(s.drop_last() == front);
        assert(s.last() == digit((n % 10) as int));
        assert forall|i: int| 0 <= i < s.len() implies is_digit(#[trigger] s[i]) by {
            if i < front.len() {
                assert(s[i] == front[i]);
            }
        }
    }
}

/// A number of 64 bits that was written reads back as itself.
pub proof fn written_number_reads_back(n: i64)
    ensures
        parsed_signed(signed_decimal(n as int)) == Some(n as int),
{
    if n < 0 {
        let m = (-n) as nat;
        decimal_reads_back(m);
        assert(signed_decimal(n as int).skip(1) == decimal(m));
    } else {
        let s = decimal(n as nat);
        decimal_reads_back(n as nat);
        assert(is_digit(s[0]));
    }
}

/// The text of one digit.
fn digit_text(d: u64) -> (text: &'static str)
    requires
        d < 10,
    ensures
        text@ == seq![digit(d as int)],
{
    proof {
        reveal_strlit("0");
        reveal_strlit("1");
        reveal_strlit("2");
        reveal_strlit("3");
        reveal_strlit("4");
        reveal_strlit("5");
        reveal_strlit("6");
        reveal_strlit("7");
        reveal_strlit("8");
        reveal_strlit("9");
    }
    if d == 0 {
        "0"
    } else if d == 1 {
        "1"
    } else if d == 2 {
        "2"
    } else if d == 3 {
        "3"
    } else if d == 4 {
        "4"
    } else if d == 5 {
        "5"
    } else if d == 6 {
        "6"
    } else if d == 7 {
        "7"
    } else if d == 8 {
        "8"
    } else {
        "9"
    }
}

/// Writes a natural number in decimal.
pub fn write_unsigned(n: u64) -> (text: String)
    ensures
        text@ == decimal(n as nat),
    decreases n,
{
    let mut text = if n < 10 {
        String::new()
    } else {
        write_unsigned(n / 10)
    };
    let last = digit_text(n % 10);
    let ghost front = text@;
    text.append(last);
    assert(front + seq![digit((n % 10) as int)] == front.push(digit((n % 10) as int)));
    assert(n < 10 ==> text@ == seq![digit(n as int)]);
    text
}

/// Writes an integer in decimal.
pub fn write_signed(n: i64) -> (text: String)
    ensures
        text@ == signed_decimal(n as int),
{
    if n < 0 {
        let magnitude: u64 = (-(n + 1)) as u64 + 1;
        let mut text = String::new();
        text.append("-");
        proof {
            reveal_strlit("-");
        }
        assert(text@ == seq!['-']);
        text.append(write_unsigned(magnitude).as_str());
        text
    } else {
        write_unsigned(n as u64)
    }
}

/// More digits never make a smaller number.
pub proof fn digits_value_grows(s: Seq<char>, m: int, n: int)
    requires
        0 <= m <= n <= s.len(),
        forall|i: int| 0 <= i < n ==> is_digit(#[trigger] s[i]),
    ensures
        0 <= digits_value(s.take(m)) <= digits_value(s.take(n)),
    decreases n,
{
    if n > 0 {
        assert(s.take(n).drop_last() == s.take(n - 1));
        assert(s.take(n).last() == s[n - 1]);
        assert(is_digit(s[n - 1]));
        if m < n {
            digits_value_grows(s, m, n - 1);
        } else {
            digits_value_grows(s, n - 1, n - 1);
        }
    }
}

/// Reads the digits from a position to the end as a number of at most `max`.
fn read_digits(chars: &Vec<char>, from: usize, max: u64) -> (value: Option<u64>)
    requires
        from <= chars@.len(),
    ensures
        ({
            let digits = chars@.skip(from as int);
            match value {
                Some(v) => all_digits(digits) && digits_value(digits) == v && v <= max,
                None => !(all_digits(digits) && digits_value(digits) <= max),
            }
        }),
{
    let ghost digits = chars@.skip(from as int);
    if from == chars.len() {
        return None;
    }
    let mut value: u64 = 0;
    let mut i: usize = from;
    assert(digits.take(0) == Seq::<char>::empty());
    while i < chars.len()
        invariant
            from <= i <= chars@.len(),
            digits == chars@.skip(from as int),
            value <= max,
            forall|j: int| 0 <= j < i - from ==> is_digit(#[trigger] digits[j]),
            value == digits_value(digits.take(i - from)),
        decreases chars@.len() - i,
    {
        let c = chars[i];
        assert(c == digits[i - from]);
        if !('0' <= c && c <= '9') {
            return None;
        }
        let d: u64 = c as u64 - 48;
        assert(digits.take(i - from + 1).drop_last() == digits.take(i - from));
        assert(digits.take(i - from + 1).last() == c);
        if d > max || value > (max - d) / 10 {
            proof {
                assert(value * 10 + d > max);
                if all_digits(digits) {
                    digits_value_grows(digits, i - from + 1, digits.len() as int);
                    assert(digits.take(digits.len() as int) == digits);
                }
            }
            return None;
        }
        value = value * 10 + d;
        i = i + 1;
    }
    assert(digits.take(digits.len() as int) == digits);
    Some(value)
}

/// Reads an unsigned number of at most `max`.
pub fn read_unsigned(text: &str, max: u64) -> (value: Option<u64>)
    ensures
        match value {
            Some(v) => parsed_unsigned(text@, max as int) == Some(v as int),
            None => parsed_unsigned(text@, max as int) is None,
        },
{
    let chars = chars_of(text);
    let from: usize = if chars.len() > 0 && chars[0] == '+' {
        1
    } else {
        0
    };
    assert(after_plus(text@) == text@.skip(from as int));
    read_digits(&chars, from, max)
}

/// Reads a signed number of 64 bits.
pub fn read_signed(text: &str) -> (value: Option<i64>)
    ensures
        match value {
            Some(v) => parsed_signed(text@) == Some(v as int),
            None => parsed_signed(text@) is None,
        },
{
    let chars = chars_of(text);
    if chars.len() > 0 && chars[0] == '-' {
        match read_digits(&chars, 1, 0x8000_0000_0000_0000) {
            Some(magnitude) => {
                if magnitude == 0x8000_0000_0000_0000 {
                    Some(i64::MIN)
                } else {
                    Some(-(magnitude as i64))
                }
            },
            None => None,
        }
    } else {
        match read_unsigned(text, 0x7fff_ffff_ffff_ffff) {
            Some(v) => Some(v as i64),
            None => None,
        }
    }
}

/// A number is written without a zero in front, but for the number zero, which is one zero.
pub proof fn no_number_starts_with_zero(n: nat)
    ensures
        decimal(0) == seq!['0'],
        n > 0 ==> decimal(n)[0] != '0',
        n < 10 ==> decimal(n).len() == 1,
        n >= 10 ==> decimal(n) == decimal(n / 10) + decimal(n % 10),
        signed_decimal(n as int) == decimal(n),
        n > 0 ==> signed_decimal(-(n as int)) == seq!['-'] + decimal(n),
    decreases n,
{
    assert(decimal(0) =~= seq!['0']);
    if n >= 10 {
        no_number_starts_with_zero(n / 10);
        decimal_reads_back(n / 10);
        assert(decimal(n)[0] == decimal(n / 10)[0]);
        assert(decimal(n) =~= decimal(n / 10) + decimal(n % 10));
    }
}

/// Digits stand for a number by their places: one more digit makes ten times as much and the digit.
pub proof fn digits_count_by_their_places(s: Seq<char>, c: char)
    ensures
        digits_value(Seq::empty()) == 0,
        digits_value(s.push(c)) == 10 * digits_value(s) + (c as int - '0' as int),
{
    assert(s.push(c).drop_last() =~= s);
}

/// A number is read from digits, which may have a plus sign before them, up to its bound; a signed
/// one also from digits behind a minus sign. Nothing else is a number.
pub proof fn only_digits_are_read(digits: Seq<char>, max: int, s: Seq<char>)
    requires
        all_digits(digits),
    ensures
        parsed_unsigned(digits, max) == (if digits_value(digits) <= max {
            Some(digits_value(digits))
        } else {
            None
        }),
        parsed_unsigned(seq!['+'] + digits, max) == parsed_unsigned(digits, max),
        parsed_signed(digits) == parsed_unsigned(digits, 9_223_372_036_854_775_807),
        parsed_signed(seq!['+'] + digits) == parsed_signed(digits),
        parsed_signed(seq!['-'] + digits) == (if digits_value(digits) <= 9_223_372_036_854_775_808 {
            Some(-digits_value(digits))
        } else {
            None
        }),
        parsed_unsigned(s, max) is Some ==> all_digits(s) || (s.len() > 0 && s[0] == '+'
            && all_digits(s.skip(1))),
        parsed_signed(s) is Some ==> all_digits(s) || (s.len() > 0 && (s[0] == '+' || s[0] == '-')
            && all_digits(s.skip(1))),
{
    assert(is_digit(digits[0]));
    assert((seq!['+'] + digits).skip(1) =~= digits);
    assert((seq!['-'] + digits).skip(1) =~= digits);
}

} // verus!
