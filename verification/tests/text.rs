use push_gateway::number::{read_signed, read_unsigned, write_signed, write_unsigned};
use push_gateway::text::{
    holds, is_before, is_white_space, join, same_ignoring_ascii_case, strip_prefix, trim,
    trim_end_char,
};

#[test]
fn white_space_is_that_of_the_standard_library() {
    for c in '\u{0}'..=char::MAX {
        assert_eq!(is_white_space(c), c.is_whitespace(), "{:x}", c as u32);
    }
}

#[test]
fn trimming_is_that_of_the_standard_library() {
    for text in ["", " ", "a", " a b ", "\u{3000}é\u{a0}", "\n\t x", "x \u{200b}"] {
        assert_eq!(trim(text), text.trim());
        assert_eq!(trim_end_char(text, 'x'), text.trim_end_matches('x'));
        assert_eq!(strip_prefix(text, " a"), text.strip_prefix(" a"));
    }
    assert_eq!(trim_end_char("a///", '/'), "a");
}

#[test]
fn numbers_are_read_as_the_standard_library_does() {
    for text in [
        "0", "7", "+7", "-7", "007", "", "+", "-", "+-1", " 1", "1 ", "18446744073709551615",
        "18446744073709551616", "9223372036854775807", "9223372036854775808",
        "-9223372036854775808", "-9223372036854775809", "４", "1e3", "-0",
    ] {
        assert_eq!(read_unsigned(text, u64::MAX), text.parse::<u64>().ok(), "{text}");
        assert_eq!(read_signed(text), text.parse::<i64>().ok(), "{text}");
        let small = text.parse::<u32>().ok().map(u64::from);
        assert_eq!(read_unsigned(text, u32::MAX as u64), small, "{text}");
    }
    for number in [0, 9, 10, 1_234_567_890, u64::MAX] {
        assert_eq!(write_unsigned(number), format!("{number}"));
    }
    for number in [0, -1, i64::MIN, i64::MAX] {
        assert_eq!(write_signed(number), format!("{number}"));
        assert_eq!(read_signed(&write_signed(number)), Some(number));
    }
}

#[test]
fn texts_are_ordered_like_strings() {
    let texts = ["", "a", "ab", "b", "é", "z", "🦀", "aé"];
    for a in texts {
        for b in texts {
            assert_eq!(is_before(a, b), a < b, "{a} {b}");
            assert_eq!(same_ignoring_ascii_case(a, b), a.eq_ignore_ascii_case(b));
        }
    }
    assert!(same_ignoring_ascii_case("Daily", "dAILY"));
}

#[test]
fn lists_are_joined_and_searched() {
    let list = vec!["a".to_string(), "b".to_string(), String::new()];
    assert_eq!(join(&list, ", "), "a, b, ");
    assert_eq!(join(&Vec::new(), ", "), "");
    assert!(holds(&list, ""));
    assert!(!holds(&list, "c"));
}
