use push_gateway::chunk::split;

fn chars(text: &str, limit: usize) -> Vec<String> {
    split(text, limit, |_| 1)
}

#[test]
fn empty_input_yields_no_chunks() {
    assert!(chars("", 10).is_empty());
}

#[test]
fn short_text_stays_one_chunk() {
    assert_eq!(chars("hello world", 100), vec!["hello world".to_string()]);
}

#[test]
fn prefers_a_newline_boundary_over_a_hard_cut() {
    // With a mid-buffer newline the break lands after it instead of cutting the following line
    // mid-word.
    assert_eq!(chars("ab\ncdef", 4), vec!["ab\n".to_string(), "cdef".to_string()]);
    // Without a newline the same limit falls back to a hard cut.
    assert_eq!(chars("abcdef", 4), vec!["abcd".to_string(), "ef".to_string()]);
}

#[test]
fn falls_back_to_hard_split_without_newlines() {
    let chunks = chars(&"x".repeat(25), 10);
    assert_eq!(chunks.len(), 3);
    assert_eq!(chunks[0].chars().count(), 10);
    assert_eq!(chunks[2].chars().count(), 5);
}

#[test]
fn concatenation_always_equals_input_and_respects_limit() {
    let text = "alpha\nbeta gamma delta\n\nepsilon zeta\nlong_unbroken_token_that_exceeds";
    for limit in [3, 5, 8, 13, 21] {
        let chunks = chars(text, limit);
        assert_eq!(chunks.concat(), text, "limit {limit} lost content");
        assert!(
            chunks.iter().all(|chunk| chunk.chars().count() <= limit),
            "limit {limit} exceeded"
        );
    }
}

#[test]
fn measures_in_utf16_when_asked() {
    // An emoji is two UTF-16 units, so a limit of 2 fits exactly one.
    let chunks = split("😀😀😀", 2, |c| c.len_utf16());
    assert_eq!(chunks.len(), 3);
    assert!(chunks.iter().all(|chunk| chunk.encode_utf16().count() <= 2));
    assert_eq!(chunks.concat(), "😀😀😀");
}

#[test]
fn a_character_wider_than_the_limit_stands_alone() {
    assert_eq!(split("a😀b", 1, |c| c.len_utf16()), vec!["a", "😀", "b"]);
    assert_eq!(chars("ab", 0), vec!["a", "b"]);
}

#[test]
fn widths_near_the_largest_number_do_not_overflow() {
    assert_eq!(split("abc", usize::MAX, |_| usize::MAX), vec!["a", "b", "c"]);
}

#[test]
fn a_carried_line_that_cannot_grow_is_a_chunk_of_its_own() {
    assert_eq!(split("a\nbbb😀", 4, |c| if c == '😀' { 4 } else { 1 }), vec!["a\n", "bbb", "😀"]);
    assert_eq!(chars("one\ntwo\nthree", 9), vec!["one\ntwo\n", "three"]);
}
