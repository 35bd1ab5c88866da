use push_gateway::mattermost::posts::{split_text, MAX_TEXT_CHARS};
use push_gateway::mattermost::target::{
    parse_message_target, parse_reply_target, reply_target_post_id,
};

#[test]
fn chunks_unicode_without_splitting_characters() {
    let text = "🦀".repeat(MAX_TEXT_CHARS + 1);
    let chunks = split_text(&text);
    assert_eq!(chunks.len(), 2);
    assert_eq!(chunks[0].chars().count(), MAX_TEXT_CHARS);
    assert_eq!(chunks[1], "🦀");
}

#[test]
fn a_text_that_fits_is_one_post_and_an_empty_one_is_none() {
    assert_eq!(split_text("hello"), vec!["hello"]);
    assert!(split_text("").is_empty());
    assert_eq!(split_text(&"x".repeat(MAX_TEXT_CHARS)).len(), 1);
    let long = "ab".repeat(MAX_TEXT_CHARS);
    assert_eq!(split_text(&long).concat(), long);
}

#[test]
fn parses_message_and_reply_targets() {
    assert_eq!(parse_message_target("D|D1|root1"), Some(("D", "D1", "root1")));
    assert_eq!(parse_message_target("O|C1|p2"), Some(("O", "C1", "p2")));
    assert_eq!(parse_message_target("D1|root1"), None);
    assert_eq!(parse_message_target("D|D1|"), None);
    assert_eq!(parse_reply_target("D1|root1"), Some(("D1", "root1")));
    assert_eq!(parse_reply_target("D1|"), None);
    // A channel reply target carries a trailing post id, ignored for replies.
    assert_eq!(parse_reply_target("C1|root1|p9"), Some(("C1", "root1")));
    assert_eq!(reply_target_post_id("C1|root1|p9"), Some("p9"));
    assert_eq!(reply_target_post_id("D1|root1"), None);
    assert_eq!(reply_target_post_id("C1|root1|"), None);
}

#[test]
fn a_third_bar_stays_in_the_last_part() {
    assert_eq!(parse_message_target("D|D1|a|b"), Some(("D", "D1", "a|b")));
    assert_eq!(reply_target_post_id("C1|r|p|q"), Some("p|q"));
    assert_eq!(parse_message_target("|D1|r"), None);
    assert_eq!(parse_reply_target("plain"), None);
}

#[test]
fn posts_one_after_the_other_are_the_text() {
    let text = "aé🦀\n".repeat(MAX_TEXT_CHARS);
    let posts = split_text(&text);
    assert_eq!(posts.concat(), text);
    assert_eq!(posts.len(), 4);
    assert!(posts.iter().all(|post| post.chars().count() == MAX_TEXT_CHARS));
}
