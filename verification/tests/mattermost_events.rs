use push_gateway::mattermost::event::{
    listed_files, parse_event, parse_event_given, screen, strip_mention, AttachedFile, Event,
    Identity, Post, PostedData,
};

type Files = Vec<AttachedFile<String>>;

fn identity() -> Identity<String> {
    Identity {
        user_id: "UBOT".to_string(),
        username: "push".to_string(),
    }
}

fn data(post: Post<String, Files>, channel_type: &str) -> PostedData<String, Files> {
    PostedData {
        channel_type: Some(channel_type.to_string()),
        post: Some(post),
        mentions: None,
    }
}

fn data_mention(
    post: Post<String, Files>,
    channel_type: &str,
    mentions: &[&str],
) -> PostedData<String, Files> {
    PostedData {
        channel_type: Some(channel_type.to_string()),
        post: Some(post),
        mentions: Some(serde_json::to_string(mentions).unwrap()),
    }
}

fn post(id: &str, user: &str, message: &str, root: &str, kind: &str) -> Post<String, Files> {
    post_in("D1", id, user, message, root, kind)
}

fn post_in(
    channel: &str,
    id: &str,
    user: &str,
    message: &str,
    root: &str,
    kind: &str,
) -> Post<String, Files> {
    Post {
        id: id.to_string(),
        channel_id: channel.to_string(),
        user_id: user.to_string(),
        message: message.to_string(),
        root_id: root.to_string(),
        kind: kind.to_string(),
        files: Vec::new(),
    }
}

fn file(name: &str) -> AttachedFile<String> {
    AttachedFile {
        id: format!("id-{name}"),
        filename: name.to_string(),
    }
}

#[test]
fn parses_post_fields_channel_type_and_origin() {
    let event = parse_event(&data(post("p1", "U1", "hello", "", ""), "D"), &identity()).unwrap();
    assert!(event.is_supported);
    assert!(!event.is_from_me);
    assert!(!event.is_mention);
    assert_eq!(event.channel_type, "D");
    assert_eq!(event.root, "p1");

    // Bot posts, system posts, and empty text are unsupported or self.
    assert!(parse_event(&data(post("p4", "UBOT", "hi", "", ""), "D"), &identity())
        .unwrap()
        .is_from_me);
    assert!(!parse_event(
        &data(post("p5", "U1", "joined", "", "system_join_channel"), "O"),
        &identity()
    )
    .unwrap()
    .is_supported);
    assert!(!parse_event(&data(post("p6", "U1", "  ", "", ""), "P"), &identity())
        .unwrap()
        .is_supported);
}

#[test]
fn detects_bot_mention_in_channel_post() {
    let mentioned = parse_event(
        &data_mention(post_in("C1", "p8", "U1", "@push hi", "", ""), "O", &["UBOT"]),
        &identity(),
    )
    .unwrap();
    assert!(mentioned.is_mention);
    assert_eq!(mentioned.channel_type, "O");
    // The bot's own @mention is stripped from the prompt text.
    assert_eq!(mentioned.text, "hi");

    let others = parse_event(
        &data_mention(post_in("C1", "p9", "U1", "@someone hi", "", ""), "O", &["U2"]),
        &identity(),
    )
    .unwrap();
    assert!(!others.is_mention);
}

#[test]
fn strips_bot_mention_and_rejects_mention_only_posts() {
    assert_eq!(strip_mention("@push do the thing", "push"), "do the thing");
    assert_eq!(strip_mention("hey @push now", "push"), "hey  now");
    assert_eq!(strip_mention("no mention", "push"), "no mention");
    assert_eq!(strip_mention("@push", "push"), "");
    assert_eq!(strip_mention("@push", ""), "@push");

    // A bare @mention with no request is empty after stripping, so it is
    // treated as unsupported instead of an empty agent prompt.
    let bare = parse_event(
        &data_mention(post_in("C1", "p10", "U1", "@push", "", ""), "O", &["UBOT"]),
        &identity(),
    )
    .unwrap();
    assert!(!bare.is_supported);
}

#[test]
fn threaded_reply_keeps_root_post_id() {
    let event = parse_event(
        &data(post("p7", "U1", "reply", "root1", ""), "D"),
        &identity(),
    )
    .unwrap();
    assert_eq!(event.root, "root1");
}

#[test]
fn only_the_own_handle_is_taken_out() {
    for text in [
        "@pusher hi",
        "@pushy",
        "@push-er",
        "@push_er",
        "@push.er",
        "@push2",
        "@Push",
        "push @ push",
        "@ push",
    ] {
        assert_eq!(strip_mention(text, "push"), text, "{text}");
    }
    for (text, left) in [
        ("@push@push", ""),
        ("@pu@push sh x", "@pu sh x"),
        ("a @push\n@push b", "a \n b"),
        ("@push.", "."),
        ("@push, hi", ", hi"),
        ("thanks @push.", "thanks ."),
        ("@push. Then go", ". Then go"),
        ("@push: @pusher said so", ": @pusher said so"),
        ("@push..er", "..er"),
        ("@pusher and @push", "@pusher and"),
        ("@push\u{e9}", "\u{e9}"),
    ] {
        assert_eq!(strip_mention(text, "push"), left, "{text}");
    }
    assert_eq!(strip_mention("@a.b hi @a.b.c", "a.b"), "hi @a.b.c");
}

#[test]
fn mentions_are_read_as_json() {
    let mention = |raw: Option<&str>| {
        let mut data = data(post("p1", "U1", "hi", "", ""), "O");
        data.mentions = raw.map(|raw| raw.to_string());
        parse_event(&data, &identity()).unwrap().is_mention
    };
    assert!(mention(Some("[\"UBOT\"]")));
    assert!(mention(Some(" [\"U1\", \"\\u0055BOT\"] ")));
    assert!(!mention(Some("[\"UBOT2\"]")));
    assert!(!mention(Some("[]")));
    assert!(!mention(Some("\"UBOT\"")));
    assert!(!mention(Some("[\"UBOT\", 1]")));
    assert!(!mention(Some("")));
    assert!(!mention(None));
}

#[test]
fn the_mentioned_users_can_be_given() {
    let data = data(post("p1", "U1", "hi", "", ""), "O");
    let given = |list: Option<Vec<String>>| {
        parse_event_given(&data, &identity(), &list).unwrap().is_mention
    };
    assert!(given(Some(vec!["U2".to_string(), "UBOT".to_string()])));
    assert!(!given(Some(vec!["U2".to_string()])));
    assert!(!given(None));
}

#[test]
fn an_event_needs_a_post_and_defaults_its_channel_type() {
    let empty = PostedData { channel_type: None, post: None, mentions: None };
    assert!(parse_event(&empty, &identity()).is_none());
    let bare = PostedData {
        channel_type: None,
        post: Some(post("p1", "U1", "hi", "", "")),
        mentions: None,
    };
    assert_eq!(parse_event(&bare, &identity()).unwrap().channel_type, "");
}

#[test]
fn posts_without_a_place_or_an_author_are_unsupported() {
    let supported = |post| parse_event(&data(post, "D"), &identity()).unwrap().is_supported;
    assert!(supported(post_in("C1", "p1", "U1", "hi", "", "")));
    assert!(!supported(post_in("", "p1", "U1", "hi", "", "")));
    assert!(!supported(post_in("C1", "p1", "", "hi", "", "")));
    assert!(!supported(post_in("C1", "", "U1", "hi", "", "")));
    assert!(supported(post_in("C1", "", "U1", "hi", "root", "")));
}

#[test]
fn a_post_with_only_a_file_is_supported() {
    let mut attached = post("p1", "U1", "", "", "");
    attached.files.push(file("report.md"));
    let event = parse_event(&data(attached, "D"), &identity()).unwrap();
    assert!(event.is_supported);
    assert_eq!(event.files.len(), 1);
    assert_eq!(event.files[0].filename, "report.md");
}

#[test]
fn only_files_on_the_allow_list_are_kept() {
    let files = vec![
        file("a.md"),
        file("b.exe"),
        file("c.CSV"),
        file("md"),
        file("d.tar.MD"),
        file(".md"),
        file("e.md5"),
        file("f."),
        file("g.toml"),
        file("h.pdf"),
        file("i.zip"),
        file("j.jpeg"),
    ];
    let kept: Vec<String> = listed_files(&files).into_iter().map(|file| file.id).collect();
    assert_eq!(
        kept,
        vec!["id-a.md", "id-c.CSV", "id-d.tar.MD", "id-.md", "id-g.toml", "id-h.pdf", "id-j.jpeg"]
    );
}

#[test]
fn posts_are_screened() {
    let event = |channel_type: &str, is_mention, is_from_me, is_supported| Event {
        event_id: "p1".to_string(),
        channel_type: channel_type.to_string(),
        channel: "C1".to_string(),
        user: "U1".to_string(),
        text: "secret".to_string(),
        root: "p1".to_string(),
        files: vec![file("a.md")],
        is_mention,
        is_from_me,
        is_supported,
    };
    // A direct message, a mention and an active thread are each enough.
    for (channel_type, mention, active) in [("D", false, false), ("O", true, false), ("G", false, true)] {
        let mut event = event(channel_type, mention, false, true);
        assert!(screen(&mut event, active, true));
        assert_eq!((event.text.as_str(), event.files.len()), ("secret", 1));
    }
    for (mut event, active, allowed) in [
        (event("O", false, false, true), false, true),
        (event("D", true, true, true), true, true),
        (event("D", true, false, false), true, true),
        (event("D", true, false, true), true, false),
    ] {
        assert!(!screen(&mut event, active, allowed));
        assert_eq!((event.text.as_str(), event.files.len()), ("", 0));
        assert_eq!(event.event_id, "p1");
    }
}
