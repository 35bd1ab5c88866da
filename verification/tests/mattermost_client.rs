use push_gateway::mattermost::client::{
    direct_members, direct_post, reaction_path, Destination, Mattermost, NewPost, PollStep,
    SendStep, DONE_EMOJI, FAILED_EMOJI,
};
use push_gateway::mattermost::event::{
    parse_event, AttachedFile, Event, Identity, Post, PostedData,
};
use push_gateway::mattermost::inbox::RawMessage;
use push_gateway::mattermost::target::{parse_reply_target, reply_target_post_id};
use push_gateway::mattermost::thread::{accept, answer_target, thread_key};
use push_gateway::mattermost::url::{api_url, websocket_url};

type Files = Vec<AttachedFile<String>>;

fn mattermost() -> Mattermost {
    Mattermost::new(
        " http://unused/ ".to_string(),
        "token".to_string(),
        vec![" U1 ".to_string()],
        "/var/push/state",
    )
}

fn identity() -> Identity<String> {
    Identity {
        user_id: "UBOT".to_string(),
        username: "push".to_string(),
    }
}

fn posted(
    channel_type: &str,
    channel: &str,
    id: &str,
    user: &str,
    message: &str,
    root: &str,
    mentions: Option<&str>,
) -> Option<PostedData<String, Files>> {
    Some(PostedData {
        channel_type: Some(channel_type.to_string()),
        post: Some(Post {
            id: id.to_string(),
            channel_id: channel.to_string(),
            user_id: user.to_string(),
            message: message.to_string(),
            root_id: root.to_string(),
            kind: String::new(),
            files: Vec::new(),
        }),
        mentions: mentions.map(|raw| raw.to_string()),
    })
}

fn row(event: &Event<String, Files>) -> RawMessage<String, Files> {
    RawMessage {
        row_id: 1,
        provider_event_id: Some(event.event_id.clone()),
        channel: "mattermost",
        handle: event.user.clone(),
        chat_identifier: format!("{}|{}|{}", event.channel_type, event.channel, event.root),
        is_group: false,
        text: event.text.clone(),
        voice: None,
        files: Vec::new(),
        is_from_me: event.is_from_me,
        is_supported: event.is_supported,
        thread_id: None,
    }
}

fn name(event: &str) -> Option<String> {
    Some(event.to_string())
}

#[test]
fn websocket_url_swaps_scheme_and_appends_realtime_path() {
    assert_eq!(
        websocket_url("https://mm.example.com"),
        "wss://mm.example.com/api/v4/websocket"
    );
    assert_eq!(
        websocket_url("http://127.0.0.1:8065/"),
        "ws://127.0.0.1:8065/api/v4/websocket"
    );
}

#[test]
fn channel_and_dm_posts_key_and_target_distinctly() {
    let mm = Mattermost::new(
        "http://unused".to_string(),
        "token".to_string(),
        vec!["U1".to_string()],
        "mattermost-accept",
    );
    let data = posted("D", "D1", "p1", "U1", "hi", "", None).unwrap();
    let mut dm = parse_event(&data, &identity()).unwrap();
    dm.text = "hi".to_string();
    let dm_row = row(&dm);
    assert_eq!(
        mm.accept(&dm_row),
        Some(("mattermost:dm:D1".to_string(), "D1|p1".to_string()))
    );

    let data = posted("O", "C1", "p2", "U1", "@push hi", "", Some("[\"UBOT\"]")).unwrap();
    let ch = parse_event(&data, &identity()).unwrap();
    let ch_row = row(&ch);
    assert_eq!(
        mm.accept(&ch_row),
        Some(("mattermost:ch:C1:p2".to_string(), "C1|p2|p2".to_string()))
    );
}

#[test]
fn resolve_target_handles_channel_reply_and_user_forms() {
    let mm = mattermost();
    // Channel delivery: top-level post, no thread root.
    match mm.resolve_target("channel:C1").unwrap() {
        Destination::Channel(channel) => assert_eq!(channel, "C1"),
        other => panic!("{other:?}"),
    }
    // Thread reply target keeps its root.
    match mm.resolve_target("C1|root1").unwrap() {
        Destination::Thread { channel, root } => {
            assert_eq!((channel.as_str(), root.as_str()), ("C1", "root1"));
        }
        other => panic!("{other:?}"),
    }
    assert!(mm.resolve_target("channel:").is_err());
    // A non-allowlisted user DM is refused before any network call.
    assert!(mm.resolve_target("user:U2").is_err());
}

#[test]
fn typing_sends_user_typing_frame_on_the_split_writer() {
    let mut mm = mattermost();
    let frame = mm.send_typing("D1|root1").unwrap();
    assert_eq!(frame.channel_id, "D1");
    assert_eq!(frame.parent_id, "root1");
    assert_eq!(frame.seq, 2);
    assert_eq!(mm.send_typing("D1|root1").unwrap().seq, 3);
}

#[test]
fn only_a_reply_target_gets_a_frame_and_only_a_post_a_reaction() {
    let mut mm = mattermost();
    assert!(mm.send_typing("user:U1").is_none());
    assert_eq!(mm.seq, 2);
    assert!(mm.send_typing("D1|root1").is_some());
    assert_eq!(mm.seq, 3);
    assert!(mm.react_working("D1|root1").is_none());
}

#[test]
fn channel_target_reacts_to_the_triggering_post_once() {
    let mut mm = mattermost();
    assert_eq!(mm.react_working("C1|root1|p9").as_deref(), Some("p9"));
    // A reaction that was not posted is asked for again.
    assert_eq!(mm.react_working("C1|root1|p9").as_deref(), Some("p9"));
    mm.reaction_added("p9");
    assert_eq!(mm.react_working("C1|root1|p9"), None);
    assert_eq!(mm.react_working("C1|root1|p8").as_deref(), Some("p8"));
    assert_eq!(mm.react_working("C1||p9"), None);
}

#[test]
fn finish_swaps_working_reaction_for_a_done_reaction() {
    let mut mm = mattermost();
    mm.reaction_added("p9");
    let (post_id, emoji) = mm.finish_working("C1|root1|p9", true).unwrap();
    assert_eq!((post_id.as_str(), emoji), ("p9", DONE_EMOJI));
    assert_eq!(mm.finish_working("C1|root1|p9", false).unwrap().1, FAILED_EMOJI);
    // A DM/scheduled target with no post id makes no request.
    assert!(mm.finish_working("C1|root1", true).is_none());
    assert_eq!(
        reaction_path("UBOT", &post_id),
        "/api/v4/users/UBOT/posts/p9/reactions/hourglass_flowing_sand"
    );
    mm.reaction_swapped(&post_id);
    assert_eq!(mm.react_working("C1|root1|p9").as_deref(), Some("p9"));
}

#[test]
fn a_channel_is_set_up_from_its_configuration() {
    let mm = mattermost();
    assert_eq!(mm.base_url, "http://unused");
    assert_eq!(mm.websocket_url, "ws://unused/api/v4/websocket");
    assert_eq!(mm.inbox_path, "/var/push/state.mattermost-inbox.db");
    assert_eq!(mm.token, "token");
    assert!(mm.allows_user("U1 "));
    assert!(!mm.allows_user("u1"));
    assert_eq!(api_url(&mm.base_url, "/api/v4/posts"), "http://unused/api/v4/posts");
    assert_eq!(websocket_url("mm.example.com//"), "mm.example.com/api/v4/websocket");
}

#[test]
fn messages_are_sent_where_their_target_leads() {
    let mm = mattermost();
    match mm.send_message("C1|root1|p9", "hi").unwrap() {
        SendStep::Post(post) => {
            assert_eq!((post.channel_id.as_str(), post.message.as_str()), ("C1", "hi"));
            assert_eq!(post.root.as_deref(), Some("root1"));
        }
        other => panic!("{other:?}"),
    }
    match mm.send_message("channel: C1 ", "hi").unwrap() {
        SendStep::Post(post) => {
            assert_eq!(post.channel_id, "C1");
            assert!(post.root.is_none());
        }
        other => panic!("{other:?}"),
    }
    match mm.send_message("user: U1", "hi").unwrap() {
        SendStep::OpenDirect(user) => assert_eq!(user, "U1"),
        other => panic!("{other:?}"),
    }
    let refused = |target: &str| mm.send_message(target, "hi").unwrap_err();
    assert_eq!(refused("channel:  "), "invalid Mattermost channel target");
    assert_eq!(refused("user:U2"), "Mattermost delivery user is not allowlisted");
    assert_eq!(refused("U1"), "invalid Mattermost delivery target");
}

#[test]
fn direct_messages_are_opened_by_both_members() {
    let (bot, user) = direct_members(&identity(), " U1 ");
    assert_eq!((bot.as_str(), user.as_str()), ("UBOT", "U1"));
    let post = direct_post(Some("D7".to_string()), "hi").unwrap();
    assert_eq!((post.channel_id.as_str(), post.message.as_str()), ("D7", "hi"));
    assert!(post.root.is_none());
    assert_eq!(direct_post(None, "hi").unwrap_err(), "Mattermost channels/direct omitted id");
}

#[test]
fn a_reply_makes_later_posts_of_its_thread_welcome() {
    let mut mm = mattermost();
    let follow_up = |id| posted("O", "C1", id, "U1", "and now?", "root1", None);
    assert_eq!(mm.handle_event(&name("posted"), &follow_up("p2"), &identity()), Ok(true));
    mm.message_sent(&NewPost {
        channel_id: "C1".to_string(),
        message: "hi".to_string(),
        root: Some("root1".to_string()),
    });
    assert_eq!(mm.handle_event(&name("posted"), &follow_up("p3"), &identity()), Ok(true));
    let texts: Vec<String> = mm.inbox.after(0).into_iter().map(|message| message.text).collect();
    assert_eq!(texts, vec!["".to_string(), "and now?".to_string()]);
    mm.message_sent(&NewPost { channel_id: "C9".to_string(), message: "hi".to_string(), root: None });
    assert_eq!(mm.inbox.threads.len(), 1);
}

#[test]
fn events_that_are_no_posts_are_ignored() {
    let mut mm = mattermost();
    let data = posted("D", "D1", "p1", "U1", "hi", "", None);
    assert_eq!(mm.handle_event(&name("typing"), &data, &identity()), Ok(false));
    assert_eq!(mm.handle_event(&None, &data, &identity()), Ok(false));
    assert_eq!(mm.handle_event(&name("posted"), &None, &identity()), Ok(false));
    let unread = Some(PostedData { channel_type: None, post: None, mentions: None });
    assert_eq!(mm.handle_event(&name("posted"), &unread, &identity()), Ok(false));
    assert_eq!(mm.latest_cursor(), 0);
    assert_eq!(mm.handle_event(&name("posted"), &data, &identity()), Ok(true));
    assert_eq!(mm.latest_cursor(), 1);
}

#[test]
fn ignored_posts_leave_no_content() {
    let mut mm = mattermost();
    for data in [
        posted("D", "D1", "p1", "U2", "secret", "", None),
        posted("D", "D1", "p2", "UBOT", "secret", "", None),
        posted("O", "C1", "p3", "U1", "secret", "", Some("[\"U2\"]")),
    ] {
        assert_eq!(mm.handle_event(&name("posted"), &data, &identity()), Ok(true));
    }
    let messages = mm.inbox.after(0);
    assert_eq!(messages.len(), 3);
    assert!(messages.iter().all(|message| message.text.is_empty()));
    assert!(messages.iter().all(|message| mm.accept(message).is_none()));
}

#[test]
fn polling_gives_messages_then_the_failure_then_waits() {
    let mut mm = mattermost();
    assert!(matches!(mm.poll(0), PollStep::Wait));
    mm.last_error = Some("closed".to_string());
    mm.handle_event(&name("posted"), &posted("D", "D1", "p1", "U1", "hi", "", None), &identity())
        .unwrap();
    match mm.poll(0) {
        PollStep::Messages(messages) => assert_eq!(messages[0].text, "hi"),
        other => panic!("{other:?}"),
    }
    match mm.poll(1) {
        PollStep::Failed(error) => assert_eq!(error, "closed"),
        other => panic!("{other:?}"),
    }
    assert!(matches!(mm.poll(1), PollStep::Wait));
}

#[test]
fn the_bot_learns_who_it_is() {
    let mut mm = mattermost();
    assert_eq!(
        mm.learn_identity(None, Some("push".to_string())),
        Err("Mattermost users/me omitted id")
    );
    assert!(mm.identity.is_none());
    assert_eq!(mm.learn_identity(Some("UBOT".to_string()), None), Ok(()));
    let known = mm.identity.as_ref().unwrap();
    assert_eq!((known.user_id.as_str(), known.username.as_str()), ("UBOT", ""));
}

#[test]
fn frame_numbers_wrap() {
    let mut mm = mattermost();
    mm.seq = u64::MAX;
    assert_eq!(mm.send_typing("D1|root1").unwrap().seq, u64::MAX);
    assert_eq!(mm.send_typing("D1|root1").unwrap().seq, 0);
}

#[test]
fn named_bots_have_their_own_keys() {
    assert_eq!(thread_key("mattermost:work", "D", "D1", "p1"), "mattermost:work:dm:D1");
    assert_eq!(thread_key("mattermost", "P", "C1", "r1"), "mattermost:ch:C1:r1");
    let data = posted("D", "D1", "p1", "U1", "hi", "", None).unwrap();
    let event = parse_event(&data, &identity()).unwrap();
    let mut message = row(&event);
    assert!(accept("mattermost", &message, false).is_none());
    assert!(accept("mattermost", &message, true).is_some());
    message.text = "  ".to_string();
    assert!(accept("mattermost", &message, true).is_none());
    message.files.push(AttachedFile { id: "f".to_string(), filename: "a.md".to_string() });
    assert!(accept("mattermost", &message, true).is_some());
    message.is_from_me = true;
    assert!(accept("mattermost", &message, true).is_none());
}

#[test]
fn a_reply_target_leads_back_to_its_thread() {
    let target = answer_target("P", "C1", "r1", "p9");
    assert_eq!(parse_reply_target(&target), Some(("C1", "r1")));
    assert_eq!(reply_target_post_id(&target), Some("p9"));
    let target = answer_target("D", "D1", "r1", "p9");
    assert_eq!(parse_reply_target(&target), Some(("D1", "r1")));
    assert_eq!(reply_target_post_id(&target), None);
    assert_ne!(thread_key("m", "D", "C1", "r1"), thread_key("m", "O", "C1", "r1"));
    let bots = ["mattermost", "mattermost:work", "mattermost:privat", "mattermost:dm"];
    for (i, a) in bots.iter().enumerate() {
        for (j, b) in bots.iter().enumerate() {
            for (type_a, type_b) in [("D", "D"), ("D", "O"), ("O", "D"), ("O", "O")] {
                let shared = thread_key(a, type_a, "C1", "r1") == thread_key(b, type_b, "C1", "r1");
                assert_eq!(shared, i == j && type_a == type_b, "{a} {b}");
            }
        }
    }
    assert_eq!(thread_key("m", "D", "C1", "r1"), thread_key("m", "D", "C1", "r2"));
}

#[test]
fn slashes_behind_the_server_do_not_matter() {
    for base in ["https://mm.example.com", "http://h", "h"] {
        assert_eq!(websocket_url(base), websocket_url(&format!("{base}//")));
    }
}
