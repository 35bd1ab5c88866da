use push_gateway::mattermost::event::{AttachedFile, Event};
use push_gateway::mattermost::inbox::{Inbox, InboxRow, Thread, MAX_ACTIVE_THREADS};
use push_gateway::mattermost::target::parse_message_target;

type Files = Vec<AttachedFile<String>>;

fn event(id: &str, text: &str) -> Event<String, Files> {
    Event {
        event_id: id.to_string(),
        channel_type: "D".to_string(),
        channel: "D1".to_string(),
        user: "U1".to_string(),
        text: text.to_string(),
        root: id.to_string(),
        files: Vec::new(),
        is_mention: false,
        is_from_me: false,
        is_supported: true,
    }
}

fn row(id: i64, event_id: &str) -> InboxRow<String, Files> {
    InboxRow {
        id,
        event_id: event_id.to_string(),
        channel: "D1".to_string(),
        user: "U1".to_string(),
        text: String::new(),
        root: event_id.to_string(),
        channel_type: "D".to_string(),
        files: Vec::new(),
        is_from_me: false,
        is_supported: true,
    }
}

#[test]
fn active_thread_is_marked_on_send_and_read_back() {
    let mut inbox = Inbox::new();
    assert!(!inbox.is_active_thread("C1", "root1"));
    assert!(!inbox.is_active_thread("C1", ""));
    inbox.mark_active_thread("C1", "root1");
    assert!(inbox.is_active_thread("C1", "root1"));
    assert!(!inbox.is_active_thread("C1", "root2"));
}

#[test]
fn active_threads_are_pruned_to_the_cap() {
    let mut inbox = Inbox::new();
    let total = MAX_ACTIVE_THREADS + 5;
    for i in 0..total {
        inbox.mark_active_thread("C1", &format!("r{i}"));
    }
    assert_eq!(inbox.threads.len(), MAX_ACTIVE_THREADS);
    // The oldest thread was evicted; the newest is retained.
    assert!(!inbox.is_active_thread("C1", "r0"));
    assert!(inbox.is_active_thread("C1", &format!("r{}", total - 1)));
}

#[test]
fn inbox_deduplicates_post_ids_and_recovers_rows() {
    let mut inbox = Inbox::new();
    let event = event("p1", "hello");
    assert_eq!(inbox.insert(&event), Some(1));
    assert_eq!(inbox.insert(&event), Some(1));

    let inbox = Inbox::restore(inbox.rows, inbox.threads).unwrap();
    let rows = inbox.after(0);
    assert_eq!(rows.len(), 1);
    assert_eq!(rows[0].event_id(), "mattermost:p1");
    assert_eq!(rows[0].chat_identifier, "D|D1|p1");
    assert_eq!(inbox.latest_cursor(), 1);
}

#[test]
fn a_second_event_of_a_post_changes_nothing() {
    let mut inbox = Inbox::new();
    inbox.insert(&event("p1", "hello"));
    inbox.insert(&event("p2", "there"));
    assert_eq!(inbox.insert(&event("p1", "edited")), Some(1));
    assert_eq!(inbox.after(0)[0].text, "hello");
    assert_eq!(inbox.after(0).len(), 2);
}

#[test]
fn rows_are_read_after_a_cursor_in_order() {
    let mut inbox = Inbox::new();
    assert_eq!(inbox.latest_cursor(), 0);
    for i in 1..=4 {
        assert_eq!(inbox.insert(&event(&format!("p{i}"), "hi")), Some(i));
    }
    let ids: Vec<i64> = inbox.after(2).iter().map(|message| message.row_id).collect();
    assert_eq!(ids, vec![3, 4]);
    assert!(inbox.after(inbox.latest_cursor()).is_empty());
    assert_eq!(inbox.after(-7).len(), 4);
}

#[test]
fn a_message_tells_what_its_row_holds() {
    let mut inbox = Inbox::new();
    let mut attached = event("p1", "hi");
    attached.files.push(AttachedFile {
        id: "f1".to_string(),
        filename: "a.md".to_string(),
    });
    attached.is_from_me = true;
    attached.is_supported = false;
    inbox.insert(&attached);
    let message = &inbox.after(0)[0];
    assert_eq!(message.provider_event_id.as_deref(), Some("p1"));
    assert_eq!(message.channel, "mattermost");
    assert_eq!(message.handle, "U1");
    assert_eq!(parse_message_target(&message.chat_identifier), Some(("D", "D1", "p1")));
    assert!(!message.is_group && message.is_from_me && !message.is_supported);
    assert_eq!(message.files[0].id, "f1");
    assert!(message.voice.is_none() && message.thread_id.is_none());
}

#[test]
fn stored_rows_must_be_an_inbox() {
    let restore = |rows| Inbox::restore(rows, Vec::new());
    assert!(restore(Vec::new()).is_some());
    assert!(restore(vec![row(2, "a"), row(9, "b")]).is_some());
    assert!(restore(vec![row(2, "a"), row(2, "b")]).is_none());
    assert!(restore(vec![row(2, "a"), row(1, "b")]).is_none());
    assert!(restore(vec![row(1, "a"), row(2, "a")]).is_none());
    assert!(restore(vec![row(0, "a")]).is_none());
    let mut inbox = restore(vec![row(2, "a"), row(9, "b")]).unwrap();
    assert_eq!(inbox.insert(&event("c", "hi")), Some(10));
}

#[test]
fn an_inbox_without_ids_takes_nothing_new() {
    let mut inbox = Inbox::restore(vec![row(i64::MAX, "a")], Vec::new()).unwrap();
    assert_eq!(inbox.insert(&event("b", "hi")), None);
    assert_eq!(inbox.insert(&event("a", "hi")), Some(i64::MAX));
    assert_eq!(inbox.rows.len(), 1);
}

#[test]
fn marking_a_thread_again_does_not_renew_it() {
    let mut inbox = Inbox::new();
    for i in 0..MAX_ACTIVE_THREADS {
        inbox.mark_active_thread("C1", &format!("r{i}"));
    }
    inbox.mark_active_thread("C1", "r0");
    inbox.mark_active_thread("C1", "new");
    assert!(!inbox.is_active_thread("C1", "r0"));
    assert!(inbox.is_active_thread("C1", "r1"));
    inbox.mark_active_thread("C1", "");
    assert_eq!(inbox.threads.len(), MAX_ACTIVE_THREADS);
}

#[test]
fn too_many_stored_threads_are_pruned_at_the_next_mark() {
    let threads = (0..MAX_ACTIVE_THREADS + 9)
        .map(|i| Thread { channel: "C1".to_string(), root: format!("r{i}") })
        .collect();
    let mut inbox = Inbox::restore(Vec::new(), threads).unwrap();
    assert!(inbox.is_active_thread("C1", "r0"));
    inbox.mark_active_thread("C2", "r0");
    assert_eq!(inbox.threads.len(), MAX_ACTIVE_THREADS);
    assert!(!inbox.is_active_thread("C1", "r9"));
    assert!(inbox.is_active_thread("C1", "r10"));
    assert!(inbox.is_active_thread("C2", "r0"));
}
