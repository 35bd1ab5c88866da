use push_gateway::gateway::attachments::{MAX_ATTACH_BYTES, MAX_INBOUND_BYTES};
use push_gateway::gateway::files::{
    AttachAction, AttachEvent, Attaching, DownloadAction, DownloadEvent, Downloads,
};

fn names(list: &[&str]) -> Vec<String> {
    list.iter().map(|name| name.to_string()).collect()
}

fn parts(path: &str) -> Vec<Vec<u8>> {
    path.split('/').map(|part| part.as_bytes().to_vec()).collect()
}

fn show(action: &DownloadAction<String>) -> String {
    match action {
        DownloadAction::MakeInbox => "make".to_string(),
        DownloadAction::Download(index) => format!("download {index}"),
        DownloadAction::Write(name) => format!("write {name}"),
        DownloadAction::Finish(note) => format!("finish {note:?}"),
    }
}

#[test]
fn files_are_downloaded_and_noted() {
    let (mut downloads, first) =
        Downloads::begin(&names(&["../a.md", "..", "b.csv", "c.txt", "d.pdf"]));
    assert_eq!(show(&first), "make");
    let mut on = |event| {
        assert!(downloads.is_awaiting(&event));
        show(&downloads.step(event))
    };
    assert_eq!(on(DownloadEvent::InboxMade(true)), "download 0");
    assert_eq!(on(DownloadEvent::Downloaded(Some(5))), "write a.md");
    assert_eq!(on(DownloadEvent::Written(true)), "download 2");
    assert_eq!(on(DownloadEvent::Downloaded(None)), "download 3");
    assert_eq!(on(DownloadEvent::Downloaded(Some(MAX_INBOUND_BYTES + 1))), "download 4");
    assert_eq!(on(DownloadEvent::Downloaded(Some(MAX_INBOUND_BYTES))), "write d.pdf");
    assert_eq!(
        on(DownloadEvent::Written(false)),
        "finish \"The user attached the following file(s) in the working directory:\\n- inbox/a.md\""
    );
}

#[test]
fn no_folder_means_no_files() {
    let (mut downloads, _) = Downloads::begin(&names(&["a.md"]));
    assert_eq!(show(&downloads.step(DownloadEvent::InboxMade(false))), "finish \"\"");
    assert!(!downloads.is_awaiting(&DownloadEvent::InboxMade(true)));
    let (mut downloads, _) = Downloads::begin(&names(&[".."]));
    assert_eq!(show(&downloads.step(DownloadEvent::InboxMade(true))), "finish \"\"");
}

#[test]
fn attached_files_are_read_within_the_work_directory() {
    let (mut attaching, first) = Attaching::begin(names(&["out.md", "../out.md", "nope.md", "big", "empty", "odd", "gone"]));
    assert!(matches!(first, AttachAction::ResolveRoot));
    let mut on = |event: AttachEvent<Vec<Vec<u8>>, String, Vec<u8>>| {
        assert!(attaching.is_awaiting(&event));
        match attaching.step(event) {
            AttachAction::ResolveRoot => "root".to_string(),
            AttachAction::Resolve(name) => format!("resolve {name}"),
            AttachAction::Read => "read".to_string(),
            AttachAction::Finish => "finish".to_string(),
        }
    };
    let resolved = |path: &str, name: Option<&str>| AttachEvent::Resolved {
        parts: parts(path),
        filename: name.map(|name| name.to_string()),
    };
    assert_eq!(on(AttachEvent::RootResolved(Some(parts("/work")))), "resolve out.md");
    assert_eq!(on(resolved("/work/out.md", Some("out.md"))), "read");
    assert_eq!(on(AttachEvent::Read(Some(b"payload".to_vec()))), "resolve ../out.md");
    // A traversal path resolves outside the work dir and is rejected.
    assert_eq!(on(resolved("/out.md", Some("out.md"))), "resolve nope.md");
    // A missing file is skipped.
    assert_eq!(on(AttachEvent::Unresolved), "resolve big");
    assert_eq!(on(resolved("/work/big", Some("big"))), "read");
    assert_eq!(on(AttachEvent::Read(Some(vec![0; MAX_ATTACH_BYTES + 1]))), "resolve empty");
    assert_eq!(on(resolved("/work/empty", Some("empty"))), "read");
    assert_eq!(on(AttachEvent::Read(Some(Vec::new()))), "resolve odd");
    assert_eq!(on(resolved("/work/odd", None)), "read");
    assert_eq!(on(AttachEvent::Read(Some(b"x".to_vec()))), "resolve gone");
    assert_eq!(on(resolved("/work/gone", Some("gone"))), "read");
    assert_eq!(on(AttachEvent::Read(None)), "finish");
    assert_eq!(attaching.files.len(), 1);
    assert_eq!(attaching.files[0].filename, "out.md");
    assert_eq!(attaching.files[0].bytes, b"payload");
    let uploaded = attaching.upload().unwrap();
    assert_eq!(uploaded.len(), 1);
    assert_eq!(uploaded[0].filename, "out.md");
}

#[test]
fn without_a_work_directory_nothing_is_attached() {
    let (mut attaching, _) = Attaching::begin(names(&["out.md"]));
    assert!(matches!(attaching.step(AttachEvent::RootResolved(None)), AttachAction::Finish));
    assert!(attaching.files.is_empty());
    assert!(attaching.upload().is_none());
}
