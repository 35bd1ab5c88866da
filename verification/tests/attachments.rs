use push_gateway::gateway::attachments::{
    append_note, files_note, keep_outbound_file, parse_attach_markers, path_within, plan_downloads,
    sanitize_filename, strip_attach_markers, MAX_ATTACH_BYTES, MAX_INBOUND_FILES,
};

fn parts(path: &str) -> Vec<Vec<u8>> {
    path.split('/').map(|part| part.as_bytes().to_vec()).collect()
}

#[test]
fn parses_attach_markers_and_ignores_unclosed() {
    assert_eq!(
        parse_attach_markers("done [[attach: out.md]] and [[attach: dir/b.png ]]"),
        vec!["out.md".to_string(), "dir/b.png".to_string()]
    );
    assert_eq!(parse_attach_markers("no markers"), Vec::<String>::new());
    assert_eq!(parse_attach_markers("[[attach: unclosed"), Vec::<String>::new());
}

#[test]
fn strips_attach_markers_from_reply_text() {
    assert_eq!(
        strip_attach_markers("Here you go. [[attach: out.md]]"),
        "Here you go."
    );
    assert_eq!(strip_attach_markers("[[attach: only.md]]"), "");
    assert_eq!(strip_attach_markers("plain text"), "plain text");
}

#[test]
fn sanitize_filename_strips_paths_and_dot_names() {
    assert_eq!(sanitize_filename("../../etc/passwd").as_deref(), Some("passwd"));
    assert_eq!(sanitize_filename("dir/report.md").as_deref(), Some("report.md"));
    assert_eq!(sanitize_filename(".."), None);
    assert_eq!(sanitize_filename(""), None);
}

#[test]
fn an_unclosed_marker_swallows_the_rest_of_the_reply() {
    assert_eq!(strip_attach_markers("see [[attach: a.md"), "see");
    assert_eq!(
        strip_attach_markers("a [[attach: x]] b [[attach: y]] c"),
        "a  b  c"
    );
    assert_eq!(parse_attach_markers("[[attach:  ]]x[[attach:é]]"), vec!["é".to_string()]);
}

#[test]
fn a_base_name_is_the_one_of_the_standard_paths() {
    for name in [
        "a", "a/b", "a/b/", "a//b", "a/.", "a/./", "./a", ".", "./.", "..", "a/..", "/", "/a", "",
        "//", "a/b/.//", "..a", "a..", ".a", "ä/ö", "a/../b", "../..", "   ", "a\\b",
    ] {
        let expected = std::path::Path::new(name)
            .file_name()
            .and_then(|base| base.to_str())
            .map(|base| base.to_string());
        assert_eq!(sanitize_filename(name), expected, "{name:?}");
    }
}

#[test]
fn only_the_first_files_with_safe_names_are_planned() {
    let mut names: Vec<String> = (0..12).map(|i| format!("dir/f{i}.txt")).collect();
    names[3] = "..".to_string();
    let plan = plan_downloads(&names);
    assert_eq!(plan.len(), MAX_INBOUND_FILES - 1);
    assert_eq!(plan[2], (2, "f2.txt".to_string()));
    assert_eq!(plan[3], (4, "f4.txt".to_string()));
    assert_eq!(plan[8], (9, "f9.txt".to_string()));
}

#[test]
fn the_note_lists_what_was_stored() {
    assert_eq!(files_note(&Vec::new()), "");
    let note = files_note(&vec!["a.md".to_string(), "b.csv".to_string()]);
    assert_eq!(
        note,
        "The user attached the following file(s) in the working directory:\n- inbox/a.md\n- inbox/b.csv"
    );
    assert_eq!(append_note("hi", ""), "hi");
    assert_eq!(append_note("  ", "note"), "note");
    assert_eq!(append_note("hi", "note"), "hi\n\nnote");
}

#[test]
fn a_path_outside_the_work_directory_is_refused() {
    let root = parts("/srv/work");
    assert!(path_within(&root, &parts("/srv/work/out.md")));
    assert!(path_within(&root, &parts("/srv/work")));
    assert!(!path_within(&root, &parts("/srv/out.md")));
    assert!(!path_within(&root, &parts("/srv/workshop/out.md")));
    assert!(!path_within(&root, &parts("/srv")));
}

#[test]
fn empty_and_oversized_files_are_not_attached() {
    let name = || Some("out.md".to_string());
    assert!(keep_outbound_file(name(), Vec::new()).is_none());
    assert!(keep_outbound_file(name(), vec![0; MAX_ATTACH_BYTES + 1]).is_none());
    assert!(keep_outbound_file(None, b"payload".to_vec()).is_none());
    assert!(keep_outbound_file(name(), vec![0; MAX_ATTACH_BYTES]).is_some());
    let file = keep_outbound_file(name(), b"payload".to_vec()).unwrap();
    assert_eq!(file.filename, "out.md");
    assert_eq!(file.bytes, b"payload");
}
