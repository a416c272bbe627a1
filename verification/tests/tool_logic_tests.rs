use barqcoder::tools::barq_search::{filter_by_lang, BarqResult};
use barqcoder::tools::cargo_check::classify_cargo_output;
use barqcoder::tools::file_ops::{create_file_decision, filter_entries, slice_content, FileEntry, FileError};
use barqcoder::tools::workspace::{base_name, parse_action, WorkspaceAction, WorkspaceError, WorkspaceManager};

#[test]
fn test_classify_cargo_output() {
    let lines = vec![
        String::from("{\"reason\":\"compiler-message\",\"message\":{\"level\":\"error\",\"rendered\":\"error: oops\"}}"),
        String::from("{\"reason\":\"compiler-message\",\"message\":{\"level\":\"warning\",\"rendered\":\"warning: meh\"}}"),
        String::from("{\"reason\":\"build-finished\",\"success\":false}"),
        String::from("not json"),
        String::from("{\"reason\":\"compiler-message\",\"message\":{\"level\":\"error\",\"rendered\":\"error: again\"}}"),
    ];
    let (errors, warnings) = classify_cargo_output(&lines);
    assert_eq!(errors, vec![String::from("error: oops"), String::from("error: again")]);
    assert_eq!(warnings, vec![String::from("warning: meh")]);
}

#[test]
fn test_slice_content_range() {
    let content = "one\ntwo\nthree\nfour";
    let r = slice_content(content, Some(2), Some(3));
    assert_eq!(r.content, "two\nthree");
    assert_eq!(r.line_count, 4);
}

#[test]
fn test_slice_content_defaults_and_bounds() {
    let content = "one\ntwo\nthree";
    assert_eq!(slice_content(content, None, None).content, content);
    assert_eq!(slice_content(content, Some(2), None).content, "two\nthree");
    assert_eq!(slice_content(content, Some(1), Some(100)).content, content);
    // A start past the end leaves the content whole.
    assert_eq!(slice_content(content, Some(9), Some(10)).content, content);
    // An inverted range too.
    assert_eq!(slice_content(content, Some(3), Some(1)).content, content);
}

#[test]
fn test_filter_entries_by_extension() {
    let entry = |p: &str| FileEntry { path: String::from(p), size: 1, modified: 0 };
    let entries = vec![entry("a.rs"), entry("b.txt"), entry("dir/c.rs"), entry("d.rsx")];
    let kept = filter_entries(entries.clone(), Some("rs"));
    let paths: Vec<&str> = kept.iter().map(|e| e.path.as_str()).collect();
    assert_eq!(paths, vec!["a.rs", "dir/c.rs"]);
    assert_eq!(filter_entries(entries, None).len(), 4);
}

#[test]
fn test_create_file_refuses_existing_target() {
    assert_eq!(create_file_decision(true), Err(FileError::AlreadyExists));
    assert_eq!(create_file_decision(false), Ok(()));
}

#[test]
fn test_filter_by_lang() {
    let hit = |p: &str| BarqResult {
        file_path: String::from(p),
        content: String::new(),
        score_milli: 500,
        line: 1,
    };
    let results = vec![hit("a.rs"), hit("b.go"), hit("c.rs")];
    let kept = filter_by_lang(results.clone(), Some("rs"));
    assert_eq!(kept.len(), 2);
    assert_eq!(kept[0].file_path, "a.rs");
    assert_eq!(kept[1].file_path, "c.rs");
    assert_eq!(filter_by_lang(results, None).len(), 3);
}

#[test]
fn test_workspace_manager_lifecycle() {
    let mut mgr = WorkspaceManager::new("/root");
    mgr.add("/repos/alpha").unwrap();
    mgr.add("/repos/beta").unwrap();
    assert_eq!(mgr.add("/repos/alpha"), Err(WorkspaceError::AlreadyExists));
    let listed = mgr.list();
    assert_eq!(listed.len(), 2);
    assert_eq!(listed[0].name, "alpha");
    assert!(!listed[0].barq_indexed);
    assert_eq!(mgr.active_workspace().unwrap().path, "/repos/alpha");
    mgr.switch("/repos/beta").unwrap();
    assert_eq!(mgr.active_workspace().unwrap().path, "/repos/beta");
    assert_eq!(mgr.switch("/repos/missing"), Err(WorkspaceError::NotFound));
    mgr.remove("/repos/beta").unwrap();
    assert_eq!(mgr.active_workspace().unwrap().path, "/repos/alpha");
    mgr.remove("/repos/alpha").unwrap();
    assert!(mgr.active_workspace().is_none());
    assert_eq!(mgr.remove("/repos/alpha"), Err(WorkspaceError::NotFound));
}

#[test]
fn test_base_name() {
    assert_eq!(base_name("/repos/alpha"), "alpha");
    assert_eq!(base_name("plain"), "plain");
    assert_eq!(base_name("/repos/alpha/"), "unnamed");
    assert_eq!(base_name(""), "unnamed");
}

#[test]
fn test_parse_action() {
    assert_eq!(parse_action("add"), Ok(WorkspaceAction::Add));
    assert_eq!(parse_action("remove"), Ok(WorkspaceAction::Remove));
    assert_eq!(parse_action("switch"), Ok(WorkspaceAction::Switch));
    assert_eq!(parse_action("list"), Ok(WorkspaceAction::List));
    assert_eq!(parse_action("destroy"), Err(WorkspaceError::InvalidAction));
}
