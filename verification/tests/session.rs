//! Tests for the session plumbing: transcript decoding, the project
//! boundary, status-output parsing, reply shaping, and the pane-state
//! indicator.

use rufio::hook::block_output;
use rufio::hook::combine_reasons;
use rufio::hook::filter_to_project;
use rufio::hook::find_project_root;
use rufio::hook::MarkerProbe;
use rufio::hook::parse_changed_files;
use rufio::hook::project_search_dirs;
use rufio::strutil::basename;
use rufio::strutil::contains_str;
use rufio::strutil::join_strings;
use rufio::strutil::parent_dir;
use rufio::transcript::extract_tool_events;
use rufio::transcript::RawContentItem;
use rufio::zellij::asking_char;
use rufio::zellij::derive_name_from_cwd;
use rufio::zellij::done_char;
use rufio::zellij::next_spinner_index;
use rufio::zellij::PaneState;
use rufio::zellij::rename_payload;
use rufio::zellij::spinner_frame;
use rufio::zellij::SPINNER_FRAME_COUNT;
use rufio::zellij::tab_title;

fn tool_use(name: &str, command: Option<&str>, file_path: Option<&str>) -> RawContentItem {
    RawContentItem {
        item_type: Some("tool_use".to_string()),
        name: Some(name.to_string()),
        command: command.map(String::from),
        file_path: file_path.map(String::from),
    }
}

#[test]
fn test_extract_tool_events_indexes_and_fields() {
    let items = vec![
        tool_use("Bash", Some("cargo test"), None),
        RawContentItem {
            item_type: Some("text".to_string()),
            name: None,
            command: None,
            file_path: None,
        },
        tool_use("Write", Some("ignored"), Some("src/main.rs")),
        tool_use("Read", Some("ignored"), Some("also-ignored.rs")),
    ];
    let events = extract_tool_events(&items);
    assert_eq!(events.len(), 3);
    assert_eq!(events[0].tool_name, "Bash");
    assert_eq!(events[0].command.as_deref(), Some("cargo test"));
    assert_eq!(events[0].file_path, None);
    assert_eq!(events[0].index, 0);
    // The file path is kept only for file-write tools.
    assert_eq!(events[1].tool_name, "Write");
    assert_eq!(events[1].command, None);
    assert_eq!(events[1].file_path.as_deref(), Some("src/main.rs"));
    assert_eq!(events[1].index, 1);
    // Other tools keep neither field.
    assert_eq!(events[2].tool_name, "Read");
    assert_eq!(events[2].command, None);
    assert_eq!(events[2].file_path, None);
    assert_eq!(events[2].index, 2);
}

#[test]
fn test_extract_tool_events_empty() {
    let events = extract_tool_events(&vec![]);
    assert!(events.is_empty());
}

#[test]
fn test_parse_changed_files_porcelain() {
    let out = " M src/main.rs\n?? notes/todo.md\n";
    let files = parse_changed_files(out);
    assert_eq!(
        files,
        vec!["src/main.rs".to_string(), "notes/todo.md".to_string()]
    );
    assert!(parse_changed_files("").is_empty());
}

#[test]
fn test_filter_to_project_keeps_project_files() {
    let files = vec![
        "projects/foo/src/main.rs".to_string(),
        "projects/bar/src/lib.rs".to_string(),
    ];
    let git_root = "/repo".to_string();
    let project_root = "/repo/projects/foo".to_string();
    let kept = filter_to_project(&files, Some(&git_root), Some(&project_root));
    assert_eq!(kept, vec!["projects/foo/src/main.rs".to_string()]);
    // With no project root, everything passes.
    let all = filter_to_project(&files, Some(&git_root), None);
    assert_eq!(all.len(), 2);
    // When the project root is the repository root, everything passes.
    let all = filter_to_project(&files, Some(&git_root), Some(&git_root));
    assert_eq!(all.len(), 2);
}

#[test]
fn test_find_project_root_first_marker_wins() {
    let probes = vec![
        MarkerProbe {
            dir: "/repo/projects/baz/src/lib".to_string(),
            has_marker: false,
        },
        MarkerProbe {
            dir: "/repo/projects/baz".to_string(),
            has_marker: true,
        },
        MarkerProbe {
            dir: "/repo".to_string(),
            has_marker: true,
        },
    ];
    assert_eq!(
        find_project_root(&probes).as_deref(),
        Some("/repo/projects/baz")
    );
}

#[test]
fn test_find_project_root_no_marker_is_none() {
    let probes = vec![
        MarkerProbe {
            dir: "/repo/some/path".to_string(),
            has_marker: false,
        },
        MarkerProbe {
            dir: "/repo".to_string(),
            has_marker: false,
        },
    ];
    assert!(find_project_root(&probes).is_none());
}

#[test]
fn test_project_search_dirs_includes_git_root() {
    let dirs = project_search_dirs("/repo/projects/baz/src", "/repo");
    assert_eq!(
        dirs,
        vec![
            "/repo/projects/baz/src".to_string(),
            "/repo/projects/baz".to_string(),
            "/repo/projects".to_string(),
            "/repo".to_string()
        ]
    );
}

#[test]
fn test_combine_reasons_and_block_output() {
    assert!(combine_reasons(&vec![]).is_none());
    let reasons = vec!["first reason".to_string(), "second reason".to_string()];
    let combined = combine_reasons(&reasons).unwrap();
    assert_eq!(combined, "first reason | second reason");
    assert_eq!(
        block_output(&combined),
        "{\"decision\":\"block\",\"reason\":\"first reason | second reason\"}"
    );
}

#[test]
fn test_spinner_constants() {
    assert_eq!(SPINNER_FRAME_COUNT, 10);
    assert_eq!(asking_char(), "⣿");
    assert_eq!(done_char(), "⠶");
}

#[test]
fn test_spinner_frames_cycle() {
    assert_eq!(spinner_frame(0), "⠋");
    assert_eq!(spinner_frame(1), "⠙");
    assert_eq!(spinner_frame(9), "⠏");
    assert_eq!(next_spinner_index(0), 1);
    assert_eq!(next_spinner_index(9), 0);
}

#[test]
fn test_pane_state_names() {
    assert_eq!(PaneState::Stopped.name(), "Stopped");
    assert_eq!(PaneState::AskingQuestion.name(), "AskingQuestion");
    assert_eq!(PaneState::Active.name(), "Active");
}

#[test]
fn test_session_paths() {
    assert_eq!(
        rufio::zellij::spinner_state_path("abc"),
        "/tmp/rufio-spinner-abc"
    );
    assert_eq!(
        rufio::zellij::asking_marker_path("abc"),
        "/tmp/rufio-asking-abc"
    );
    assert_eq!(rufio::zellij::log_file_path("abc"), "/tmp/rufio-abc.txt");
}

#[test]
fn test_derive_name_from_cwd() {
    // Fallback to the last path component.
    assert_eq!(derive_name_from_cwd("/some/random/path", None), "path");
}

#[test]
fn test_derive_name_prefers_worktree_branch() {
    assert_eq!(
        derive_name_from_cwd("/home/u/.meow/trees/fix-spinner/src", Some("/home/u")),
        "fix-spinner"
    );
    // A grouped source layout names the project by its second component.
    assert_eq!(
        derive_name_from_cwd("/home/u/src/projects/rufio", Some("/home/u")),
        "rufio"
    );
    assert_eq!(
        derive_name_from_cwd("/home/u/src/rufio", Some("/home/u")),
        "rufio"
    );
    // Elsewhere the last component wins.
    assert_eq!(
        derive_name_from_cwd("/home/u/other/place", Some("/home/u")),
        "place"
    );
}

#[test]
fn test_tab_title_and_payload() {
    let title = tab_title("⠶", "rufio");
    assert_eq!(title, "⠶ rufio");
    assert_eq!(
        rename_payload("7", &title),
        "{\"pane_id\": \"7\", \"name\": \"⠶ rufio\"}"
    );
}

#[test]
fn test_string_helpers() {
    assert!(contains_str("run cargo test now", "cargo test"));
    assert!(!contains_str("cargo build", "cargo test"));
    assert_eq!(basename("a/b/c.rs"), "c.rs");
    assert_eq!(basename("plain.rs"), "plain.rs");
    assert_eq!(parent_dir("/repo/src").as_deref(), Some("/repo"));
    assert_eq!(parent_dir("/repo").as_deref(), Some("/"));
    assert_eq!(parent_dir("/"), None);
    let parts = vec!["a".to_string(), "b".to_string(), "c".to_string()];
    assert_eq!(join_strings(&parts, ", "), "a, b, c");
}
