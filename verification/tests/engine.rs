//! Tests for the check engine: the shared command-after-edit rule, the
//! built-in checks, and the glob-driven runner.

use rufio::checks::cargo;
use rufio::checks::common::check_commands_after_changes;
use rufio::checks::common::CommandRule;
use rufio::checks::common::FileChangeCheck;
use rufio::checks::common::FileMatcher;
use rufio::checks::meow;
use rufio::checks::runner::run_checks;
use rufio::checks::version_bump;
use rufio::config::Check;
use rufio::config::LoadedConfig;
use rufio::config::RufioConfig;
use rufio::config::Then;
use rufio::config::When;
use rufio::transcript::ToolUseEvent;

fn write_event(path: &str, index: usize) -> ToolUseEvent {
    ToolUseEvent {
        tool_name: "Write".to_string(),
        command: None,
        file_path: Some(path.to_string()),
        index,
    }
}

fn bash_event(command: &str, index: usize) -> ToolUseEvent {
    ToolUseEvent {
        tool_name: "Bash".to_string(),
        command: Some(command.to_string()),
        file_path: None,
        index,
    }
}

fn rs_config() -> FileChangeCheck {
    FileChangeCheck {
        file_matcher: FileMatcher::RustFile,
        required_commands: vec![CommandRule {
            name: "cargo test".to_string(),
            patterns: vec!["cargo test".to_string()],
        }],
        missing_prefix: "Missing: ".to_string(),
    }
}

#[test]
fn test_no_matching_files_returns_none() {
    let changed_files = vec!["README.md".to_string()];
    let events = vec![];
    let config = rs_config();

    assert!(check_commands_after_changes(&changed_files, &events, &config).is_none());
}

#[test]
fn test_matching_files_but_command_run_returns_none() {
    let changed_files = vec!["src/main.rs".to_string()];
    let events = vec![write_event("src/main.rs", 0), bash_event("cargo test", 1)];
    let config = rs_config();

    assert!(check_commands_after_changes(&changed_files, &events, &config).is_none());
}

#[test]
fn test_matching_files_command_not_run_returns_reason() {
    let changed_files = vec!["src/main.rs".to_string()];
    let events = vec![write_event("src/main.rs", 0)];
    let config = rs_config();

    let result = check_commands_after_changes(&changed_files, &events, &config);
    assert!(result.is_some());
    assert!(result.as_ref().is_some_and(|r| r.contains("cargo test")));
}

#[test]
fn test_command_run_before_write_returns_reason() {
    let changed_files = vec!["src/main.rs".to_string()];
    let events = vec![bash_event("cargo test", 0), write_event("src/main.rs", 1)];
    let config = rs_config();

    let result = check_commands_after_changes(&changed_files, &events, &config);
    assert!(result.is_some());
}

#[test]
fn test_missing_message_lists_commands_in_order() {
    let changed_files = vec!["src/main.rs".to_string()];
    let events = vec![write_event("src/main.rs", 0), bash_event("cargo fmt", 1)];
    let reason = cargo::check(&changed_files, &events);
    assert_eq!(
        reason.as_deref(),
        Some(
            "Rust files changed but these commands were not run (after last edit): \
             cargo test, cargo clippy"
        )
    );
}

#[test]
fn test_cargo_short_test_alias_counts() {
    let changed_files = vec!["src/main.rs".to_string()];
    let events = vec![
        write_event("src/main.rs", 0),
        bash_event("cargo t --workspace", 1),
        bash_event("cargo fmt", 2),
        bash_event("cargo clippy", 3),
    ];
    assert!(cargo::check(&changed_files, &events).is_none());
}

#[test]
fn test_required_commands_defined() {
    let rules = cargo::required_commands();
    assert!(!rules.is_empty());
    for rule in &rules {
        assert!(!rule.name.is_empty());
        assert!(!rule.patterns.is_empty());
    }
}

#[test]
fn test_is_journal_file() {
    // Relative paths (from the changed-file set)
    assert!(meow::is_journal_file("journal/2025-11.md"));
    assert!(meow::is_journal_file("journal/notes.md"));
    // Absolute paths (from the transcript)
    assert!(meow::is_journal_file("/Users/foo/project/journal/2025-11.md"));
    assert!(meow::is_journal_file("/home/user/rufio/journal/notes.md"));
    // Non-matches
    assert!(!meow::is_journal_file("journal/foo.txt"));
    assert!(!meow::is_journal_file("src/main.rs"));
    assert!(!meow::is_journal_file("README.md"));
}

#[test]
fn test_meow_check_blocks_without_format() {
    let changed_files = vec!["journal/2025-11.md".to_string()];
    let events = vec![write_event("journal/2025-11.md", 0)];
    let reason = meow::check(&changed_files, &events);
    assert_eq!(
        reason.as_deref(),
        Some("Journal files changed but these commands were not run (after last edit): meow fmt")
    );
    let events = vec![
        write_event("journal/2025-11.md", 0),
        bash_event("meow fmt", 1),
    ];
    assert!(meow::check(&changed_files, &events).is_none());
}

#[test]
fn test_rust_source_files() {
    assert!(version_bump::is_rust_source_file("src/main.rs"));
    assert!(version_bump::is_rust_source_file("src/lib.rs"));
    assert!(version_bump::is_rust_source_file("src/checks/version_bump.rs"));
    assert!(version_bump::is_rust_source_file("build.rs"));
    assert!(version_bump::is_rust_source_file("crates/foo/build.rs"));
}

#[test]
fn test_non_rust_files() {
    assert!(!version_bump::is_rust_source_file("README.md"));
    assert!(!version_bump::is_rust_source_file("Cargo.toml"));
    assert!(!version_bump::is_rust_source_file("Cargo.lock"));
    assert!(!version_bump::is_rust_source_file("package.nix"));
    assert!(!version_bump::is_rust_source_file("index.js"));
    assert!(!version_bump::is_rust_source_file("app/page.tsx"));
    assert!(!version_bump::is_rust_source_file("script.py"));
    assert!(!version_bump::is_rust_source_file(".envrc"));
}

#[test]
fn test_version_bump_check_outcomes() {
    let rust_only = vec!["src/main.rs".to_string()];
    // Without the packaging marker the check is skipped silently.
    assert!(version_bump::check(false, &rust_only).is_none());
    // With the marker and no version bump it blocks with the fixed reason.
    assert_eq!(
        version_bump::check(true, &rust_only).as_deref(),
        Some(
            "Rust source files were modified but version.toml was not bumped. \
             Please bump the version following semver."
        )
    );
    // A nested version.toml counts as bumped.
    let bumped = vec!["src/main.rs".to_string(), "pkg/version.toml".to_string()];
    assert!(version_bump::check(true, &bumped).is_none());
    // No Rust changes, nothing to enforce.
    let docs = vec!["README.md".to_string()];
    assert!(version_bump::check(true, &docs).is_none());
}

fn make_loaded_config(checks: Vec<Check>) -> LoadedConfig {
    LoadedConfig {
        config: RufioConfig { checks },
        config_dir: "/test".to_string(),
    }
}

fn make_check(
    name: &str,
    pattern: &str,
    commands: Option<Vec<&str>>,
    ensure_changed: Option<Vec<&str>>,
) -> Check {
    Check {
        name: name.to_string(),
        when: When {
            paths_changed: pattern.to_string(),
            path_exists: None,
        },
        action: Then {
            ensure_commands: commands.map(|c| c.into_iter().map(String::from).collect()),
            ensure_changed: ensure_changed.map(|c| c.into_iter().map(String::from).collect()),
        },
    }
}

fn all_gates(loaded: &LoadedConfig) -> Vec<bool> {
    vec![true; loaded.config.checks.len()]
}

#[test]
fn test_no_matching_files() {
    let loaded = make_loaded_config(vec![make_check(
        "test",
        "**/*.rs",
        Some(vec!["cargo test"]),
        None,
    )]);
    let changed_files = vec!["README.md".to_string()];
    let events = vec![];

    let results = run_checks(&loaded, &changed_files, &events, &all_gates(&loaded));
    assert_eq!(results.len(), 1);
    assert!(results[0].reason.is_none());
}

#[test]
fn test_matching_files_command_run() {
    let loaded = make_loaded_config(vec![make_check(
        "test",
        "**/*.rs",
        Some(vec!["cargo test"]),
        None,
    )]);
    let changed_files = vec!["src/main.rs".to_string()];
    let events = vec![write_event("src/main.rs", 0), bash_event("cargo test", 1)];

    let results = run_checks(&loaded, &changed_files, &events, &all_gates(&loaded));
    assert_eq!(results.len(), 1);
    assert!(results[0].reason.is_none());
}

#[test]
fn test_matching_files_command_not_run() {
    let loaded = make_loaded_config(vec![make_check(
        "test",
        "**/*.rs",
        Some(vec!["cargo test"]),
        None,
    )]);
    let changed_files = vec!["src/main.rs".to_string()];
    let events = vec![write_event("src/main.rs", 0)];

    let results = run_checks(&loaded, &changed_files, &events, &all_gates(&loaded));
    assert_eq!(results.len(), 1);
    assert!(results[0].reason.is_some());
    assert!(results[0].reason.as_ref().unwrap().contains("cargo test"));
}

#[test]
fn test_ensure_changed_satisfied() {
    let loaded = make_loaded_config(vec![make_check(
        "version",
        "**/*.rs",
        None,
        Some(vec!["version.toml"]),
    )]);
    let changed_files = vec!["src/main.rs".to_string(), "version.toml".to_string()];
    let events = vec![];

    let results = run_checks(&loaded, &changed_files, &events, &all_gates(&loaded));
    assert_eq!(results.len(), 1);
    assert!(results[0].reason.is_none());
}

#[test]
fn test_ensure_changed_not_satisfied() {
    let loaded = make_loaded_config(vec![make_check(
        "version",
        "**/*.rs",
        None,
        Some(vec!["version.toml"]),
    )]);
    let changed_files = vec!["src/main.rs".to_string()];
    let events = vec![];

    let results = run_checks(&loaded, &changed_files, &events, &all_gates(&loaded));
    assert_eq!(results.len(), 1);
    assert!(results[0].reason.is_some());
    assert!(results[0].reason.as_ref().unwrap().contains("version.toml"));
}

#[test]
fn test_command_run_before_write() {
    let loaded = make_loaded_config(vec![make_check(
        "test",
        "**/*.rs",
        Some(vec!["cargo test"]),
        None,
    )]);
    let changed_files = vec!["src/main.rs".to_string()];
    let events = vec![bash_event("cargo test", 0), write_event("src/main.rs", 1)];

    let results = run_checks(&loaded, &changed_files, &events, &all_gates(&loaded));
    assert_eq!(results.len(), 1);
    assert!(results[0].reason.is_some());
}

#[test]
fn test_multiple_checks() {
    let loaded = make_loaded_config(vec![
        make_check("test", "**/*.rs", Some(vec!["cargo test"]), None),
        make_check("fmt", "**/*.rs", Some(vec!["cargo fmt"]), None),
    ]);
    let changed_files = vec!["src/main.rs".to_string()];
    let events = vec![
        write_event("src/main.rs", 0),
        bash_event("cargo test", 1),
        // cargo fmt not run
    ];

    let results = run_checks(&loaded, &changed_files, &events, &all_gates(&loaded));
    assert_eq!(results.len(), 2);
    assert!(results[0].reason.is_none()); // cargo test passed
    assert!(results[1].reason.is_some()); // cargo fmt failed
}

#[test]
fn test_command_after_edit_scenario() {
    // One matching write at index 0; the required command is missing.
    let loaded = make_loaded_config(vec![make_check(
        "test",
        "**/*.rs",
        Some(vec!["cargo test"]),
        None,
    )]);
    let changed_files = vec!["src/lib.rs".to_string()];
    let events = vec![write_event("src/lib.rs", 0)];
    let results = run_checks(&loaded, &changed_files, &events, &all_gates(&loaded));
    assert!(results[0].reason.is_some());
    assert!(results[0].reason.as_ref().unwrap().contains("cargo test"));

    // Adding the command at index 1 makes the check pass.
    let events = vec![write_event("src/lib.rs", 0), bash_event("cargo test", 1)];
    let results = run_checks(&loaded, &changed_files, &events, &all_gates(&loaded));
    assert!(results[0].reason.is_none());
}

#[test]
fn test_ensure_changed_suffix_scenario() {
    let loaded = make_loaded_config(vec![make_check(
        "version",
        "**/*.rs",
        None,
        Some(vec!["version.toml"]),
    )]);
    // Not satisfied: the failure reason lists the required path.
    let changed_files = vec!["src/lib.rs".to_string()];
    let results = run_checks(&loaded, &changed_files, &events_none(), &all_gates(&loaded));
    assert_eq!(
        results[0].reason.as_deref(),
        Some("[version] Required files not modified: version.toml")
    );
    // Satisfied by a path-separator-bounded suffix.
    let changed_files = vec!["src/lib.rs".to_string(), "pkg/version.toml".to_string()];
    let results = run_checks(&loaded, &changed_files, &events_none(), &all_gates(&loaded));
    assert!(results[0].reason.is_none());
}

fn events_none() -> Vec<ToolUseEvent> {
    Vec::new()
}

#[test]
fn test_invalid_glob_pattern_is_isolated_failure() {
    let loaded = make_loaded_config(vec![
        make_check("bad", "a[", Some(vec!["cargo test"]), None),
        make_check("good", "**/*.rs", None, Some(vec!["version.toml"])),
    ]);
    let changed_files = vec!["src/main.rs".to_string(), "version.toml".to_string()];
    let results = run_checks(&loaded, &changed_files, &events_none(), &all_gates(&loaded));
    assert_eq!(results.len(), 2);
    assert_eq!(
        results[0].reason.as_deref(),
        Some("Invalid glob pattern 'a[' in check 'bad'")
    );
    assert!(results[1].reason.is_none());
}

#[test]
fn test_filename_only_pattern_matches_nested_file() {
    // The pattern names only the bare filename; the changed entry has a
    // directory prefix, so only the final-component fallback can match.
    let loaded = make_loaded_config(vec![make_check(
        "docs",
        "*.md",
        Some(vec!["mdfmt"]),
        None,
    )]);
    let changed_files = vec!["docs/README.md".to_string()];
    let results = run_checks(&loaded, &changed_files, &events_none(), &all_gates(&loaded));
    assert!(results[0].reason.is_some());
}

#[test]
fn test_gate_skips_check_entirely() {
    let mut check = make_check("gated", "**/*.rs", Some(vec!["cargo test"]), None);
    check.when.path_exists = Some("package.nix".to_string());
    let loaded = make_loaded_config(vec![check]);
    let changed_files = vec!["src/main.rs".to_string()];
    // The gated path does not exist: the check passes trivially.
    let results = run_checks(&loaded, &changed_files, &events_none(), &vec![false]);
    assert!(results[0].reason.is_none());
    // The gated path exists: the check applies and fails.
    let results = run_checks(&loaded, &changed_files, &events_none(), &vec![true]);
    assert!(results[0].reason.is_some());
}

#[test]
fn test_lone_command_satisfies_without_write_event() {
    // No write event in the log: any command run counts, even at index 0.
    let loaded = make_loaded_config(vec![make_check(
        "test",
        "**/*.rs",
        Some(vec!["cargo test"]),
        None,
    )]);
    let changed_files = vec!["src/main.rs".to_string()];
    let events = vec![bash_event("cargo test", 0)];
    let results = run_checks(&loaded, &changed_files, &events, &all_gates(&loaded));
    assert!(results[0].reason.is_none());
}
