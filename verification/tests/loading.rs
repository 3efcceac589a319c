//! Tests for configuration loading: validation, preset resolution,
//! merge order, and the nearest-configuration search.

use rufio::config::Check;
use rufio::config::ConfigDoc;
use rufio::config::ConfigError;
use rufio::config::config_search_dirs;
use rufio::config::DirOutcome;
use rufio::config::DirProbe;
use rufio::config::FileAssignment;
use rufio::config::find_nearest_config;
use rufio::config::group_files_by_config;
use rufio::config::load_config;
use rufio::config::LoadedConfig;
use rufio::config::preset_path;
use rufio::config::RufioConfig;
use rufio::config::Then;
use rufio::config::validate_check;
use rufio::config::When;
use rufio::presets::builtin_preset;
use rufio::presets::preset_names;

fn make_check(
    name: &str,
    pattern: &str,
    commands: Option<Vec<&str>>,
    ensure_changed: Option<Vec<&str>>,
) -> Check {
    Check {
        name: name.to_string(),
        when: When {
            paths_changed: pattern.to_string(),
            path_exists: None,
        },
        action: Then {
            ensure_commands: commands.map(|c| c.into_iter().map(String::from).collect()),
            ensure_changed: ensure_changed.map(|c| c.into_iter().map(String::from).collect()),
        },
    }
}

fn doc(presets: Option<Vec<&str>>, checks: Option<Vec<Check>>) -> ConfigDoc {
    ConfigDoc {
        presets: presets.map(|p| p.into_iter().map(String::from).collect()),
        checks,
    }
}

#[test]
fn test_presets_exist() {
    assert!(builtin_preset("cargo").is_some());
    assert!(builtin_preset("meow").is_some());
    assert!(builtin_preset("pnpm").is_some());
    assert!(builtin_preset("ledger").is_some());
    assert!(builtin_preset("terraform").is_some());
}

#[test]
fn test_cargo_preset_has_checks() {
    let cargo = builtin_preset("cargo").unwrap();
    assert_eq!(cargo.len(), 2);
    assert_eq!(cargo[0].name, "cargo-checks");
    assert_eq!(cargo[1].name, "cargo-version-bump");
}

#[test]
fn test_check_fields_valid() {
    for name in preset_names() {
        let checks = builtin_preset(name.as_str()).unwrap();
        for check in &checks {
            assert!(
                !check.name.is_empty(),
                "preset {} has empty check name",
                name
            );
            assert!(
                !check.when.paths_changed.is_empty(),
                "preset {} check {} has empty paths_changed",
                name,
                check.name
            );
            assert!(
                check.action.ensure_commands.is_some() || check.action.ensure_changed.is_some(),
                "preset {} check {} has no action",
                name,
                check.name
            );
        }
    }
}

#[test]
fn test_unknown_preset_is_not_builtin() {
    assert!(builtin_preset("gradle").is_none());
    assert!(builtin_preset("").is_none());
}

#[test]
fn test_load_config_with_local_checks() {
    let d = doc(
        None,
        Some(vec![make_check(
            "test-check",
            "**/*.rs",
            Some(vec!["cargo test"]),
            None,
        )]),
    );
    let config = load_config(d, &vec![], "/home/u/.config").unwrap();
    assert_eq!(config.checks.len(), 1);
    assert_eq!(config.checks[0].name, "test-check");
}

#[test]
fn test_load_config_empty_fails() {
    let d = doc(None, None);
    let r = load_config(d, &vec![], "/home/u/.config");
    assert!(matches!(r, Err(ConfigError::NoChecks)));
}

#[test]
fn test_load_config_both_action_fields_fails() {
    let d = doc(
        None,
        Some(vec![make_check(
            "bad-check",
            "**/*.rs",
            Some(vec!["cargo test"]),
            Some(vec!["version.toml"]),
        )]),
    );
    let r = load_config(d, &vec![], "/home/u/.config");
    assert!(matches!(r, Err(ConfigError::ConflictingActions { .. })));
}

#[test]
fn test_load_config_neither_action_fails() {
    let d = doc(None, Some(vec![make_check("bare", "**/*.rs", None, None)]));
    let r = load_config(d, &vec![], "/home/u/.config");
    match r {
        Err(ConfigError::MissingAction { check_name }) => assert_eq!(check_name, "bare"),
        other => panic!("unexpected outcome: {:?}", other),
    }
}

#[test]
fn test_load_config_missing_name_fails() {
    let d = doc(
        None,
        Some(vec![make_check("", "**/*.rs", Some(vec!["x"]), None)]),
    );
    let r = load_config(d, &vec![], "/home/u/.config");
    assert!(matches!(r, Err(ConfigError::MissingName)));
}

#[test]
fn test_load_config_missing_pattern_fails() {
    let d = doc(None, Some(vec![make_check("c", "", Some(vec!["x"]), None)]));
    let r = load_config(d, &vec![], "/home/u/.config");
    assert!(matches!(
        r,
        Err(ConfigError::MissingPathsChanged { .. })
    ));
}

#[test]
fn test_load_config_unknown_preset_fails_with_path() {
    let d = doc(Some(vec!["gradle"]), None);
    let r = load_config(d, &vec![None], "/home/u/.config");
    match r {
        Err(ConfigError::PresetNotFound {
            preset,
            expected_path,
        }) => {
            assert_eq!(preset, "gradle");
            assert_eq!(expected_path, "/home/u/.config/rufio/presets/gradle.yaml");
        }
        other => panic!("unexpected outcome: {:?}", other),
    }
}

#[test]
fn test_load_config_merge_order() {
    // Preset checks come first, in listed order, then the local checks.
    let d = doc(
        Some(vec!["cargo"]),
        Some(vec![make_check(
            "local-check",
            "**/*.md",
            Some(vec!["mdfmt"]),
            None,
        )]),
    );
    let config = load_config(d, &vec![None], "/home/u/.config").unwrap();
    let names: Vec<&str> = config.checks.iter().map(|c| c.name.as_str()).collect();
    assert_eq!(
        names,
        vec!["cargo-checks", "cargo-version-bump", "local-check"]
    );
}

#[test]
fn test_load_config_external_preset_used_when_not_builtin() {
    let external = vec![Some(vec![make_check(
        "ext-check",
        "**/*.py",
        Some(vec!["pytest"]),
        None,
    )])];
    let d = doc(Some(vec!["python"]), None);
    let config = load_config(d, &external, "/home/u/.config").unwrap();
    assert_eq!(config.checks.len(), 1);
    assert_eq!(config.checks[0].name, "ext-check");
}

#[test]
fn test_preset_checks_bypass_validation() {
    // A preset-sourced check with both actions would fail validation,
    // but preset checks are trusted and never re-validated.
    let external = vec![Some(vec![make_check(
        "odd",
        "**/*.py",
        Some(vec!["pytest"]),
        Some(vec!["setup.py"]),
    )])];
    let d = doc(Some(vec!["python"]), None);
    assert!(load_config(d, &external, "/home/u/.config").is_ok());
}

#[test]
fn test_validate_check_accepts_well_formed() {
    let c = make_check("ok", "**/*.rs", Some(vec!["cargo test"]), None);
    assert!(validate_check(&c).is_ok());
}

#[test]
fn test_config_error_messages() {
    let e = ConfigError::PresetNotFound {
        preset: "gradle".to_string(),
        expected_path: "/home/u/.config/rufio/presets/gradle.yaml".to_string(),
    };
    assert_eq!(
        e.message("/repo/rufio-hooks.yaml"),
        "Invalid config at /repo/rufio-hooks.yaml: preset 'gradle' not found at \
         /home/u/.config/rufio/presets/gradle.yaml"
    );
    let e = ConfigError::MissingName;
    assert_eq!(
        e.message("/repo/rufio-hooks.yaml"),
        "Invalid config at /repo/rufio-hooks.yaml: check missing 'name'"
    );
}

#[test]
fn test_preset_path_shape() {
    assert_eq!(
        preset_path("/home/u/.config", "cargo"),
        "/home/u/.config/rufio/presets/cargo.yaml"
    );
}

#[test]
fn test_config_search_dirs_walks_up_to_root() {
    let dirs = config_search_dirs("/repo/src/lib", "/repo");
    assert_eq!(
        dirs,
        vec![
            "/repo/src/lib".to_string(),
            "/repo/src".to_string(),
            "/repo".to_string()
        ]
    );
}

#[test]
fn test_config_search_dirs_stops_at_boundary() {
    // The query directory itself is probed even when it is the root.
    let dirs = config_search_dirs("/repo", "/repo");
    assert_eq!(dirs, vec!["/repo".to_string()]);
    // Walking never leaves the repository root's subtree.
    let dirs = config_search_dirs("/elsewhere/deep", "/repo");
    assert_eq!(dirs, vec!["/elsewhere/deep".to_string()]);
}

fn loaded_probe(dir: &str, checks: Vec<Check>) -> DirProbe {
    DirProbe {
        dir: dir.to_string(),
        outcome: DirOutcome::Loaded(RufioConfig { checks }),
    }
}

#[test]
fn test_find_nearest_config_picks_first_loadable() {
    let probes = vec![
        DirProbe {
            dir: "/repo/src".to_string(),
            outcome: DirOutcome::NoConfig,
        },
        loaded_probe(
            "/repo",
            vec![make_check("test", "**/*.rs", Some(vec!["cargo test"]), None)],
        ),
    ];
    let loaded = find_nearest_config(&probes).unwrap();
    assert_eq!(loaded.config_dir, "/repo");
    assert_eq!(loaded.config.checks.len(), 1);
}

#[test]
fn test_find_nearest_config_skips_broken_document() {
    // A directory with an unparseable document is skipped in favor of a
    // valid ancestor further up.
    let probes = vec![
        DirProbe {
            dir: "/repo/pkg".to_string(),
            outcome: DirOutcome::LoadFailed,
        },
        loaded_probe(
            "/repo",
            vec![make_check("test", "**/*.rs", Some(vec!["cargo test"]), None)],
        ),
    ];
    let loaded = find_nearest_config(&probes).unwrap();
    assert_eq!(loaded.config_dir, "/repo");
}

#[test]
fn test_find_nearest_config_none_when_nothing_loads() {
    let probes = vec![
        DirProbe {
            dir: "/repo/src".to_string(),
            outcome: DirOutcome::NoConfig,
        },
        DirProbe {
            dir: "/repo".to_string(),
            outcome: DirOutcome::LoadFailed,
        },
    ];
    assert!(find_nearest_config(&probes).is_none());
}

fn assignment(file: &str, dir: Option<&str>) -> FileAssignment {
    FileAssignment {
        file: file.to_string(),
        loaded: dir.map(|d| LoadedConfig {
            config: RufioConfig {
                checks: vec![make_check(d, "**/*.rs", Some(vec!["cargo test"]), None)],
            },
            config_dir: d.to_string(),
        }),
    }
}

#[test]
fn test_group_files_by_config_groups_in_first_seen_order() {
    let assignments = vec![
        assignment("a/x.rs", Some("/repo/a")),
        assignment("b/y.rs", Some("/repo/b")),
        assignment("a/z.rs", Some("/repo/a")),
        assignment("stray.rs", None),
    ];
    let groups = group_files_by_config(&assignments);
    assert_eq!(groups.len(), 2);
    assert_eq!(groups[0].0.config_dir, "/repo/a");
    assert_eq!(groups[0].1, vec!["a/x.rs".to_string(), "a/z.rs".to_string()]);
    assert_eq!(groups[1].0.config_dir, "/repo/b");
    assert_eq!(groups[1].1, vec!["b/y.rs".to_string()]);
    // The group carries the configuration of its first assignment.
    assert_eq!(groups[0].0.config.checks[0].name, "/repo/a");
}
