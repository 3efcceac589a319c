//! The cargo check: when Rust files change, `cargo test`, `cargo fmt`
//! and `cargo clippy` must all have run after the last edit.

use vstd::prelude::*;
use vstd::string::StringExecFns;
use crate::checks::common::CommandRule;
use crate::checks::common::CommandRuleView;
use crate::checks::common::FileChangeCheck;
use crate::checks::common::FileMatcher;
use crate::checks::common::any_matching_changed;
use crate::checks::common::check_commands_after_changes;
use crate::checks::common::matcher_last_write;
use crate::checks::common::missing_rule_names;
use crate::strutil::ends_with;
use crate::strutil::ends_with_seq;
use crate::strutil::join_seq;
use crate::transcript::ToolUseEvent;

verus! {

/// The command rules enforced when Rust files change.
pub open spec fn cargo_required_commands() -> Seq<CommandRuleView> {
    seq![
        CommandRuleView { name: "cargo test"@, patterns: seq!["cargo test"@, "cargo t "@] },
        CommandRuleView { name: "cargo fmt"@, patterns: seq!["cargo fmt"@] },
        CommandRuleView { name: "cargo clippy"@, patterns: seq!["cargo clippy"@] },
    ]
}

/// Build the required cargo commands.
pub fn required_commands() -> (r: Vec<CommandRule>)
    ensures
        r.deep_view() == cargo_required_commands(),
{
    let mut test_pats: Vec<String> = Vec::new();
    test_pats.push("cargo test".to_owned());
    test_pats.push("cargo t ".to_owned());
    let mut fmt_pats: Vec<String> = Vec::new();
    fmt_pats.push("cargo fmt".to_owned());
    let mut clippy_pats: Vec<String> = Vec::new();
    clippy_pats.push("cargo clippy".to_owned());
    let mut rules: Vec<CommandRule> = Vec::new();
    rules.push(CommandRule { name: "cargo test".to_owned(), patterns: test_pats });
    rules.push(CommandRule { name: "cargo fmt".to_owned(), patterns: fmt_pats });
    rules.push(CommandRule { name: "cargo clippy".to_owned(), patterns: clippy_pats });
    proof {
        assert(rules.deep_view() =~~= cargo_required_commands());
    }
    rules
}

/// Whether `f` is a Rust file.
pub fn is_rust_file(f: &str) -> (r: bool)
    ensures
        r == ends_with_seq(f@, ".rs"@),
{
    ends_with(f, ".rs")
}

/// The failure reason for the given missing commands.
pub fn missing_message(missing: &Vec<String>) -> (r: String)
    ensures
        r@ == "Rust files changed but these commands were not run (after last edit): "@
            + join_seq(missing.deep_view(), ", "@),
{
    let mut msg = "Rust files changed but these commands were not run (after last edit): "
        .to_owned();
    let joined = crate::strutil::join_strings(missing, ", ");
    msg.append(joined.as_str());
    msg
}

/// Check whether the required cargo commands were run when Rust files
/// changed. Returns the blocking reason, or nothing when the check
/// passes.
pub fn check(changed_files: &Vec<String>, events: &Vec<ToolUseEvent>) -> (r: Option<String>)
    ensures
        ({
            let threshold = matcher_last_write(FileMatcher::RustFile, events.deep_view());
            let missing = missing_rule_names(
                cargo_required_commands(),
                events.deep_view(),
                threshold,
            );
            &&& (r is Some <==> (any_matching_changed(
                FileMatcher::RustFile,
                changed_files.deep_view(),
            ) && missing.len() > 0))
            &&& match r {
                Some(msg) => msg@
                    == "Rust files changed but these commands were not run (after last edit): "@
                    + join_seq(missing, ", "@),
                None => true,
            }
        }),
{
    let config = FileChangeCheck {
        file_matcher: FileMatcher::RustFile,
        required_commands: required_commands(),
        missing_prefix: "Rust files changed but these commands were not run (after last edit): "
            .to_owned(),
    };
    check_commands_after_changes(changed_files, events, &config)
}

} // verus!
