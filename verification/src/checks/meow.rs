//! The meow check: when journal files change, `meow fmt` must have run
//! after the last edit.

use vstd::prelude::*;
use vstd::string::StringExecFns;
use crate::checks::common::CommandRule;
use crate::checks::common::CommandRuleView;
use crate::checks::common::FileChangeCheck;
use crate::checks::common::FileMatcher;
use crate::checks::common::any_matching_changed;
use crate::checks::common::check_commands_after_changes;
use crate::checks::common::matcher_last_write;
use crate::checks::common::missing_rule_names;
use crate::strutil::join_seq;
use crate::transcript::ToolUseEvent;

verus! {

/// The command rules enforced when journal files change.
pub open spec fn meow_required_commands() -> Seq<CommandRuleView> {
    seq![CommandRuleView { name: "meow fmt"@, patterns: seq!["meow fmt"@] }]
}

/// Build the required meow commands.
pub fn required_commands() -> (r: Vec<CommandRule>)
    ensures
        r.deep_view() == meow_required_commands(),
{
    let mut fmt_pats: Vec<String> = Vec::new();
    fmt_pats.push("meow fmt".to_owned());
    let mut rules: Vec<CommandRule> = Vec::new();
    rules.push(CommandRule { name: "meow fmt".to_owned(), patterns: fmt_pats });
    proof {
        assert(rules.deep_view() =~~= meow_required_commands());
    }
    rules
}

/// Whether `f` is a journal note: a Markdown file under a `journal`
/// directory, by a relative or an absolute path.
pub fn is_journal_file(f: &str) -> (r: bool)
    ensures
        r == FileMatcher::JournalFile.matches_spec(f@),
{
    FileMatcher::JournalFile.matches(f)
}

/// The failure reason for the given missing commands.
pub fn missing_message(missing: &Vec<String>) -> (r: String)
    ensures
        r@ == "Journal files changed but these commands were not run (after last edit): "@
            + join_seq(missing.deep_view(), ", "@),
{
    let mut msg = "Journal files changed but these commands were not run (after last edit): "
        .to_owned();
    let joined = crate::strutil::join_strings(missing, ", ");
    msg.append(joined.as_str());
    msg
}

/// Check whether `meow fmt` was run when journal files changed. Returns
/// the blocking reason, or nothing when the check passes.
pub fn check(changed_files: &Vec<String>, events: &Vec<ToolUseEvent>) -> (r: Option<String>)
    ensures
        ({
            let threshold = matcher_last_write(FileMatcher::JournalFile, events.deep_view());
            let missing = missing_rule_names(
                meow_required_commands(),
                events.deep_view(),
                threshold,
            );
            &&& (r is Some <==> (any_matching_changed(
                FileMatcher::JournalFile,
                changed_files.deep_view(),
            ) && missing.len() > 0))
            &&& match r {
                Some(msg) => msg@
                    == "Journal files changed but these commands were not run (after last edit): "@
                    + join_seq(missing, ", "@),
                None => true,
            }
        }),
{
    let config = FileChangeCheck {
        file_matcher: FileMatcher::JournalFile,
        required_commands: required_commands(),
        missing_prefix: "Journal files changed but these commands were not run (after last edit): "
            .to_owned(),
    };
    check_commands_after_changes(changed_files, events, &config)
}

} // verus!
