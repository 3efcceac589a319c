//! The command-after-edit rule shared by the built-in file-change checks:
//! when files selected by a matcher have changed, every required command
//! must have run after the last write to such a file.

use vstd::prelude::*;
use vstd::string::StringExecFns;
use crate::strutil::contains_seq;
use crate::strutil::contains_str;
use crate::strutil::ends_with;
use crate::strutil::ends_with_seq;
use crate::strutil::join_seq;
use crate::strutil::join_strings;
use crate::strutil::starts_with;
use crate::strutil::starts_with_seq;
use crate::strutil::str_eq;
use crate::transcript::ToolUseEvent;
use crate::transcript::ToolUseEventView;

verus! {

/// Which changed files a built-in check cares about.
#[derive(Debug, Clone, Copy)]
pub enum FileMatcher {
    /// Rust source files: the path ends in `.rs`.
    RustFile,
    /// Journal notes: a Markdown file under a `journal` directory, given
    /// either relative to the repository or absolutely.
    JournalFile,
}

impl FileMatcher {
    /// Whether this matcher selects the path `f`.
    pub open spec fn matches_spec(self, f: Seq<char>) -> bool {
        match self {
            FileMatcher::RustFile => ends_with_seq(f, ".rs"@),
            FileMatcher::JournalFile => (starts_with_seq(f, "journal/"@) || contains_seq(
                f,
                "/journal/"@,
            )) && ends_with_seq(f, ".md"@),
        }
    }

    /// Whether this matcher selects the path `f`.
    pub fn matches(self, f: &str) -> (r: bool)
        ensures
            r == self.matches_spec(f@),
    {
        match self {
            FileMatcher::RustFile => ends_with(f, ".rs"),
            FileMatcher::JournalFile => (starts_with(f, "journal/") || contains_str(
                f,
                "/journal/",
            )) && ends_with(f, ".md"),
        }
    }
}

/// One required command: its display name and the command substrings any
/// of which count as having run it.
#[derive(Debug, Clone)]
pub struct CommandRule {
    pub name: String,
    pub patterns: Vec<String>,
}

/// The mathematical value of a [`CommandRule`].
#[verifier::ext_equal]
pub ghost struct CommandRuleView {
    pub name: Seq<char>,
    pub patterns: Seq<Seq<char>>,
}

impl View for CommandRule {
    type V = CommandRuleView;

    open spec fn view(&self) -> CommandRuleView {
        CommandRuleView { name: self.name@, patterns: self.patterns.deep_view() }
    }
}

impl DeepView for CommandRule {
    type V = CommandRuleView;

    open spec fn deep_view(&self) -> CommandRuleView {
        self@
    }
}

/// Configuration for a file change check.
pub struct FileChangeCheck {
    /// Which changed files trigger the check.
    pub file_matcher: FileMatcher,
    /// The commands that must all have run after the last matching write.
    pub required_commands: Vec<CommandRule>,
    /// The failure reason up to the comma-joined list of missing commands.
    pub missing_prefix: String,
}

/// A tool name that denotes a file write.
pub open spec fn is_write_tool(name: Seq<char>) -> bool {
    name == "Edit"@ || name == "Write"@
}

/// An event that wrote a file selected by the matcher.
pub open spec fn matcher_write_event(m: FileMatcher, e: ToolUseEventView) -> bool {
    is_write_tool(e.tool_name) && match e.file_path {
        Some(p) => m.matches_spec(p),
        None => false,
    }
}

/// The highest chronological index of a write to a matching file, if any
/// such write occurred.
pub open spec fn matcher_last_write(m: FileMatcher, events: Seq<ToolUseEventView>) -> Option<int>
    decreases events.len(),
{
    if events.len() == 0 {
        None
    } else {
        let rest = matcher_last_write(m, events.drop_last());
        if matcher_write_event(m, events.last()) {
            match rest {
                None => Some(events.last().index),
                Some(t) => Some(
                    if events.last().index > t {
                        events.last().index
                    } else {
                        t
                    },
                ),
            }
        } else {
            rest
        }
    }
}

/// An index lies after the write threshold; with no threshold every index
/// qualifies.
pub open spec fn beyond(threshold: Option<int>, idx: int) -> bool {
    match threshold {
        None => true,
        Some(t) => idx > t,
    }
}

/// An event that executed a shell command.
pub open spec fn is_command_event(e: ToolUseEventView) -> bool {
    e.tool_name == "Bash"@ && e.command is Some
}

/// The command text holds at least one of the given substrings.
pub open spec fn command_matches_any(cmd: Seq<char>, patterns: Seq<Seq<char>>) -> bool {
    exists|j: int| 0 <= j < patterns.len() && contains_seq(cmd, #[trigger] patterns[j])
}

/// Some shell command holding one of the rule's substrings ran after the
/// write threshold.
pub open spec fn rule_satisfied(
    rule: CommandRuleView,
    events: Seq<ToolUseEventView>,
    threshold: Option<int>,
) -> bool {
    exists|k: int|
        0 <= k < events.len() && is_command_event(#[trigger] events[k]) && command_matches_any(
            events[k].command->Some_0,
            rule.patterns,
        ) && beyond(threshold, events[k].index)
}

/// The names of the rules with no qualifying post-edit command, in
/// declaration order.
pub open spec fn missing_rule_names(
    rules: Seq<CommandRuleView>,
    events: Seq<ToolUseEventView>,
    threshold: Option<int>,
) -> Seq<Seq<char>>
    decreases rules.len(),
{
    if rules.len() == 0 {
        Seq::empty()
    } else {
        let rest = missing_rule_names(rules.drop_last(), events, threshold);
        if rule_satisfied(rules.last(), events, threshold) {
            rest
        } else {
            rest.push(rules.last().name)
        }
    }
}

/// Some changed file is selected by the matcher.
pub open spec fn any_matching_changed(m: FileMatcher, changed: Seq<Seq<char>>) -> bool {
    exists|i: int| 0 <= i < changed.len() && m.matches_spec(#[trigger] changed[i])
}

/// Find the highest index of a write event to a file the matcher selects.
#[verifier::loop_isolation(false)]
fn find_last_write(m: FileMatcher, events: &Vec<ToolUseEvent>) -> (r: Option<usize>)
    ensures
        match matcher_last_write(m, events.deep_view()) {
            None => r is None,
            Some(t) => r matches Some(c) && c as int == t,
        },
{
    let mut cur: Option<usize> = None;
    let mut i: usize = 0;
    while i < events.len()
        invariant
            i <= events.len(),
            match matcher_last_write(m, events.deep_view().take(i as int)) {
                None => cur is None,
                Some(t) => cur matches Some(c) && c as int == t,
            },
        decreases events.len() - i,
    {
        proof {
            let dv = events.deep_view();
            assert(dv.take(i + 1).drop_last() =~= dv.take(i as int));
            assert(dv.take(i + 1).last() == dv[i as int]);
            assert(dv[i as int] == events[i as int]@);
        }
        let e = &events[i];
        let is_write = str_eq(e.tool_name.as_str(), "Edit") || str_eq(
            e.tool_name.as_str(),
            "Write",
        );
        let path_hits = match &e.file_path {
            Some(p) => m.matches(p.as_str()),
            None => false,
        };
        if is_write && path_hits {
            cur = match cur {
                None => Some(e.index),
                Some(t) => if e.index > t {
                    Some(e.index)
                } else {
                    Some(t)
                },
            };
        }
        i += 1;
    }
    proof {
        assert(events.deep_view().take(events.len() as int) =~= events.deep_view());
    }
    cur
}

/// Whether some shell command holding one of `rule`'s substrings ran
/// after the threshold.
#[verifier::loop_isolation(false)]
fn rule_was_satisfied(rule: &CommandRule, events: &Vec<ToolUseEvent>, threshold: &Option<usize>) -> (r:
    bool)
    ensures
        r == rule_satisfied(rule@, events.deep_view(), threshold_of(*threshold)),
{
    let mut k: usize = 0;
    while k < events.len()
        invariant
            k <= events.len(),
            forall|k2: int|
                0 <= k2 < k ==> !(is_command_event(#[trigger] events.deep_view()[k2])
                    && command_matches_any(
                    events.deep_view()[k2].command->Some_0,
                    rule@.patterns,
                ) && beyond(threshold_of(*threshold), events.deep_view()[k2].index)),
        decreases events.len() - k,
    {
        proof {
            assert(events.deep_view()[k as int] == events[k as int]@);
        }
        let e = &events[k];
        if str_eq(e.tool_name.as_str(), "Bash") {
            match &e.command {
                Some(cmd) => {
                    let in_window = match threshold {
                        None => true,
                        Some(t) => e.index > *t,
                    };
                    if in_window {
                        let mut j: usize = 0;
                        while j < rule.patterns.len()
                            invariant
                                j <= rule.patterns.len(),
                                forall|j2: int|
                                    0 <= j2 < j ==> !contains_seq(
                                        cmd@,
                                        #[trigger] rule@.patterns[j2],
                                    ),
                            decreases rule.patterns.len() - j,
                        {
                            proof {
                                assert(rule@.patterns[j as int] == rule.patterns[j as int]@);
                            }
                            if contains_str(cmd.as_str(), rule.patterns[j].as_str()) {
                                proof {
                                    assert(command_matches_any(cmd@, rule@.patterns));
                                    assert(is_command_event(events.deep_view()[k as int]));
                                }
                                return true;
                            }
                            j += 1;
                        }
                        assert(!command_matches_any(cmd@, rule@.patterns));
                    }
                },
                None => {},
            }
        }
        k += 1;
    }
    false
}

/// The exec threshold as the spec-level option over `int`.
pub open spec fn threshold_of(t: Option<usize>) -> Option<int> {
    match t {
        None => None,
        Some(v) => Some(v as int),
    }
}

/// Check whether the required commands were run after matching files
/// changed. Returns the failure reason if the check blocks, and nothing
/// if it passes: either no matching file changed, or every required
/// command has a qualifying run after the last matching write.
#[verifier::loop_isolation(false)]
pub fn check_commands_after_changes(
    changed_files: &Vec<String>,
    events: &Vec<ToolUseEvent>,
    config: &FileChangeCheck,
) -> (r: Option<String>)
    ensures
        ({
            let threshold = matcher_last_write(config.file_matcher, events.deep_view());
            let missing = missing_rule_names(
                config.required_commands.deep_view(),
                events.deep_view(),
                threshold,
            );
            &&& (r is Some <==> (any_matching_changed(
                config.file_matcher,
                changed_files.deep_view(),
            ) && missing.len() > 0))
            &&& match r {
                Some(msg) => msg@ == config.missing_prefix@ + join_seq(missing, ", "@),
                None => true,
            }
        }),
{
    let mut any_changed = false;
    let mut i: usize = 0;
    while i < changed_files.len()
        invariant
            i <= changed_files.len(),
            any_changed == any_matching_changed(
                config.file_matcher,
                changed_files.deep_view().take(i as int),
            ),
        decreases changed_files.len() - i,
    {
        proof {
            let dv = changed_files.deep_view();
            assert(dv.take(i + 1).drop_last() =~= dv.take(i as int));
            assert(dv[i as int] == changed_files[i as int]@);
            assert(forall|x: int| 0 <= x < i ==> dv.take(i as int)[x] == dv[x]);
            assert(forall|x: int| 0 <= x < i + 1 ==> dv.take(i + 1)[x] == dv[x]);
        }
        if config.file_matcher.matches(changed_files[i].as_str()) {
            any_changed = true;
            proof {
                let dv = changed_files.deep_view();
                assert(dv.take(i + 1)[i as int] == dv[i as int]);
            }
        }
        i += 1;
    }
    proof {
        assert(changed_files.deep_view().take(changed_files.len() as int)
            =~= changed_files.deep_view());
    }
    if !any_changed {
        return None;
    }
    let threshold = find_last_write(config.file_matcher, events);
    let mut missing: Vec<String> = Vec::new();
    let ghost spec_threshold = matcher_last_write(config.file_matcher, events.deep_view());
    proof {
        assert(threshold_of(threshold) == spec_threshold);
    }
    let mut j: usize = 0;
    while j < config.required_commands.len()
        invariant
            j <= config.required_commands.len(),
            threshold_of(threshold) == spec_threshold,
            missing.deep_view() == missing_rule_names(
                config.required_commands.deep_view().take(j as int),
                events.deep_view(),
                spec_threshold,
            ),
        decreases config.required_commands.len() - j,
    {
        proof {
            let dv = config.required_commands.deep_view();
            assert(dv.take(j + 1).drop_last() =~= dv.take(j as int));
            assert(dv.take(j + 1).last() == dv[j as int]);
            assert(dv[j as int] == config.required_commands[j as int]@);
        }
        let rule = &config.required_commands[j];
        if !rule_was_satisfied(rule, events, &threshold) {
            missing.push(rule.name.clone());
        }
        proof {
            assert(missing.deep_view() =~= missing_rule_names(
                config.required_commands.deep_view().take(j + 1),
                events.deep_view(),
                spec_threshold,
            ));
        }
        j += 1;
    }
    proof {
        assert(config.required_commands.deep_view().take(config.required_commands.len() as int)
            =~= config.required_commands.deep_view());
    }
    if missing.len() == 0 {
        None
    } else {
        let mut msg = config.missing_prefix.clone();
        let joined = join_strings(&missing, ", ");
        msg.append(joined.as_str());
        Some(msg)
    }
}

} // verus!
