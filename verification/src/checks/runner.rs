//! The check engine: evaluate every resolved check against the changed
//! files and the event log, producing one pass or fail-with-reason result
//! per check.

use vstd::prelude::*;
use vstd::string::StringExecFns;
use crate::checks::common::beyond;
use crate::checks::common::is_command_event;
use crate::checks::common::is_write_tool;
use crate::checks::common::threshold_of;
use crate::config::Check;
use crate::config::CheckView;
use crate::config::LoadedConfig;
use crate::pattern::CompiledPattern;
use crate::pattern::file_matches;
use crate::pattern::file_matches_pattern;
use crate::pattern::glob_pattern_ok;
use crate::strutil::contains_seq;
use crate::strutil::contains_str;
use crate::strutil::ends_with;
use crate::strutil::ends_with_seq;
use crate::strutil::join_seq;
use crate::strutil::join_strings;
use crate::strutil::str_eq;
use crate::transcript::ToolUseEvent;
use crate::transcript::ToolUseEventView;

verus! {

/// Result of running a single check.
#[derive(Debug)]
pub struct CheckResult {
    pub check_name: String,
    pub reason: Option<String>,
}

/// Some changed file matches the trigger pattern, as a whole path or by
/// its bare filename.
pub open spec fn any_file_matches(pat: Seq<char>, changed: Seq<Seq<char>>) -> bool {
    exists|i: int| 0 <= i < changed.len() && file_matches(pat, #[trigger] changed[i])
}

/// An event that wrote a file matching the trigger pattern.
pub open spec fn glob_write_event(pat: Seq<char>, e: ToolUseEventView) -> bool {
    is_write_tool(e.tool_name) && match e.file_path {
        Some(p) => file_matches(pat, p),
        None => false,
    }
}

/// The highest chronological index of a write to a file matching the
/// trigger pattern, if any such write occurred.
pub open spec fn glob_last_write(pat: Seq<char>, events: Seq<ToolUseEventView>) -> Option<int>
    decreases events.len(),
{
    if events.len() == 0 {
        None
    } else {
        let rest = glob_last_write(pat, events.drop_last());
        if glob_write_event(pat, events.last()) {
            match rest {
                None => Some(events.last().index),
                Some(t) => Some(
                    if events.last().index > t {
                        events.last().index
                    } else {
                        t
                    },
                ),
            }
        } else {
            rest
        }
    }
}

/// Some shell command holding `cmd` as a substring ran after the write
/// threshold.
pub open spec fn command_satisfied(
    cmd: Seq<char>,
    events: Seq<ToolUseEventView>,
    threshold: Option<int>,
) -> bool {
    exists|k: int|
        0 <= k < events.len() && is_command_event(#[trigger] events[k]) && contains_seq(
            events[k].command->Some_0,
            cmd,
        ) && beyond(threshold, events[k].index)
}

/// The required command patterns with no qualifying post-edit run, in
/// declaration order.
pub open spec fn missing_commands(
    cmds: Seq<Seq<char>>,
    events: Seq<ToolUseEventView>,
    threshold: Option<int>,
) -> Seq<Seq<char>>
    decreases cmds.len(),
{
    if cmds.len() == 0 {
        Seq::empty()
    } else {
        let rest = missing_commands(cmds.drop_last(), events, threshold);
        if command_satisfied(cmds.last(), events, threshold) {
            rest
        } else {
            rest.push(cmds.last())
        }
    }
}

/// The changed-file set holds `req`, verbatim or as a path-separator
/// bounded suffix.
pub open spec fn path_satisfied(req: Seq<char>, changed: Seq<Seq<char>>) -> bool {
    exists|i: int|
        0 <= i < changed.len() && (#[trigger] changed[i] == req || ends_with_seq(
            changed[i],
            "/"@ + req,
        ))
}

/// At least one of the required paths appears in the changed-file set.
pub open spec fn any_path_satisfied(reqs: Seq<Seq<char>>, changed: Seq<Seq<char>>) -> bool {
    exists|j: int| 0 <= j < reqs.len() && path_satisfied(#[trigger] reqs[j], changed)
}

/// The failure reason when the trigger pattern does not compile.
pub open spec fn invalid_pattern_reason(pat: Seq<char>, name: Seq<char>) -> Seq<char> {
    "Invalid glob pattern '"@ + pat + "' in check '"@ + name + "'"@
}

/// The failure reason listing the commands not run after the last edit.
pub open spec fn commands_reason(name: Seq<char>, missing: Seq<Seq<char>>) -> Seq<char> {
    "["@ + name + "] Required commands not run after last edit: "@ + join_seq(missing, ", "@)
}

/// The failure reason listing all the required paths of the check.
pub open spec fn changed_reason(name: Seq<char>, reqs: Seq<Seq<char>>) -> Seq<char> {
    "["@ + name + "] Required files not modified: "@ + join_seq(reqs, ", "@)
}

/// The outcome one check owes: nothing when it passes, the reason when
/// it fails. `gate` reports whether the check's `path_exists` condition
/// held (always true when the check has none).
pub open spec fn check_reason(
    c: CheckView,
    gate: bool,
    changed: Seq<Seq<char>>,
    events: Seq<ToolUseEventView>,
) -> Option<Seq<char>> {
    if !gate {
        None
    } else if !glob_pattern_ok(c.when.paths_changed) {
        Some(invalid_pattern_reason(c.when.paths_changed, c.name))
    } else if !any_file_matches(c.when.paths_changed, changed) {
        None
    } else {
        match c.action.ensure_commands {
            Some(cmds) => {
                let missing = missing_commands(
                    cmds,
                    events,
                    glob_last_write(c.when.paths_changed, events),
                );
                if missing.len() == 0 {
                    None
                } else {
                    Some(commands_reason(c.name, missing))
                }
            },
            None => match c.action.ensure_changed {
                Some(reqs) => if any_path_satisfied(reqs, changed) {
                    None
                } else {
                    Some(changed_reason(c.name, reqs))
                },
                None => None,
            },
        }
    }
}

/// A check whose trigger pattern matches no changed file passes, whatever
/// the event log holds: its outcome does not depend on the events at all.
pub proof fn lemma_untriggered_check_passes(
    c: CheckView,
    gate: bool,
    changed: Seq<Seq<char>>,
    events1: Seq<ToolUseEventView>,
    events2: Seq<ToolUseEventView>,
)
    requires
        forall|i: int|
            0 <= i < changed.len() ==> !file_matches(c.when.paths_changed, #[trigger] changed[i]),
    ensures
        glob_pattern_ok(c.when.paths_changed) ==> check_reason(c, gate, changed, events1) is None,
        check_reason(c, gate, changed, events1) == check_reason(c, gate, changed, events2),
{
}

/// With no write event matching the pattern, there is no write threshold.
proof fn lemma_no_matching_write(pat: Seq<char>, events: Seq<ToolUseEventView>)
    requires
        forall|k: int| 0 <= k < events.len() ==> !glob_write_event(pat, #[trigger] events[k]),
    ensures
        glob_last_write(pat, events) is None,
    decreases events.len(),
{
    if events.len() > 0 {
        assert(forall|k: int|
            0 <= k < events.len() - 1 ==> events.drop_last()[k] == events[k]);
        lemma_no_matching_write(pat, events.drop_last());
    }
}

/// With exactly one write event matching the pattern, the write threshold
/// is that event's index.
proof fn lemma_single_write_threshold(pat: Seq<char>, events: Seq<ToolUseEventView>, w: int)
    requires
        0 <= w < events.len(),
        glob_write_event(pat, events[w]),
        forall|k: int|
            0 <= k < events.len() && k != w ==> !glob_write_event(pat, #[trigger] events[k]),
    ensures
        glob_last_write(pat, events) == Some(events[w].index),
    decreases events.len(),
{
    assert(forall|k: int| 0 <= k < events.len() - 1 ==> events.drop_last()[k] == events[k]);
    if w == events.len() - 1 {
        lemma_no_matching_write(pat, events.drop_last());
    } else {
        lemma_single_write_threshold(pat, events.drop_last(), w);
    }
}

/// The ordering law: given exactly one write event matching the pattern,
/// at index `i`, and exactly one command event holding the required
/// substring, at index `j`, the requirement is satisfied precisely when
/// `j` is greater than `i`.
pub proof fn lemma_command_ordering(
    pat: Seq<char>,
    events: Seq<ToolUseEventView>,
    w: int,
    b: int,
    cmd: Seq<char>,
)
    requires
        0 <= w < events.len(),
        0 <= b < events.len(),
        glob_write_event(pat, events[w]),
        forall|k: int|
            0 <= k < events.len() && k != w ==> !glob_write_event(pat, #[trigger] events[k]),
        is_command_event(events[b]),
        contains_seq(events[b].command->Some_0, cmd),
        forall|k: int|
            0 <= k < events.len() && k != b ==> !(is_command_event(#[trigger] events[k])
                && contains_seq(events[k].command->Some_0, cmd)),
    ensures
        command_satisfied(cmd, events, glob_last_write(pat, events)) <==> events[b].index
            > events[w].index,
{
    lemma_single_write_threshold(pat, events, w);
    if events[b].index > events[w].index {
        assert(beyond(glob_last_write(pat, events), events[b].index));
    }
}

/// The ordering law with no write event: absence of a matching write is
/// no lower bound, so a lone command event at any index satisfies the
/// requirement.
pub proof fn lemma_command_ordering_no_write(
    pat: Seq<char>,
    events: Seq<ToolUseEventView>,
    b: int,
    cmd: Seq<char>,
)
    requires
        0 <= b < events.len(),
        forall|k: int| 0 <= k < events.len() ==> !glob_write_event(pat, #[trigger] events[k]),
        is_command_event(events[b]),
        contains_seq(events[b].command->Some_0, cmd),
    ensures
        command_satisfied(cmd, events, glob_last_write(pat, events)),
{
    lemma_no_matching_write(pat, events);
    assert(beyond(glob_last_write(pat, events), events[b].index));
}

/// The missing-commands law: the missing list holds exactly the required
/// commands with no qualifying post-edit run, in declaration order, and
/// is empty precisely when every required command is satisfied.
pub proof fn lemma_missing_commands_exact(
    cmds: Seq<Seq<char>>,
    events: Seq<ToolUseEventView>,
    threshold: Option<int>,
)
    ensures
        missing_commands(cmds, events, threshold) == cmds.filter(
            |c: Seq<char>| !command_satisfied(c, events, threshold),
        ),
        missing_commands(cmds, events, threshold).len() == 0 <==> (forall|j: int|
            0 <= j < cmds.len() ==> command_satisfied(#[trigger] cmds[j], events, threshold)),
    decreases cmds.len(),
{
    reveal(Seq::filter);
    if cmds.len() > 0 {
        lemma_missing_commands_exact(cmds.drop_last(), events, threshold);
        assert(forall|j: int| 0 <= j < cmds.len() - 1 ==> cmds.drop_last()[j] == cmds[j]);
        assert(cmds.last() == cmds[cmds.len() - 1]);
    }
}

/// The changed-path law: a triggered `ensure_changed` check passes
/// precisely when at least one required path is present in the
/// changed-file set, exactly or as a path-separator-bounded suffix, and
/// its failure reason lists all the required paths.
pub proof fn lemma_changed_paths_law(
    c: CheckView,
    changed: Seq<Seq<char>>,
    events: Seq<ToolUseEventView>,
    reqs: Seq<Seq<char>>,
)
    requires
        glob_pattern_ok(c.when.paths_changed),
        any_file_matches(c.when.paths_changed, changed),
        c.action.ensure_commands is None,
        c.action.ensure_changed == Some(reqs),
    ensures
        check_reason(c, true, changed, events) is None <==> any_path_satisfied(reqs, changed),
        !any_path_satisfied(reqs, changed) ==> check_reason(c, true, changed, events) == Some(
            changed_reason(c.name, reqs),
        ),
{
}

/// Find the highest index of a write event to a file the pattern matches.
#[verifier::loop_isolation(false)]
fn glob_find_last_write(pattern: &CompiledPattern, events: &Vec<ToolUseEvent>) -> (r: Option<
    usize,
>)
    ensures
        match glob_last_write(pattern@, events.deep_view()) {
            None => r is None,
            Some(t) => r matches Some(c) && c as int == t,
        },
{
    let mut cur: Option<usize> = None;
    let mut i: usize = 0;
    while i < events.len()
        invariant
            i <= events.len(),
            match glob_last_write(pattern@, events.deep_view().take(i as int)) {
                None => cur is None,
                Some(t) => cur matches Some(c) && c as int == t,
            },
        decreases events.len() - i,
    {
        proof {
            let dv = events.deep_view();
            assert(dv.take(i + 1).drop_last() =~= dv.take(i as int));
            assert(dv.take(i + 1).last() == dv[i as int]);
            assert(dv[i as int] == events[i as int]@);
        }
        let e = &events[i];
        let is_write = str_eq(e.tool_name.as_str(), "Edit") || str_eq(
            e.tool_name.as_str(),
            "Write",
        );
        let path_hits = match &e.file_path {
            Some(p) => file_matches_pattern(p.as_str(), pattern),
            None => false,
        };
        if is_write && path_hits {
            cur = match cur {
                None => Some(e.index),
                Some(t) => if e.index > t {
                    Some(e.index)
                } else {
                    Some(t)
                },
            };
        }
        i += 1;
    }
    proof {
        assert(events.deep_view().take(events.len() as int) =~= events.deep_view());
    }
    cur
}

/// Whether a shell command holding `cmd` ran after the threshold.
#[verifier::loop_isolation(false)]
fn command_was_run(cmd: &str, events: &Vec<ToolUseEvent>, threshold: &Option<usize>) -> (r: bool)
    ensures
        r == command_satisfied(cmd@, events.deep_view(), threshold_of(*threshold)),
{
    let mut k: usize = 0;
    while k < events.len()
        invariant
            k <= events.len(),
            forall|k2: int|
                0 <= k2 < k ==> !(is_command_event(#[trigger] events.deep_view()[k2])
                    && contains_seq(events.deep_view()[k2].command->Some_0, cmd@) && beyond(
                    threshold_of(*threshold),
                    events.deep_view()[k2].index,
                )),
        decreases events.len() - k,
    {
        proof {
            assert(events.deep_view()[k as int] == events[k as int]@);
        }
        let e = &events[k];
        if str_eq(e.tool_name.as_str(), "Bash") {
            match &e.command {
                Some(c) => {
                    let in_window = match threshold {
                        None => true,
                        Some(t) => e.index > *t,
                    };
                    if in_window && contains_str(c.as_str(), cmd) {
                        return true;
                    }
                },
                None => {},
            }
        }
        k += 1;
    }
    false
}

/// Evaluate an `ensure_commands` action: every required command must
/// have a run after the last matching write; the failure reason lists
/// the missing ones in declaration order.
#[verifier::loop_isolation(false)]
fn check_ensure_commands(
    check: &Check,
    pattern: &CompiledPattern,
    required_commands: &Vec<String>,
    events: &Vec<ToolUseEvent>,
) -> (r: CheckResult)
    requires
        pattern@ == check@.when.paths_changed,
    ensures
        r.check_name@ == check@.name,
        ({
            let missing = missing_commands(
                required_commands.deep_view(),
                events.deep_view(),
                glob_last_write(check@.when.paths_changed, events.deep_view()),
            );
            &&& (r.reason is Some <==> missing.len() > 0)
            &&& match r.reason {
                Some(m) => m@ == commands_reason(check@.name, missing),
                None => true,
            }
        }),
{
    let threshold = glob_find_last_write(pattern, events);
    let ghost spec_threshold = glob_last_write(check@.when.paths_changed, events.deep_view());
    proof {
        assert(threshold_of(threshold) == spec_threshold);
    }
    let mut missing: Vec<String> = Vec::new();
    let mut j: usize = 0;
    while j < required_commands.len()
        invariant
            j <= required_commands.len(),
            missing.deep_view() == missing_commands(
                required_commands.deep_view().take(j as int),
                events.deep_view(),
                spec_threshold,
            ),
        decreases required_commands.len() - j,
    {
        proof {
            let dv = required_commands.deep_view();
            assert(dv.take(j + 1).drop_last() =~= dv.take(j as int));
            assert(dv.take(j + 1).last() == dv[j as int]);
            assert(dv[j as int] == required_commands[j as int]@);
        }
        let cmd = &required_commands[j];
        if !command_was_run(cmd.as_str(), events, &threshold) {
            missing.push(cmd.clone());
        }
        proof {
            assert(missing.deep_view() =~= missing_commands(
                required_commands.deep_view().take(j + 1),
                events.deep_view(),
                spec_threshold,
            ));
        }
        j += 1;
    }
    proof {
        assert(required_commands.deep_view().take(required_commands.len() as int)
            =~= required_commands.deep_view());
    }
    if missing.len() == 0 {
        CheckResult { check_name: check.name.clone(), reason: None }
    } else {
        let mut msg = "[".to_owned();
        msg.append(check.name.as_str());
        msg.append("] Required commands not run after last edit: ");
        let joined = join_strings(&missing, ", ");
        msg.append(joined.as_str());
        CheckResult { check_name: check.name.clone(), reason: Some(msg) }
    }
}

/// Evaluate an `ensure_changed` action: at least one required path must
/// appear in the changed-file set; the failure reason lists all the
/// required paths.
#[verifier::loop_isolation(false)]
fn check_ensure_changed(
    check: &Check,
    required_paths: &Vec<String>,
    changed_files: &Vec<String>,
) -> (r: CheckResult)
    ensures
        r.check_name@ == check@.name,
        (r.reason is Some <==> !any_path_satisfied(
            required_paths.deep_view(),
            changed_files.deep_view(),
        )),
        match r.reason {
            Some(m) => m@ == changed_reason(check@.name, required_paths.deep_view()),
            None => true,
        },
{
    let mut j: usize = 0;
    while j < required_paths.len()
        invariant
            j <= required_paths.len(),
            forall|j2: int|
                0 <= j2 < j ==> !path_satisfied(
                    #[trigger] required_paths.deep_view()[j2],
                    changed_files.deep_view(),
                ),
        decreases required_paths.len() - j,
    {
        proof {
            assert(required_paths.deep_view()[j as int] == required_paths[j as int]@);
        }
        let req = &required_paths[j];
        let mut suffix = "/".to_owned();
        suffix.append(req.as_str());
        let mut i: usize = 0;
        while i < changed_files.len()
            invariant
                i <= changed_files.len(),
                suffix@ == "/"@ + req@,
                forall|i2: int|
                    0 <= i2 < i ==> !(#[trigger] changed_files.deep_view()[i2] == req@
                        || ends_with_seq(changed_files.deep_view()[i2], "/"@ + req@)),
            decreases changed_files.len() - i,
        {
            proof {
                assert(changed_files.deep_view()[i as int] == changed_files[i as int]@);
            }
            let f = &changed_files[i];
            if str_eq(f.as_str(), req.as_str()) || ends_with(f.as_str(), suffix.as_str()) {
                proof {
                    assert(path_satisfied(req@, changed_files.deep_view()));
                }
                return CheckResult { check_name: check.name.clone(), reason: None };
            }
            i += 1;
        }
        proof {
            assert(!path_satisfied(required_paths.deep_view()[j as int], changed_files.deep_view()));
        }
        j += 1;
    }
    let mut msg = "[".to_owned();
    msg.append(check.name.as_str());
    msg.append("] Required files not modified: ");
    let joined = join_strings(required_paths, ", ");
    msg.append(joined.as_str());
    CheckResult { check_name: check.name.clone(), reason: Some(msg) }
}

/// Run a single check against the changed files and the event log.
/// `gate` reports whether the check's `path_exists` condition held.
#[verifier::loop_isolation(false)]
fn run_single_check(
    check: &Check,
    gate: bool,
    changed_files: &Vec<String>,
    events: &Vec<ToolUseEvent>,
) -> (r: CheckResult)
    ensures
        r.check_name@ == check@.name,
        (r.reason is Some <==> check_reason(
            check@,
            gate,
            changed_files.deep_view(),
            events.deep_view(),
        ) is Some),
        match r.reason {
            Some(m) => Some(m@) == check_reason(
                check@,
                gate,
                changed_files.deep_view(),
                events.deep_view(),
            ),
            None => true,
        },
{
    if !gate {
        return CheckResult { check_name: check.name.clone(), reason: None };
    }
    let pattern = match CompiledPattern::compile(check.when.paths_changed.as_str()) {
        Some(p) => p,
        None => {
            let mut msg = "Invalid glob pattern '".to_owned();
            msg.append(check.when.paths_changed.as_str());
            msg.append("' in check '");
            msg.append(check.name.as_str());
            msg.append("'");
            return CheckResult { check_name: check.name.clone(), reason: Some(msg) };
        },
    };
    let mut any_matching = false;
    let mut i: usize = 0;
    while i < changed_files.len()
        invariant
            i <= changed_files.len(),
            pattern@ == check@.when.paths_changed,
            any_matching == any_file_matches(
                check@.when.paths_changed,
                changed_files.deep_view().take(i as int),
            ),
        decreases changed_files.len() - i,
    {
        proof {
            let dv = changed_files.deep_view();
            assert(dv[i as int] == changed_files[i as int]@);
            assert(forall|x: int| 0 <= x < i + 1 ==> dv.take(i + 1)[x] == dv[x]);
            assert(forall|x: int| 0 <= x < i ==> dv.take(i as int)[x] == dv[x]);
        }
        if file_matches_pattern(changed_files[i].as_str(), &pattern) {
            any_matching = true;
        }
        proof {
            let dv = changed_files.deep_view();
            if !any_matching {
                assert(forall|x: int| 0 <= x < i + 1 && x != i ==> !file_matches(
                    check@.when.paths_changed,
                    #[trigger] dv.take(i + 1)[x],
                ));
            }
        }
        i += 1;
    }
    proof {
        assert(changed_files.deep_view().take(changed_files.len() as int)
            =~= changed_files.deep_view());
    }
    if !any_matching {
        return CheckResult { check_name: check.name.clone(), reason: None };
    }
    match &check.action.ensure_commands {
        Some(commands) => check_ensure_commands(check, &pattern, commands, events),
        None => match &check.action.ensure_changed {
            Some(paths) => check_ensure_changed(check, paths, changed_files),
            None => CheckResult { check_name: check.name.clone(), reason: None },
        },
    }
}

/// Run all checks of a loaded configuration against the changed files
/// and the event log, one result per check, in configuration order.
/// `gates[i]` reports whether check `i`'s `path_exists` condition held
/// at evaluation time; it must be `true` for checks without one.
#[verifier::loop_isolation(false)]
pub fn run_checks(
    loaded: &LoadedConfig,
    changed_files: &Vec<String>,
    events: &Vec<ToolUseEvent>,
    gates: &Vec<bool>,
) -> (results: Vec<CheckResult>)
    requires
        gates.len() == loaded.config.checks.len(),
        forall|i: int|
            0 <= i < gates.len() ==> (loaded.config.checks[i].when.path_exists is None
                ==> gates[i]),
    ensures
        results.len() == loaded.config.checks.len(),
        forall|i: int|
            0 <= i < results.len() ==> (#[trigger] results[i].check_name@
                == loaded.config.checks[i]@.name),
        forall|i: int|
            0 <= i < results.len() ==> (#[trigger] results[i].reason is Some <==> check_reason(
                loaded.config.checks[i]@,
                gates[i],
                changed_files.deep_view(),
                events.deep_view(),
            ) is Some),
        forall|i: int|
            0 <= i < results.len() ==> match #[trigger] results[i].reason {
                Some(m) => Some(m@) == check_reason(
                    loaded.config.checks[i]@,
                    gates[i],
                    changed_files.deep_view(),
                    events.deep_view(),
                ),
                None => true,
            },
{
    let mut results: Vec<CheckResult> = Vec::new();
    let mut i: usize = 0;
    while i < loaded.config.checks.len()
        invariant
            i <= loaded.config.checks.len(),
            results.len() == i,
            forall|x: int|
                0 <= x < i ==> (#[trigger] results[x].check_name@
                    == loaded.config.checks[x]@.name),
            forall|x: int|
                0 <= x < i ==> (#[trigger] results[x].reason is Some <==> check_reason(
                    loaded.config.checks[x]@,
                    gates[x],
                    changed_files.deep_view(),
                    events.deep_view(),
                ) is Some),
            forall|x: int|
                0 <= x < i ==> match #[trigger] results[x].reason {
                    Some(m) => Some(m@) == check_reason(
                        loaded.config.checks[x]@,
                        gates[x],
                        changed_files.deep_view(),
                        events.deep_view(),
                    ),
                    None => true,
                },
        decreases loaded.config.checks.len() - i,
    {
        let result = run_single_check(&loaded.config.checks[i], gates[i], changed_files, events);
        results.push(result);
        i += 1;
    }
    results
}

} // verus!
