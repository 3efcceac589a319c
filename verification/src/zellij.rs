//! The pane-state indicator: spinner frames, state glyphs, per-session
//! marker paths, and deriving a tab name from the working directory.
//! The surrounding binary does the file probes and runs the terminal
//! multiplexer; everything here is pure computation.

use vstd::prelude::*;
use vstd::string::StringExecFns;
use crate::strutil::basename;
use crate::strutil::basename_seq;
use crate::strutil::split_char;
use crate::strutil::split_on;
use crate::strutil::strip_prefix_seq;
use crate::strutil::strip_path_prefix;

verus! {

/// How many frames the spinner cycles through.
pub const SPINNER_FRAME_COUNT: usize = 10;

/// The spinner glyph for each frame index.
pub open spec fn spinner_frame_spec(i: int) -> Seq<char> {
    if i == 0 {
        "⠋"@
    } else if i == 1 {
        "⠙"@
    } else if i == 2 {
        "⠹"@
    } else if i == 3 {
        "⠸"@
    } else if i == 4 {
        "⠼"@
    } else if i == 5 {
        "⠴"@
    } else if i == 6 {
        "⠦"@
    } else if i == 7 {
        "⠧"@
    } else if i == 8 {
        "⠇"@
    } else {
        "⠏"@
    }
}

/// The spinner glyph for frame `i`.
pub fn spinner_frame(i: usize) -> (r: &'static str)
    requires
        i < SPINNER_FRAME_COUNT,
    ensures
        r@ == spinner_frame_spec(i as int),
{
    match i {
        0 => "⠋",
        1 => "⠙",
        2 => "⠹",
        3 => "⠸",
        4 => "⠼",
        5 => "⠴",
        6 => "⠦",
        7 => "⠧",
        8 => "⠇",
        _ => "⠏",
    }
}

/// The frame index following `i`, wrapping at the cycle length.
pub fn next_spinner_index(i: usize) -> (r: usize)
    requires
        i < SPINNER_FRAME_COUNT,
    ensures
        r == (i + 1) % (SPINNER_FRAME_COUNT as int),
        r < SPINNER_FRAME_COUNT,
{
    (i + 1) % SPINNER_FRAME_COUNT
}

/// The glyph shown while a question awaits an answer: all eight dots.
pub fn asking_char() -> (r: &'static str)
    ensures
        r@ == "⣿"@,
{
    "⣿"
}

/// The glyph shown when the session stopped normally: the four-dot
/// square.
pub fn done_char() -> (r: &'static str)
    ensures
        r@ == "⠶"@,
{
    "⠶"
}

/// State of the agent's pane, for visual indication.
#[derive(Debug, Clone, Copy)]
pub enum PaneState {
    /// The agent stopped normally - ready for review.
    Stopped,
    /// The agent is asking a question.
    AskingQuestion,
    /// The user resumed - back to the working indicator.
    Active,
}

impl PaneState {
    /// The state's display name.
    pub open spec fn name_spec(&self) -> Seq<char> {
        match self {
            PaneState::Stopped => "Stopped"@,
            PaneState::AskingQuestion => "AskingQuestion"@,
            PaneState::Active => "Active"@,
        }
    }

    /// The state's display name.
    pub fn name(&self) -> (r: &'static str)
        ensures
            r@ == self.name_spec(),
    {
        match self {
            PaneState::Stopped => "Stopped",
            PaneState::AskingQuestion => "AskingQuestion",
            PaneState::Active => "Active",
        }
    }
}

/// The spinner state file for a session.
pub fn spinner_state_path(session_id: &str) -> (r: String)
    ensures
        r@ == "/tmp/rufio-spinner-"@ + session_id@,
{
    let mut p = "/tmp/rufio-spinner-".to_owned();
    p.append(session_id);
    p
}

/// The marker file recording that a question was just asked.
pub fn asking_marker_path(session_id: &str) -> (r: String)
    ensures
        r@ == "/tmp/rufio-asking-"@ + session_id@,
{
    let mut p = "/tmp/rufio-asking-".to_owned();
    p.append(session_id);
    p
}

/// The session-specific log file.
pub fn log_file_path(session_id: &str) -> (r: String)
    ensures
        r@ == "/tmp/rufio-"@ + session_id@ + ".txt"@,
{
    let mut p = "/tmp/rufio-".to_owned();
    p.append(session_id);
    p.append(".txt");
    p
}

/// The pieces of `ls` that are not empty, in order.
pub open spec fn nonempty_pieces(ls: Seq<Seq<char>>) -> Seq<Seq<char>>
    decreases ls.len(),
{
    if ls.len() == 0 {
        Seq::empty()
    } else {
        let rest = nonempty_pieces(ls.drop_last());
        if ls.last().len() > 0 {
            rest.push(ls.last())
        } else {
            rest
        }
    }
}

/// The non-empty path components of `rel`.
pub open spec fn components_spec(rel: Seq<char>) -> Seq<Seq<char>> {
    nonempty_pieces(split_on(rel, '/'))
}

/// Split a relative path into its non-empty components.
#[verifier::loop_isolation(false)]
fn components(rel: &str) -> (r: Vec<String>)
    ensures
        r.deep_view() == components_spec(rel@),
{
    let pieces = split_char(rel, '/');
    let mut r: Vec<String> = Vec::new();
    let mut i: usize = 0;
    while i < pieces.len()
        invariant
            i <= pieces.len(),
            r.deep_view() == nonempty_pieces(pieces.deep_view().take(i as int)),
        decreases pieces.len() - i,
    {
        proof {
            let pv = pieces.deep_view();
            assert(pv.take(i + 1).drop_last() =~= pv.take(i as int));
            assert(pv.take(i + 1).last() == pv[i as int]);
            assert(pv[i as int] == pieces[i as int]@);
        }
        if !pieces[i].as_str().is_empty() {
            r.push(pieces[i].clone());
        }
        proof {
            assert(r.deep_view() =~= nonempty_pieces(pieces.deep_view().take(i + 1)));
        }
        i += 1;
    }
    proof {
        assert(pieces.deep_view().take(pieces.len() as int) =~= pieces.deep_view());
    }
    r
}

/// The last path component, or the fixed fallback when there is none.
pub open spec fn fallback_name(cwd: Seq<char>) -> Seq<char> {
    if basename_seq(cwd).len() == 0 {
        "agent"@
    } else {
        basename_seq(cwd)
    }
}

/// The branch name when `cwd` lies under the worktree directory of the
/// user's home: the first component below it.
pub open spec fn tree_branch_name(cwd: Seq<char>, home: Seq<char>) -> Option<Seq<char>> {
    match strip_prefix_seq(cwd, home + "/.meow/trees"@) {
        Some(rel) => {
            let cs = components_spec(rel);
            if cs.len() >= 1 {
                Some(cs[0])
            } else {
                None
            }
        },
        None => None,
    }
}

/// The project name when `cwd` lies under the source directory of the
/// user's home: the second component below it when nested one level
/// (as in a grouped layout), else the first.
pub open spec fn src_project_name(cwd: Seq<char>, home: Seq<char>) -> Option<Seq<char>> {
    match strip_prefix_seq(cwd, home + "/src"@) {
        Some(rel) => {
            let cs = components_spec(rel);
            if cs.len() >= 2 {
                Some(cs[1])
            } else if cs.len() == 1 {
                Some(cs[0])
            } else {
                None
            }
        },
        None => None,
    }
}

/// The tab name derived from the working directory: a worktree branch
/// name, a source-tree project name, or the last path component.
pub open spec fn derived_name(cwd: Seq<char>, home: Option<Seq<char>>) -> Seq<char> {
    match home {
        Some(h) => match tree_branch_name(cwd, h) {
            Some(n) => n,
            None => match src_project_name(cwd, h) {
                Some(n) => n,
                None => fallback_name(cwd),
            },
        },
        None => fallback_name(cwd),
    }
}

/// The last path component of `cwd`, or the fixed fallback.
fn fallback_tab_name(cwd: &str) -> (r: String)
    ensures
        r@ == fallback_name(cwd@),
{
    let b = basename(cwd);
    if b.is_empty() {
        "agent".to_owned()
    } else {
        b.to_owned()
    }
}

/// Derive the tab name from the working directory and the user's home
/// directory, when one is known.
pub fn derive_name_from_cwd(cwd: &str, home: Option<&str>) -> (r: String)
    ensures
        ({
            let h = match home {
                Some(s) => Some(s@),
                None => None,
            };
            r@ == derived_name(cwd@, h)
        }),
{
    match home {
        Some(h) => {
            let mut trees = h.to_owned();
            trees.append("/.meow/trees");
            match strip_path_prefix(cwd, trees.as_str()) {
                Some(rel) => {
                    let cs = components(rel.as_str());
                    if cs.len() >= 1 {
                        proof {
                            assert(cs.deep_view()[0] == cs[0]@);
                        }
                        return cs[0].clone();
                    }
                },
                None => {},
            }
            let mut srcd = h.to_owned();
            srcd.append("/src");
            match strip_path_prefix(cwd, srcd.as_str()) {
                Some(rel) => {
                    let cs = components(rel.as_str());
                    if cs.len() >= 2 {
                        proof {
                            assert(cs.deep_view()[1] == cs[1]@);
                        }
                        return cs[1].clone();
                    }
                    if cs.len() == 1 {
                        proof {
                            assert(cs.deep_view()[0] == cs[0]@);
                        }
                        return cs[0].clone();
                    }
                },
                None => {},
            }
            fallback_tab_name(cwd)
        },
        None => fallback_tab_name(cwd),
    }
}

/// The tab title: the state glyph, a space, and the derived name.
pub fn tab_title(prefix: &str, name: &str) -> (r: String)
    ensures
        r@ == prefix@ + " "@ + name@,
{
    let mut t = prefix.to_owned();
    t.append(" ");
    t.append(name);
    t
}

/// The rename request handed to the terminal multiplexer's plugin:
/// a JSON object naming the pane and its new title.
pub fn rename_payload(pane_id: &str, title: &str) -> (r: String)
    ensures
        r@ == "{\"pane_id\": \""@ + pane_id@ + "\", \"name\": \""@ + title@ + "\"}"@,
{
    let mut p = "{\"pane_id\": \"".to_owned();
    p.append(pane_id);
    p.append("\", \"name\": \"");
    p.append(title);
    p.append("\"}");
    p
}

} // verus!
