//! Session plumbing around the check engine: the project-boundary walk,
//! filtering changed files to the project, decoding the version-control
//! status output, and shaping the hook's blocking reply.

use vstd::prelude::*;
use vstd::string::StrSliceExecFns;
use vstd::string::StringExecFns;
use crate::strutil::join_seq;
use crate::strutil::join_strings;
use crate::strutil::lemma_parent_shorter;
use crate::strutil::parent_dir;
use crate::strutil::parent_seq;
use crate::strutil::split_char;
use crate::strutil::split_on;
use crate::strutil::starts_with;
use crate::strutil::starts_with_seq;
use crate::strutil::str_eq;
use crate::strutil::strip_prefix_seq;
use crate::strutil::strip_path_prefix;

verus! {

/// The directories the project-root search visits: the working
/// directory itself, then each parent in turn, up to and including the
/// version-control root.
pub open spec fn project_chain(cur: Seq<char>, root: Seq<char>) -> Seq<Seq<char>>
    decreases cur.len(),
    via project_chain_decreases
{
    seq![cur] + if cur == root {
        Seq::empty()
    } else {
        match parent_seq(cur) {
            None => Seq::empty(),
            Some(p) => project_chain(p, root),
        }
    }
}

#[via_fn]
proof fn project_chain_decreases(cur: Seq<char>, root: Seq<char>) {
    lemma_parent_shorter(cur);
}

/// The directories to probe for a project marker, nearest first,
/// starting at `cwd` and walking upward to `git_root`.
pub fn project_search_dirs(cwd: &str, git_root: &str) -> (dirs: Vec<String>)
    ensures
        dirs.deep_view() == project_chain(cwd@, git_root@),
    decreases cwd@.len(),
{
    proof {
        lemma_parent_shorter(cwd@);
    }
    let mut dirs: Vec<String> = Vec::new();
    dirs.push(cwd.to_owned());
    if str_eq(cwd, git_root) {
        proof {
            assert(dirs.deep_view() =~= project_chain(cwd@, git_root@));
        }
        return dirs;
    }
    match parent_dir(cwd) {
        None => {
            proof {
                assert(dirs.deep_view() =~= project_chain(cwd@, git_root@));
            }
            dirs
        },
        Some(p) => {
            let rest = project_search_dirs(p.as_str(), git_root);
            crate::config::append_strings(&mut dirs, &rest);
            proof {
                assert(dirs.deep_view() =~= project_chain(cwd@, git_root@));
            }
            dirs
        },
    }
}

/// One directory of the project-root search, with whether a marker file
/// was found in it.
#[derive(Debug)]
pub struct MarkerProbe {
    pub dir: String,
    pub has_marker: bool,
}

/// Find the project root among the probed directories: the first, in
/// the given nearest-first order, that holds a marker file.
#[verifier::loop_isolation(false)]
pub fn find_project_root(probes: &Vec<MarkerProbe>) -> (r: Option<String>)
    ensures
        (r is Some <==> exists|i: int| 0 <= i < probes.len() && (#[trigger] probes[i]).has_marker),
        match r {
            Some(d) => exists|i: int|
                0 <= i < probes.len() && (#[trigger] probes[i]).has_marker && (forall|j: int|
                    0 <= j < i ==> !(#[trigger] probes[j]).has_marker) && d@ == probes[i].dir@,
            None => true,
        },
{
    let mut i: usize = 0;
    while i < probes.len()
        invariant
            i <= probes.len(),
            forall|j: int| 0 <= j < i ==> !(#[trigger] probes[j]).has_marker,
        decreases probes.len() - i,
    {
        if probes[i].has_marker {
            return Some(probes[i].dir.clone());
        }
        i += 1;
    }
    None
}

/// The files whose paths begin with `prefix`, in input order.
pub open spec fn kept_files(files: Seq<Seq<char>>, prefix: Seq<char>) -> Seq<Seq<char>>
    decreases files.len(),
{
    if files.len() == 0 {
        Seq::empty()
    } else {
        let rest = kept_files(files.drop_last(), prefix);
        if starts_with_seq(files.last(), prefix) {
            rest.push(files.last())
        } else {
            rest
        }
    }
}

/// What the project filter keeps: everything when there is no
/// version-control root, no project root, or the two coincide;
/// otherwise the files under the project's path relative to the root.
pub open spec fn project_filter_spec(
    files: Seq<Seq<char>>,
    git_root: Option<Seq<char>>,
    project_root: Option<Seq<char>>,
) -> Seq<Seq<char>> {
    match git_root {
        None => files,
        Some(g) => match project_root {
            None => files,
            Some(p) => if p == g {
                files
            } else {
                match strip_prefix_seq(p, g) {
                    Some(rel) => kept_files(files, rel),
                    None => files,
                }
            },
        },
    }
}

/// Copy all files.
fn copy_files(files: &Vec<String>) -> (r: Vec<String>)
    ensures
        r.deep_view() == files.deep_view(),
{
    let mut r: Vec<String> = Vec::new();
    crate::config::append_strings(&mut r, files);
    proof {
        assert(r.deep_view() =~= files.deep_view());
    }
    r
}

/// Filter changed files to those within the project boundary: with a
/// version-control root and a nested project root, only files under
/// the project's relative path are kept; otherwise all files pass.
#[verifier::loop_isolation(false)]
pub fn filter_to_project(
    files: &Vec<String>,
    git_root: Option<&String>,
    project_root: Option<&String>,
) -> (r: Vec<String>)
    ensures
        ({
            let g = match git_root {
                Some(s) => Some(s@),
                None => None,
            };
            let p = match project_root {
                Some(s) => Some(s@),
                None => None,
            };
            r.deep_view() == project_filter_spec(files.deep_view(), g, p)
        }),
{
    let g = match git_root {
        Some(s) => s,
        None => {
            return copy_files(files);
        },
    };
    let p = match project_root {
        Some(s) => s,
        None => {
            return copy_files(files);
        },
    };
    if str_eq(p.as_str(), g.as_str()) {
        return copy_files(files);
    }
    let rel = match strip_path_prefix(p.as_str(), g.as_str()) {
        Some(rel) => rel,
        None => {
            return copy_files(files);
        },
    };
    let mut r: Vec<String> = Vec::new();
    let mut i: usize = 0;
    while i < files.len()
        invariant
            i <= files.len(),
            rel@ == strip_prefix_seq(p@, g@)->Some_0,
            r.deep_view() == kept_files(files.deep_view().take(i as int), rel@),
        decreases files.len() - i,
    {
        proof {
            let fv = files.deep_view();
            assert(fv.take(i + 1).drop_last() =~= fv.take(i as int));
            assert(fv.take(i + 1).last() == fv[i as int]);
            assert(fv[i as int] == files[i as int]@);
        }
        if starts_with(files[i].as_str(), rel.as_str()) {
            r.push(files[i].clone());
        }
        proof {
            assert(r.deep_view() =~= kept_files(files.deep_view().take(i + 1), rel@));
        }
        i += 1;
    }
    proof {
        assert(files.deep_view().take(files.len() as int) =~= files.deep_view());
    }
    r
}

/// The changed-file entries of the status lines: each line of at least
/// three characters, with its two-character state and the following
/// space removed.
pub open spec fn status_tails(lines: Seq<Seq<char>>) -> Seq<Seq<char>>
    decreases lines.len(),
{
    if lines.len() == 0 {
        Seq::empty()
    } else {
        let rest = status_tails(lines.drop_last());
        if lines.last().len() >= 3 {
            rest.push(lines.last().subrange(3, lines.last().len() as int))
        } else {
            rest
        }
    }
}

/// The changed files named by a porcelain status output: one entry per
/// line, without the two-character state and the following space; a
/// trailing newline yields no entry.
pub open spec fn porcelain_changed_files(out: Seq<char>) -> Seq<Seq<char>> {
    if out.len() == 0 {
        Seq::empty()
    } else {
        let ls = split_on(out, '\n');
        status_tails(
            if ls.len() > 0 && ls.last().len() == 0 {
                ls.drop_last()
            } else {
                ls
            },
        )
    }
}

/// Decode the porcelain status output of the version-control tool into
/// the list of changed-file paths.
#[verifier::loop_isolation(false)]
pub fn parse_changed_files(status_output: &str) -> (r: Vec<String>)
    ensures
        r.deep_view() == porcelain_changed_files(status_output@),
{
    if status_output.is_empty() {
        return Vec::new();
    }
    let lines = split_char(status_output, '\n');
    let mut n = lines.len();
    proof {
        assert(lines.deep_view().len() == split_on(status_output@, '\n').len());
        assert(n >= 1) by {
            assert(split_on(status_output@, '\n').len() >= 1);
        }
        assert(lines.deep_view()[n - 1] == lines[n - 1]@);
    }
    if lines[n - 1].as_str().is_empty() {
        n = n - 1;
    }
    let ghost trimmed = if split_on(status_output@, '\n').last().len() == 0 {
        split_on(status_output@, '\n').drop_last()
    } else {
        split_on(status_output@, '\n')
    };
    proof {
        assert(trimmed.len() == n);
        assert(forall|x: int| 0 <= x < n ==> trimmed[x] == lines.deep_view()[x]);
    }
    let mut r: Vec<String> = Vec::new();
    let mut i: usize = 0;
    while i < n
        invariant
            i <= n,
            n <= lines.len(),
            trimmed.len() == n,
            forall|x: int| 0 <= x < n ==> trimmed[x] == lines.deep_view()[x],
            r.deep_view() == status_tails(trimmed.take(i as int)),
        decreases n - i,
    {
        proof {
            assert(trimmed.take(i + 1).drop_last() =~= trimmed.take(i as int));
            assert(trimmed.take(i + 1).last() == trimmed[i as int]);
            assert(lines.deep_view()[i as int] == lines[i as int]@);
        }
        let line = lines[i].as_str();
        let llen = line.unicode_len();
        if llen >= 3 {
            r.push(line.substring_char(3, llen).to_owned());
        }
        proof {
            assert(r.deep_view() =~= status_tails(trimmed.take(i + 1)));
        }
        i += 1;
    }
    proof {
        assert(trimmed.take(n as int) =~= trimmed);
    }
    r
}

/// Combine the failure reasons of all blocking checks into the single
/// user-facing message, or nothing when every check passed.
pub fn combine_reasons(reasons: &Vec<String>) -> (r: Option<String>)
    ensures
        (r is Some <==> reasons.len() > 0),
        match r {
            Some(m) => m@ == join_seq(reasons.deep_view(), " | "@),
            None => true,
        },
{
    if reasons.len() == 0 {
        None
    } else {
        Some(join_strings(reasons, " | "))
    }
}

/// The blocking reply written to standard output when checks fail.
pub open spec fn block_output_spec(reason: Seq<char>) -> Seq<char> {
    "{\"decision\":\"block\",\"reason\":\""@ + reason + "\"}"@
}

/// Shape the blocking reply for the combined failure reason.
pub fn block_output(reason: &str) -> (r: String)
    ensures
        r@ == block_output_spec(reason@),
{
    let mut out = "{\"decision\":\"block\",\"reason\":\"".to_owned();
    out.append(reason);
    out.append("\"}");
    out
}

} // verus!
