//! Glob-pattern matching for changed-file paths, built on the `glob` crate.
//!
//! A trigger pattern is matched against a changed-file path twice: once
//! against the path exactly as given, and once against its bare filename,
//! so that filename-only patterns still catch files in subdirectories.

use vstd::prelude::*;
use crate::strutil::basename;
use crate::strutil::basename_seq;

verus! {

#[verifier::external_type_specification]
#[verifier::external_body]
pub struct ExPattern(glob::Pattern);

/// Whether `pat` is a well-formed glob pattern, as `glob::Pattern::new`
/// decides it.
pub uninterp spec fn glob_pattern_ok(pat: Seq<char>) -> bool;

/// Whether the glob pattern `pat` matches `path`, as
/// `glob::Pattern::matches` decides it.
pub uninterp spec fn glob_matches(pat: Seq<char>, path: Seq<char>) -> bool;

/// A compiled glob pattern, remembering the text it was compiled from.
pub struct CompiledPattern {
    inner: glob::Pattern,
    text: Ghost<Seq<char>>,
}

impl View for CompiledPattern {
    type V = Seq<char>;

    closed spec fn view(&self) -> Seq<char> {
        self.text@
    }
}

/// Relies on `glob::Pattern::new`: whether a pattern text compiles is a
/// function of that text alone.
#[verifier::external_body]
fn compile_raw(pat: &str) -> (r: Option<glob::Pattern>)
    ensures
        r is Some <==> glob_pattern_ok(pat@),
{
    glob::Pattern::new(pat).ok()
}

impl CompiledPattern {
    /// Compile `pat`, keeping its text alongside the compiled form.
    pub fn compile(pat: &str) -> (r: Option<CompiledPattern>)
        ensures
            r is Some <==> glob_pattern_ok(pat@),
            r matches Some(p) ==> p@ == pat@,
    {
        match compile_raw(pat) {
            Some(inner) => Some(CompiledPattern { inner, text: Ghost(pat@) }),
            None => None,
        }
    }

    /// Relies on `glob::Pattern::matches`: whether a compiled pattern matches
    /// a path is a function of the pattern text and the path alone. The
    /// `inner` field is always the compilation of the remembered text, since
    /// `compile` is the only constructor.
    #[verifier::external_body]
    pub fn matches(&self, path: &str) -> (r: bool)
        ensures
            r == glob_matches(self@, path@),
    {
        self.inner.matches(path)
    }
}

/// A changed-file path triggers a pattern if the pattern matches the whole
/// path or just its final component.
pub open spec fn file_matches(pat: Seq<char>, path: Seq<char>) -> bool {
    glob_matches(pat, path) || glob_matches(pat, basename_seq(path))
}

/// Whether `file_path` matches `pattern` as a whole or by its bare filename.
pub fn file_matches_pattern(file_path: &str, pattern: &CompiledPattern) -> (r: bool)
    ensures
        r == file_matches(pattern@, file_path@),
{
    if pattern.matches(file_path) {
        return true;
    }
    pattern.matches(basename(file_path))
}

} // verus!
