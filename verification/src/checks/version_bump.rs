//! The version bump check: in a Nix-packaged project, changing Rust
//! source files requires touching `version.toml` in the same session.

use vstd::prelude::*;
use crate::strutil::ends_with;
use crate::strutil::ends_with_seq;
use crate::strutil::str_eq;

verus! {

/// Whether `f` is a Rust source file, whose change calls for a version
/// bump.
pub open spec fn is_rust_source_spec(f: Seq<char>) -> bool {
    ends_with_seq(f, ".rs"@) || f == "build.rs"@ || ends_with_seq(f, "/build.rs"@)
}

/// Whether `f` names the version marker file, exactly or by a nested
/// path.
pub open spec fn is_version_marker(f: Seq<char>) -> bool {
    f == "version.toml"@ || ends_with_seq(f, "/version.toml"@)
}

/// Some changed file is a Rust source file.
pub open spec fn any_rust_source(changed: Seq<Seq<char>>) -> bool {
    exists|i: int| 0 <= i < changed.len() && is_rust_source_spec(#[trigger] changed[i])
}

/// Some changed file is the version marker.
pub open spec fn any_version_marker(changed: Seq<Seq<char>>) -> bool {
    exists|i: int| 0 <= i < changed.len() && is_version_marker(#[trigger] changed[i])
}

/// Whether `path` is a Rust source file.
pub fn is_rust_source_file(path: &str) -> (r: bool)
    ensures
        r == is_rust_source_spec(path@),
{
    ends_with(path, ".rs") || str_eq(path, "build.rs") || ends_with(path, "/build.rs")
}

/// Run the version bump check: it blocks when the project carries the
/// packaging marker, Rust source files changed, and `version.toml` was
/// not touched. `package_nix_exists` reports whether `package.nix`
/// exists in the working directory.
#[verifier::loop_isolation(false)]
pub fn check(package_nix_exists: bool, changed_files: &Vec<String>) -> (r: Option<String>)
    ensures
        r is Some <==> (package_nix_exists && any_rust_source(changed_files.deep_view())
            && !any_version_marker(changed_files.deep_view())),
        r matches Some(msg) ==> msg@
            == "Rust source files were modified but version.toml was not bumped. Please bump the version following semver."@,
{
    if !package_nix_exists {
        return None;
    }
    let mut rust_changed = false;
    let mut version_changed = false;
    let mut i: usize = 0;
    while i < changed_files.len()
        invariant
            i <= changed_files.len(),
            rust_changed == any_rust_source(changed_files.deep_view().take(i as int)),
            version_changed == any_version_marker(changed_files.deep_view().take(i as int)),
        decreases changed_files.len() - i,
    {
        proof {
            let dv = changed_files.deep_view();
            assert(dv[i as int] == changed_files[i as int]@);
            assert(forall|x: int| 0 <= x < i + 1 ==> dv.take(i + 1)[x] == dv[x]);
            assert(forall|x: int| 0 <= x < i ==> dv.take(i as int)[x] == dv[x]);
        }
        let f = changed_files[i].as_str();
        if is_rust_source_file(f) {
            rust_changed = true;
        }
        if str_eq(f, "version.toml") || ends_with(f, "/version.toml") {
            version_changed = true;
        }
        proof {
            let dv = changed_files.deep_view();
            if !rust_changed {
                assert(forall|x: int| 0 <= x < i + 1 && x != i ==> !is_rust_source_spec(
                    #[trigger] dv.take(i + 1)[x],
                ));
            }
            if !version_changed {
                assert(forall|x: int| 0 <= x < i + 1 && x != i ==> !is_version_marker(
                    #[trigger] dv.take(i + 1)[x],
                ));
            }
        }
        i += 1;
    }
    proof {
        assert(changed_files.deep_view().take(changed_files.len() as int)
            =~= changed_files.deep_view());
    }
    if rust_changed && !version_changed {
        return Some(
            "Rust source files were modified but version.toml was not bumped. Please bump the version following semver.".to_owned(),
        );
    }
    None
}

} // verus!
