//! The built-in preset catalogue: named bundles of checks that a
//! configuration document can pull in with `presets: [name]`.

use vstd::prelude::*;
use crate::config::Check;
use crate::config::CheckView;
use crate::config::Then;
use crate::config::ThenView;
use crate::config::When;
use crate::config::WhenView;
use crate::config::check_wf;
use crate::strutil::str_eq;

verus! {

/// The checks of the `cargo` preset: test, format and lint commands
/// after Rust edits, plus a version bump gated on a packaging marker.
pub open spec fn cargo_preset() -> Seq<CheckView> {
    seq![
        CheckView {
            name: "cargo-checks"@,
            when: WhenView { paths_changed: "**/*.rs"@, path_exists: None },
            action: ThenView {
                ensure_commands: Some(seq!["cargo test"@, "cargo fmt"@, "cargo clippy"@]),
                ensure_changed: None,
            },
        },
        CheckView {
            name: "cargo-version-bump"@,
            when: WhenView { paths_changed: "**/*.rs"@, path_exists: Some("package.nix"@) },
            action: ThenView {
                ensure_commands: None,
                ensure_changed: Some(seq!["version.toml"@]),
            },
        },
    ]
}

/// The checks of the `meow` preset: the journal formatter after
/// Markdown edits.
pub open spec fn meow_preset() -> Seq<CheckView> {
    seq![
        CheckView {
            name: "meow-fmt"@,
            when: WhenView { paths_changed: "**/*.md"@, path_exists: None },
            action: ThenView {
                ensure_commands: Some(seq!["meow fmt"@]),
                ensure_changed: None,
            },
        },
    ]
}

/// The checks of the `pnpm` preset: lint, typecheck and test commands
/// after TypeScript edits, plus a version bump gated on a packaging
/// marker.
pub open spec fn pnpm_preset() -> Seq<CheckView> {
    seq![
        CheckView {
            name: "pnpm-checks"@,
            when: WhenView { paths_changed: "**/*.ts"@, path_exists: None },
            action: ThenView {
                ensure_commands: Some(seq!["pnpm lint"@, "pnpm typecheck"@, "pnpm test"@]),
                ensure_changed: None,
            },
        },
        CheckView {
            name: "pnpm-version-bump"@,
            when: WhenView { paths_changed: "**/*.ts"@, path_exists: Some("package.nix"@) },
            action: ThenView {
                ensure_commands: None,
                ensure_changed: Some(seq!["version.toml"@]),
            },
        },
    ]
}

/// The checks of the `ledger` preset: validation commands after ledger
/// edits.
pub open spec fn ledger_preset() -> Seq<CheckView> {
    seq![
        CheckView {
            name: "ledger-checks"@,
            when: WhenView { paths_changed: "**/*.ledger"@, path_exists: None },
            action: ThenView {
                ensure_commands: Some(seq!["hledger check"@, "folio validate"@]),
                ensure_changed: None,
            },
        },
    ]
}

/// The checks of the `terraform` preset: formatting, linting and
/// scanning commands after configuration edits.
pub open spec fn terraform_preset() -> Seq<CheckView> {
    seq![
        CheckView {
            name: "terraform-checks"@,
            when: WhenView { paths_changed: "**/*.tf"@, path_exists: None },
            action: ThenView {
                ensure_commands: Some(seq!["tofu fmt"@, "tflint"@, "trivy config ."@]),
                ensure_changed: None,
            },
        },
    ]
}

/// The full catalogue: the checks a built-in preset name stands for.
pub open spec fn builtin_preset_spec(name: Seq<char>) -> Option<Seq<CheckView>> {
    if name == "cargo"@ {
        Some(cargo_preset())
    } else if name == "meow"@ {
        Some(meow_preset())
    } else if name == "pnpm"@ {
        Some(pnpm_preset())
    } else if name == "ledger"@ {
        Some(ledger_preset())
    } else if name == "terraform"@ {
        Some(terraform_preset())
    } else {
        None
    }
}

/// Registry invariant: every check a built-in preset defines is
/// well-formed.
pub proof fn lemma_builtin_presets_wf(name: Seq<char>)
    ensures
        match builtin_preset_spec(name) {
            Some(cs) => forall|i: int| 0 <= i < cs.len() ==> check_wf(#[trigger] cs[i]),
            None => true,
        },
{
    reveal_strlit("cargo-checks");
    reveal_strlit("cargo-version-bump");
    reveal_strlit("meow-fmt");
    reveal_strlit("pnpm-checks");
    reveal_strlit("pnpm-version-bump");
    reveal_strlit("ledger-checks");
    reveal_strlit("terraform-checks");
    reveal_strlit("**/*.rs");
    reveal_strlit("**/*.md");
    reveal_strlit("**/*.ts");
    reveal_strlit("**/*.ledger");
    reveal_strlit("**/*.tf");
}

/// Build a check requiring commands after matching edits.
fn commands_check(
    name: &str,
    paths_changed: &str,
    path_exists: Option<String>,
    commands: Vec<String>,
) -> (c: Check)
    ensures
        c@ == (CheckView {
            name: name@,
            when: WhenView {
                paths_changed: paths_changed@,
                path_exists: path_exists.deep_view(),
            },
            action: ThenView {
                ensure_commands: Some(commands.deep_view()),
                ensure_changed: None,
            },
        }),
{
    Check {
        name: name.to_owned(),
        when: When { paths_changed: paths_changed.to_owned(), path_exists },
        action: Then { ensure_commands: Some(commands), ensure_changed: None },
    }
}

/// Build a check requiring one of the given paths to have changed.
fn changed_check(
    name: &str,
    paths_changed: &str,
    path_exists: Option<String>,
    paths: Vec<String>,
) -> (c: Check)
    ensures
        c@ == (CheckView {
            name: name@,
            when: WhenView {
                paths_changed: paths_changed@,
                path_exists: path_exists.deep_view(),
            },
            action: ThenView {
                ensure_commands: None,
                ensure_changed: Some(paths.deep_view()),
            },
        }),
{
    Check {
        name: name.to_owned(),
        when: When { paths_changed: paths_changed.to_owned(), path_exists },
        action: Then { ensure_commands: None, ensure_changed: Some(paths) },
    }
}

/// The names of the built-in presets.
pub fn preset_names() -> (r: Vec<String>)
    ensures
        r.deep_view() == seq!["cargo"@, "meow"@, "pnpm"@, "ledger"@, "terraform"@],
{
    let mut names: Vec<String> = Vec::new();
    names.push("cargo".to_owned());
    names.push("meow".to_owned());
    names.push("pnpm".to_owned());
    names.push("ledger".to_owned());
    names.push("terraform".to_owned());
    proof {
        assert(names.deep_view() =~~= seq!["cargo"@, "meow"@, "pnpm"@, "ledger"@, "terraform"@]);
    }
    names
}

/// Look a preset name up in the built-in catalogue.
pub fn builtin_preset(name: &str) -> (r: Option<Vec<Check>>)
    ensures
        match builtin_preset_spec(name@) {
            None => r is None,
            Some(cs) => r matches Some(v) && v.deep_view() == cs,
        },
{
    if str_eq(name, "cargo") {
        let mut cmds: Vec<String> = Vec::new();
        cmds.push("cargo test".to_owned());
        cmds.push("cargo fmt".to_owned());
        cmds.push("cargo clippy".to_owned());
        let mut vpaths: Vec<String> = Vec::new();
        vpaths.push("version.toml".to_owned());
        let mut checks: Vec<Check> = Vec::new();
        checks.push(commands_check("cargo-checks", "**/*.rs", None, cmds));
        checks.push(
            changed_check(
                "cargo-version-bump",
                "**/*.rs",
                Some("package.nix".to_owned()),
                vpaths,
            ),
        );
        proof {
            assert(checks.deep_view() =~~= cargo_preset());
        }
        Some(checks)
    } else if str_eq(name, "meow") {
        let mut cmds: Vec<String> = Vec::new();
        cmds.push("meow fmt".to_owned());
        let mut checks: Vec<Check> = Vec::new();
        checks.push(commands_check("meow-fmt", "**/*.md", None, cmds));
        proof {
            assert(checks.deep_view() =~~= meow_preset());
        }
        Some(checks)
    } else if str_eq(name, "pnpm") {
        let mut cmds: Vec<String> = Vec::new();
        cmds.push("pnpm lint".to_owned());
        cmds.push("pnpm typecheck".to_owned());
        cmds.push("pnpm test".to_owned());
        let mut vpaths: Vec<String> = Vec::new();
        vpaths.push("version.toml".to_owned());
        let mut checks: Vec<Check> = Vec::new();
        checks.push(commands_check("pnpm-checks", "**/*.ts", None, cmds));
        checks.push(
            changed_check(
                "pnpm-version-bump",
                "**/*.ts",
                Some("package.nix".to_owned()),
                vpaths,
            ),
        );
        proof {
            assert(checks.deep_view() =~~= pnpm_preset());
        }
        Some(checks)
    } else if str_eq(name, "ledger") {
        let mut cmds: Vec<String> = Vec::new();
        cmds.push("hledger check".to_owned());
        cmds.push("folio validate".to_owned());
        let mut checks: Vec<Check> = Vec::new();
        checks.push(commands_check("ledger-checks", "**/*.ledger", None, cmds));
        proof {
            assert(checks.deep_view() =~~= ledger_preset());
        }
        Some(checks)
    } else if str_eq(name, "terraform") {
        let mut cmds: Vec<String> = Vec::new();
        cmds.push("tofu fmt".to_owned());
        cmds.push("tflint".to_owned());
        cmds.push("trivy config .".to_owned());
        let mut checks: Vec<Check> = Vec::new();
        checks.push(commands_check("terraform-checks", "**/*.tf", None, cmds));
        proof {
            assert(checks.deep_view() =~~= terraform_preset());
        }
        Some(checks)
    } else {
        None
    }
}

} // verus!
