//! The check configuration model: a policy (`Check`) with its trigger
//! (`When`) and required action (`Then`), the resolved configuration, and
//! validation of user-declared checks.

use vstd::prelude::*;
use vstd::string::StringExecFns;
use crate::strutil::is_path_prefix;
use crate::strutil::joined_path;
use crate::strutil::parent_dir;
use crate::strutil::parent_seq;
use crate::strutil::path_join;
use crate::strutil::path_prefix;
use crate::strutil::str_eq;

verus! {

/// Conditions that trigger a check.
#[derive(Debug, Clone)]
pub struct When {
    /// Glob pattern for files that trigger this check.
    pub paths_changed: String,
    /// Optional: check only applies if this path exists (relative to the
    /// configuration's directory).
    pub path_exists: Option<String>,
}

/// Actions required when a check triggers; exactly one of the two fields
/// may be populated.
#[derive(Debug, Clone)]
pub struct Then {
    /// Commands that must ALL run after the last matching edit.
    pub ensure_commands: Option<Vec<String>>,
    /// At least one of these paths must have been changed this session.
    pub ensure_changed: Option<Vec<String>>,
}

/// A single check definition.
#[derive(Debug, Clone)]
pub struct Check {
    /// Name of the check (for failure reasons).
    pub name: String,
    /// Conditions that trigger this check.
    pub when: When,
    /// Required actions.
    pub action: Then,
}

/// Resolved configuration: presets expanded, checks always defined.
#[derive(Debug)]
pub struct RufioConfig {
    pub checks: Vec<Check>,
}

/// A resolved configuration together with the directory that held it.
#[derive(Debug)]
pub struct LoadedConfig {
    pub config: RufioConfig,
    /// Directory containing the configuration document.
    pub config_dir: String,
}

/// The mathematical value of a [`When`].
#[verifier::ext_equal]
pub ghost struct WhenView {
    pub paths_changed: Seq<char>,
    pub path_exists: Option<Seq<char>>,
}

/// The mathematical value of a [`Then`].
#[verifier::ext_equal]
pub ghost struct ThenView {
    pub ensure_commands: Option<Seq<Seq<char>>>,
    pub ensure_changed: Option<Seq<Seq<char>>>,
}

/// The mathematical value of a [`Check`].
#[verifier::ext_equal]
pub ghost struct CheckView {
    pub name: Seq<char>,
    pub when: WhenView,
    pub action: ThenView,
}

impl View for When {
    type V = WhenView;

    open spec fn view(&self) -> WhenView {
        WhenView {
            paths_changed: self.paths_changed@,
            path_exists: self.path_exists.deep_view(),
        }
    }
}

impl View for Then {
    type V = ThenView;

    open spec fn view(&self) -> ThenView {
        ThenView {
            ensure_commands: self.ensure_commands.deep_view(),
            ensure_changed: self.ensure_changed.deep_view(),
        }
    }
}

impl View for Check {
    type V = CheckView;

    open spec fn view(&self) -> CheckView {
        CheckView { name: self.name@, when: self.when@, action: self.action@ }
    }
}

impl DeepView for Check {
    type V = CheckView;

    open spec fn deep_view(&self) -> CheckView {
        self@
    }
}

/// Exactly one of the two actions is populated.
pub open spec fn action_wf(t: ThenView) -> bool {
    (t.ensure_commands is Some) != (t.ensure_changed is Some)
}

/// A well-formed check: named, with a trigger pattern and exactly one
/// action.
pub open spec fn check_wf(c: CheckView) -> bool {
    c.name.len() > 0 && c.when.paths_changed.len() > 0 && action_wf(c.action)
}

/// A failure while loading or validating a configuration document.
#[derive(Debug, Clone)]
pub enum ConfigError {
    /// A user-declared check has no name.
    MissingName,
    /// A user-declared check has no trigger pattern.
    MissingPathsChanged { check_name: String },
    /// A user-declared check populates neither action.
    MissingAction { check_name: String },
    /// A user-declared check populates both actions.
    ConflictingActions { check_name: String },
    /// The document declares no checks and no presets resolve to any.
    NoChecks,
    /// A referenced preset is neither built in nor present externally.
    PresetNotFound { preset: String, expected_path: String },
}

/// Validate a user-declared check: well-formed checks pass, and a
/// malformed check is reported with the first rule it breaks.
pub fn validate_check(check: &Check) -> (r: Result<(), ConfigError>)
    ensures
        r is Ok <==> check_wf(check@),
        r matches Err(e) ==> match e {
            ConfigError::MissingName => check@.name.len() == 0,
            ConfigError::MissingPathsChanged { check_name } => check@.name.len() > 0
                && check_name@ == check@.name && check@.when.paths_changed.len() == 0,
            ConfigError::MissingAction { check_name } => check@.name.len() > 0
                && check_name@ == check@.name && check@.when.paths_changed.len() > 0
                && check@.action.ensure_commands is None && check@.action.ensure_changed is None,
            ConfigError::ConflictingActions { check_name } => check@.name.len() > 0
                && check_name@ == check@.name && check@.when.paths_changed.len() > 0
                && check@.action.ensure_commands is Some && check@.action.ensure_changed is Some,
            _ => false,
        },
{
    if check.name.as_str().is_empty() {
        return Err(ConfigError::MissingName);
    }
    if check.when.paths_changed.as_str().is_empty() {
        return Err(ConfigError::MissingPathsChanged { check_name: check.name.clone() });
    }
    if check.action.ensure_commands.is_none() && check.action.ensure_changed.is_none() {
        return Err(ConfigError::MissingAction { check_name: check.name.clone() });
    }
    if check.action.ensure_commands.is_some() && check.action.ensure_changed.is_some() {
        return Err(ConfigError::ConflictingActions { check_name: check.name.clone() });
    }
    Ok(())
}

impl ConfigError {
    /// The diagnostic text for this failure in the document at `path`.
    pub open spec fn message_spec(&self, path: Seq<char>) -> Seq<char> {
        match self {
            ConfigError::MissingName => "Invalid config at "@ + path + ": check missing 'name'"@,
            ConfigError::MissingPathsChanged { check_name } => "Invalid config at "@ + path
                + ": check '"@ + check_name@ + "' missing 'when.paths_changed'"@,
            ConfigError::MissingAction { check_name } => "Invalid config at "@ + path
                + ": check '"@ + check_name@ + "' must have 'ensure_commands' or 'ensure_changed'"@,
            ConfigError::ConflictingActions { check_name } => "Invalid config at "@ + path
                + ": check '"@ + check_name@
                + "' cannot have both 'ensure_commands' and 'ensure_changed'"@,
            ConfigError::NoChecks => "Invalid config at "@ + path
                + ": no checks defined (add 'presets' or 'checks')"@,
            ConfigError::PresetNotFound { preset, expected_path } => "Invalid config at "@ + path
                + ": preset '"@ + preset@ + "' not found at "@ + expected_path@,
        }
    }

    /// Render the diagnostic text for this failure in the document at
    /// `config_path`.
    pub fn message(&self, config_path: &str) -> (r: String)
        ensures
            r@ == self.message_spec(config_path@),
    {
        let mut msg = "Invalid config at ".to_owned();
        msg.append(config_path);
        match self {
            ConfigError::MissingName => {
                msg.append(": check missing 'name'");
            },
            ConfigError::MissingPathsChanged { check_name } => {
                msg.append(": check '");
                msg.append(check_name.as_str());
                msg.append("' missing 'when.paths_changed'");
            },
            ConfigError::MissingAction { check_name } => {
                msg.append(": check '");
                msg.append(check_name.as_str());
                msg.append("' must have 'ensure_commands' or 'ensure_changed'");
            },
            ConfigError::ConflictingActions { check_name } => {
                msg.append(": check '");
                msg.append(check_name.as_str());
                msg.append("' cannot have both 'ensure_commands' and 'ensure_changed'");
            },
            ConfigError::NoChecks => {
                msg.append(": no checks defined (add 'presets' or 'checks')");
            },
            ConfigError::PresetNotFound { preset, expected_path } => {
                msg.append(": preset '");
                msg.append(preset.as_str());
                msg.append("' not found at ");
                msg.append(expected_path.as_str());
            },
        }
        msg
    }
}

/// A parsed configuration document, before preset resolution: the
/// referenced preset names and the locally declared checks.
#[derive(Debug)]
pub struct ConfigDoc {
    /// Preset names to include.
    pub presets: Option<Vec<String>>,
    /// Locally declared check definitions.
    pub checks: Option<Vec<Check>>,
}

/// The mathematical value of a [`ConfigDoc`].
#[verifier::ext_equal]
pub ghost struct ConfigDocView {
    pub presets: Option<Seq<Seq<char>>>,
    pub checks: Option<Seq<CheckView>>,
}

impl View for ConfigDoc {
    type V = ConfigDocView;

    open spec fn view(&self) -> ConfigDocView {
        ConfigDocView { presets: self.presets.deep_view(), checks: self.checks.deep_view() }
    }
}

/// The preset names a document references.
pub open spec fn doc_preset_names(d: ConfigDocView) -> Seq<Seq<char>> {
    match d.presets {
        Some(ns) => ns,
        None => Seq::empty(),
    }
}

/// The checks a document declares locally.
pub open spec fn doc_local_checks(d: ConfigDocView) -> Seq<CheckView> {
    match d.checks {
        Some(cs) => cs,
        None => Seq::empty(),
    }
}

/// Every check in the sequence is well-formed.
pub open spec fn all_checks_wf(cs: Seq<CheckView>) -> bool {
    forall|i: int| 0 <= i < cs.len() ==> check_wf(#[trigger] cs[i])
}

/// Action-shape law: a check that populates both actions or neither is
/// not well-formed, so a configuration declaring one cannot load.
pub proof fn lemma_invalid_action_shape(cs: Seq<CheckView>, j: int)
    requires
        0 <= j < cs.len(),
        !action_wf(cs[j].action),
    ensures
        !all_checks_wf(cs),
{
    assert(!check_wf(cs[j]));
}

/// `j` is the first position whose check is not well-formed.
pub open spec fn first_invalid_check(cs: Seq<CheckView>, j: int) -> bool {
    0 <= j < cs.len() && !check_wf(cs[j]) && forall|j2: int|
        0 <= j2 < j ==> check_wf(#[trigger] cs[j2])
}

/// Where a preset's external document is expected: under the fixed
/// application subdirectory of the user configuration home.
pub open spec fn preset_path_spec(xdg: Seq<char>, name: Seq<char>) -> Seq<char> {
    joined_path(joined_path(joined_path(xdg, "rufio"@), "presets"@), name + ".yaml"@)
}

/// The expected path of the external document for preset `name`, given
/// the user configuration home.
pub fn preset_path(xdg_config_dir: &str, name: &str) -> (r: String)
    ensures
        r@ == preset_path_spec(xdg_config_dir@, name@),
{
    let mut file = name.to_owned();
    file.append(".yaml");
    let base = path_join(xdg_config_dir, "rufio");
    let presets_dir = path_join(base.as_str(), "presets");
    path_join(presets_dir.as_str(), file.as_str())
}

/// What a preset name resolves to: the built-in bundle when the name is
/// built in, else whatever checks its external document holds.
pub open spec fn resolved_preset(
    name: Seq<char>,
    ext: Option<Seq<CheckView>>,
) -> Option<Seq<CheckView>> {
    match crate::presets::builtin_preset_spec(name) {
        Some(cs) => Some(cs),
        None => ext,
    }
}

/// Every referenced preset resolves.
pub open spec fn presets_resolve_ok(
    names: Seq<Seq<char>>,
    exts: Seq<Option<Seq<CheckView>>>,
) -> bool {
    forall|i: int| 0 <= i < names.len() ==> #[trigger] resolved_preset(names[i], exts[i]) is Some
}

/// The checks the referenced presets contribute, in listed order, each
/// preset's checks in their own order.
pub open spec fn resolved_checks(
    names: Seq<Seq<char>>,
    exts: Seq<Option<Seq<CheckView>>>,
) -> Seq<CheckView>
    decreases names.len(),
{
    if names.len() == 0 {
        Seq::empty()
    } else {
        resolved_checks(names.drop_last(), exts.drop_last()) + match resolved_preset(
            names.last(),
            exts.last(),
        ) {
            Some(cs) => cs,
            None => Seq::empty(),
        }
    }
}

/// Copy a vector of strings element by element.
fn clone_string_vec(v: &Vec<String>) -> (r: Vec<String>)
    ensures
        r.deep_view() == v.deep_view(),
{
    let mut r: Vec<String> = Vec::new();
    let mut i: usize = 0;
    while i < v.len()
        invariant
            i <= v.len(),
            r.deep_view() == v.deep_view().take(i as int),
        decreases v.len() - i,
    {
        r.push(v[i].clone());
        proof {
            assert(v.deep_view()[i as int] == v[i as int]@);
            assert(v.deep_view().take(i + 1).drop_last() =~= v.deep_view().take(i as int));
            assert(r.deep_view() =~= v.deep_view().take(i + 1));
        }
        i += 1;
    }
    proof {
        assert(v.deep_view().take(v.len() as int) =~= v.deep_view());
    }
    r
}

impl Check {
    /// Copy a check field by field.
    pub fn duplicate(&self) -> (c: Check)
        ensures
            c@ == self@,
    {
        let ensure_commands = match &self.action.ensure_commands {
            Some(v) => Some(clone_string_vec(v)),
            None => None,
        };
        let ensure_changed = match &self.action.ensure_changed {
            Some(v) => Some(clone_string_vec(v)),
            None => None,
        };
        let path_exists = match &self.when.path_exists {
            Some(p) => Some(p.clone()),
            None => None,
        };
        let c = Check {
            name: self.name.clone(),
            when: When { paths_changed: self.when.paths_changed.clone(), path_exists },
            action: Then { ensure_commands, ensure_changed },
        };
        proof {
            assert(c@ =~~= self@);
        }
        c
    }
}

/// Append copies of `src`'s checks to `dst`.
#[verifier::loop_isolation(false)]
fn append_checks(dst: &mut Vec<Check>, src: &Vec<Check>)
    ensures
        final(dst).deep_view() == old(dst).deep_view() + src.deep_view(),
{
    let mut i: usize = 0;
    while i < src.len()
        invariant
            i <= src.len(),
            dst.deep_view() == old(dst).deep_view() + src.deep_view().take(i as int),
        decreases src.len() - i,
    {
        let c = src[i].duplicate();
        let ghost prev_dv = dst.deep_view();
        dst.push(c);
        proof {
            assert(src.deep_view()[i as int] == src[i as int]@);
            assert(src.deep_view().take(i + 1).drop_last() =~= src.deep_view().take(i as int));
            assert(src.deep_view().take(i + 1)[i as int] == src.deep_view()[i as int]);
            assert(dst.deep_view() =~= prev_dv.push(c@));
            assert(dst.deep_view() =~= old(dst).deep_view() + src.deep_view().take(i + 1));
        }
        i += 1;
    }
    proof {
        assert(src.deep_view().take(src.len() as int) =~= src.deep_view());
    }
}

/// Resolve preset names to their check definitions: built-in bundles
/// first, else the externally supplied document for that name
/// (`externals[i]` holds the checks found for `names[i]`, or nothing
/// when no such document exists). The first unresolvable name is a
/// fatal error naming the expected external path.
#[verifier::loop_isolation(false)]
pub fn resolve_presets(
    names: &Vec<String>,
    externals: &Vec<Option<Vec<Check>>>,
    xdg_config_dir: &str,
) -> (r: Result<Vec<Check>, ConfigError>)
    requires
        names.len() == externals.len(),
    ensures
        ({
            let nv = names.deep_view();
            let ev = externals.deep_view();
            &&& (r is Ok <==> presets_resolve_ok(nv, ev))
            &&& match r {
                Ok(cs) => cs.deep_view() == resolved_checks(nv, ev),
                Err(e) => exists|i: int|
                    0 <= i < nv.len() && #[trigger] resolved_preset(nv[i], ev[i]) is None && (
                    forall|i2: int|
                        0 <= i2 < i ==> #[trigger] resolved_preset(nv[i2], ev[i2]) is Some) && (
                    e matches ConfigError::PresetNotFound { preset, expected_path }
                        && preset@ == nv[i] && expected_path@ == preset_path_spec(
                        xdg_config_dir@,
                        nv[i],
                    )),
            }
        }),
{
    let mut out: Vec<Check> = Vec::new();
    let mut i: usize = 0;
    while i < names.len()
        invariant
            i <= names.len(),
            out.deep_view() == resolved_checks(
                names.deep_view().take(i as int),
                externals.deep_view().take(i as int),
            ),
            forall|i2: int|
                0 <= i2 < i ==> #[trigger] resolved_preset(
                    names.deep_view()[i2],
                    externals.deep_view()[i2],
                ) is Some,
        decreases names.len() - i,
    {
        proof {
            let nv = names.deep_view();
            let ev = externals.deep_view();
            assert(nv.take(i + 1).drop_last() =~= nv.take(i as int));
            assert(ev.take(i + 1).drop_last() =~= ev.take(i as int));
            assert(nv.take(i + 1).last() == nv[i as int]);
            assert(ev.take(i + 1).last() == ev[i as int]);
            assert(nv[i as int] == names[i as int]@);
            assert(ev[i as int] == externals[i as int].deep_view());
        }
        let found = match builtin_preset_lookup(names[i].as_str()) {
            Some(cs) => {
                append_checks(&mut out, &cs);
                true
            },
            None => match &externals[i] {
                Some(cs) => {
                    append_checks(&mut out, cs);
                    true
                },
                None => false,
            },
        };
        if !found {
            let expected = preset_path(xdg_config_dir, names[i].as_str());
            return Err(
                ConfigError::PresetNotFound { preset: names[i].clone(), expected_path: expected },
            );
        }
        proof {
            assert(out.deep_view() =~= resolved_checks(
                names.deep_view().take(i + 1),
                externals.deep_view().take(i + 1),
            ));
        }
        i += 1;
    }
    proof {
        assert(names.deep_view().take(names.len() as int) =~= names.deep_view());
        assert(externals.deep_view().take(externals.len() as int) =~= externals.deep_view());
    }
    Ok(out)
}

/// Look a preset name up in the built-in catalogue.
fn builtin_preset_lookup(name: &str) -> (r: Option<Vec<Check>>)
    ensures
        match crate::presets::builtin_preset_spec(name@) {
            None => r is None,
            Some(cs) => r matches Some(v) && v.deep_view() == cs,
        },
{
    crate::presets::builtin_preset(name)
}

/// Load a parsed configuration document: resolve its presets, merge the
/// presets' checks (in listed order) with the locally declared checks
/// (in declared order), reject an empty result, and validate the local
/// checks; preset-sourced checks are trusted and never re-validated.
#[verifier::loop_isolation(false)]
pub fn load_config(
    doc: ConfigDoc,
    externals: &Vec<Option<Vec<Check>>>,
    xdg_config_dir: &str,
) -> (r: Result<RufioConfig, ConfigError>)
    requires
        externals.len() == doc_preset_names(doc@).len(),
    ensures
        ({
            let nv = doc_preset_names(doc@);
            let ev = externals.deep_view();
            let lv = doc_local_checks(doc@);
            &&& (r is Ok <==> (presets_resolve_ok(nv, ev) && resolved_checks(nv, ev).len()
                + lv.len() > 0 && all_checks_wf(lv)))
            &&& match r {
                Ok(cfg) => cfg.checks.deep_view() == resolved_checks(nv, ev) + lv,
                Err(e) => match e {
                    ConfigError::PresetNotFound { preset, expected_path } => exists|i: int|
                        0 <= i < nv.len() && #[trigger] resolved_preset(nv[i], ev[i]) is None && (
                        forall|i2: int|
                            0 <= i2 < i ==> #[trigger] resolved_preset(nv[i2], ev[i2]) is Some)
                            && preset@ == nv[i] && expected_path@ == preset_path_spec(
                            xdg_config_dir@,
                            nv[i],
                        ),
                    ConfigError::NoChecks => presets_resolve_ok(nv, ev) && resolved_checks(
                        nv,
                        ev,
                    ).len() + lv.len() == 0,
                    ConfigError::MissingName => exists|j: int|
                        #[trigger] first_invalid_check(lv, j) && lv[j].name.len() == 0,
                    ConfigError::MissingPathsChanged { check_name } => exists|j: int|
                        #[trigger] first_invalid_check(lv, j) && lv[j].name.len() > 0
                            && check_name@ == lv[j].name && lv[j].when.paths_changed.len() == 0,
                    ConfigError::MissingAction { check_name } => exists|j: int|
                        #[trigger] first_invalid_check(lv, j) && lv[j].name.len() > 0
                            && check_name@ == lv[j].name && lv[j].when.paths_changed.len() > 0
                            && lv[j].action.ensure_commands is None
                            && lv[j].action.ensure_changed is None,
                    ConfigError::ConflictingActions { check_name } => exists|j: int|
                        #[trigger] first_invalid_check(lv, j) && lv[j].name.len() > 0
                            && check_name@ == lv[j].name && lv[j].when.paths_changed.len() > 0
                            && lv[j].action.ensure_commands is Some
                            && lv[j].action.ensure_changed is Some,
                },
            }
        }),
{
    let mut merged: Vec<Check> = match &doc.presets {
        Some(names) => match resolve_presets(names, externals, xdg_config_dir) {
            Ok(cs) => cs,
            Err(e) => {
                return Err(e);
            },
        },
        None => Vec::new(),
    };
    let user_checks: Vec<Check> = match doc.checks {
        Some(cs) => cs,
        None => Vec::new(),
    };
    if merged.len() == 0 && user_checks.len() == 0 {
        return Err(ConfigError::NoChecks);
    }
    let mut j: usize = 0;
    while j < user_checks.len()
        invariant
            j <= user_checks.len(),
            forall|j2: int| 0 <= j2 < j ==> check_wf(#[trigger] user_checks.deep_view()[j2]),
        decreases user_checks.len() - j,
    {
        proof {
            assert(user_checks.deep_view()[j as int] == user_checks[j as int]@);
        }
        match validate_check(&user_checks[j]) {
            Ok(_) => {},
            Err(e) => {
                proof {
                    assert(first_invalid_check(user_checks.deep_view(), j as int));
                }
                return Err(e);
            },
        }
        j += 1;
    }
    append_checks(&mut merged, &user_checks);
    Ok(RufioConfig { checks: merged })
}

impl RufioConfig {
    /// Copy a resolved configuration check by check.
    pub fn duplicate(&self) -> (c: RufioConfig)
        ensures
            c.checks.deep_view() == self.checks.deep_view(),
    {
        let mut checks: Vec<Check> = Vec::new();
        append_checks(&mut checks, &self.checks);
        proof {
            assert(checks.deep_view() =~= self.checks.deep_view());
        }
        RufioConfig { checks }
    }
}

/// The directories the nearest-configuration search visits: the query
/// directory itself, then each parent in turn, stopping once the
/// repository root has been visited or the next step would leave it.
pub open spec fn search_chain(cur: Seq<char>, root: Seq<char>) -> Seq<Seq<char>>
    decreases cur.len(),
    via search_chain_decreases
{
    seq![cur] + if cur == root {
        Seq::empty()
    } else {
        match parent_seq(cur) {
            None => Seq::empty(),
            Some(p) => if path_prefix(root, p) {
                search_chain(p, root)
            } else {
                Seq::empty()
            },
        }
    }
}

#[via_fn]
proof fn search_chain_decreases(cur: Seq<char>, root: Seq<char>) {
    crate::strutil::lemma_parent_shorter(cur);
}

/// Boundary law: past the query directory itself, every directory the
/// nearest-configuration search visits lies at or below the repository
/// root; the first directory visited is the query directory.
pub proof fn lemma_search_chain_bounded(cur: Seq<char>, root: Seq<char>)
    ensures
        search_chain(cur, root).len() >= 1,
        search_chain(cur, root)[0] == cur,
        forall|i: int|
            1 <= i < search_chain(cur, root).len() ==> path_prefix(
                root,
                #[trigger] search_chain(cur, root)[i],
            ),
    decreases cur.len(),
{
    crate::strutil::lemma_parent_shorter(cur);
    if cur == root {
    } else {
        match parent_seq(cur) {
            None => {},
            Some(p) => {
                if path_prefix(root, p) {
                    lemma_search_chain_bounded(p, root);
                    assert(forall|i: int|
                        1 <= i < search_chain(cur, root).len() ==> search_chain(cur, root)[i]
                            == search_chain(p, root)[i - 1]);
                    assert(search_chain(p, root)[0] == p);
                }
            },
        }
    }
}

/// Copy strings from `src` onto the end of `dst`.
#[verifier::loop_isolation(false)]
pub fn append_strings(dst: &mut Vec<String>, src: &Vec<String>)
    ensures
        final(dst).deep_view() == old(dst).deep_view() + src.deep_view(),
{
    let mut i: usize = 0;
    while i < src.len()
        invariant
            i <= src.len(),
            dst.deep_view() == old(dst).deep_view() + src.deep_view().take(i as int),
        decreases src.len() - i,
    {
        let s = src[i].clone();
        let ghost prev_dv = dst.deep_view();
        dst.push(s);
        proof {
            assert(src.deep_view()[i as int] == src[i as int]@);
            assert(src.deep_view().take(i + 1).drop_last() =~= src.deep_view().take(i as int));
            assert(src.deep_view().take(i + 1)[i as int] == src.deep_view()[i as int]);
            assert(dst.deep_view() =~= prev_dv.push(s@));
            assert(dst.deep_view() =~= old(dst).deep_view() + src.deep_view().take(i + 1));
        }
        i += 1;
    }
    proof {
        assert(src.deep_view().take(src.len() as int) =~= src.deep_view());
    }
}

/// The directories to probe for a configuration document, nearest
/// first, starting at `start_dir` and walking upward, bounded by
/// `repo_root`.
pub fn config_search_dirs(start_dir: &str, repo_root: &str) -> (dirs: Vec<String>)
    ensures
        dirs.deep_view() == search_chain(start_dir@, repo_root@),
    decreases start_dir@.len(),
{
    proof {
        crate::strutil::lemma_parent_shorter(start_dir@);
    }
    let mut dirs: Vec<String> = Vec::new();
    dirs.push(start_dir.to_owned());
    if str_eq(start_dir, repo_root) {
        proof {
            assert(dirs.deep_view() =~= search_chain(start_dir@, repo_root@));
        }
        return dirs;
    }
    match parent_dir(start_dir) {
        None => {
            proof {
                assert(dirs.deep_view() =~= search_chain(start_dir@, repo_root@));
            }
            dirs
        },
        Some(p) => {
            if is_path_prefix(repo_root, p.as_str()) {
                let rest = config_search_dirs(p.as_str(), repo_root);
                append_strings(&mut dirs, &rest);
                proof {
                    assert(dirs.deep_view() =~= search_chain(start_dir@, repo_root@));
                }
                dirs
            } else {
                proof {
                    assert(dirs.deep_view() =~= search_chain(start_dir@, repo_root@));
                }
                dirs
            }
        },
    }
}

/// What probing one directory for a configuration document yielded.
#[derive(Debug)]
pub enum DirOutcome {
    /// No document is present in this directory.
    NoConfig,
    /// A document is present but could not be loaded.
    LoadFailed,
    /// A document is present and loaded to this configuration.
    Loaded(RufioConfig),
}

/// One directory of the upward search, with what probing it yielded.
#[derive(Debug)]
pub struct DirProbe {
    pub dir: String,
    pub outcome: DirOutcome,
}

/// Find the nearest configuration among the probed directories: the
/// first probe, in the given nearest-first order, whose document
/// loaded; directories whose documents failed to load are skipped.
#[verifier::loop_isolation(false)]
pub fn find_nearest_config(probes: &Vec<DirProbe>) -> (r: Option<LoadedConfig>)
    ensures
        (r is Some <==> exists|i: int|
            0 <= i < probes.len() && (#[trigger] probes[i].outcome) is Loaded),
        match r {
            Some(lc) => exists|i: int|
                0 <= i < probes.len() && (#[trigger] probes[i].outcome) is Loaded && (forall|
                    j: int,
                |
                    0 <= j < i ==> !((#[trigger] probes[j].outcome) is Loaded))
                    && lc.config_dir@ == probes[i].dir@ && lc.config.checks.deep_view()
                    == probes[i].outcome->Loaded_0.checks.deep_view(),
            None => true,
        },
{
    let mut i: usize = 0;
    while i < probes.len()
        invariant
            i <= probes.len(),
            forall|j: int| 0 <= j < i ==> !((#[trigger] probes[j].outcome) is Loaded),
        decreases probes.len() - i,
    {
        match &probes[i].outcome {
            DirOutcome::Loaded(cfg) => {
                return Some(
                    LoadedConfig { config: cfg.duplicate(), config_dir: probes[i].dir.clone() },
                );
            },
            DirOutcome::NoConfig => {},
            DirOutcome::LoadFailed => {},
        }
        i += 1;
    }
    None
}

/// One changed file together with the configuration resolved for it,
/// when one was found.
pub struct FileAssignment {
    pub file: String,
    pub loaded: Option<LoadedConfig>,
}

/// The configuration directory an assignment was resolved to, if any.
pub open spec fn assigned_dir(a: FileAssignment) -> Option<Seq<char>> {
    match a.loaded {
        Some(lc) => Some(lc.config_dir@),
        None => None,
    }
}

/// The distinct configuration directories among the assignments, in
/// order of first appearance.
pub open spec fn distinct_dirs(assignments: Seq<FileAssignment>) -> Seq<Seq<char>>
    decreases assignments.len(),
{
    if assignments.len() == 0 {
        Seq::empty()
    } else {
        let rest = distinct_dirs(assignments.drop_last());
        match assigned_dir(assignments.last()) {
            None => rest,
            Some(d) => if rest.contains(d) {
                rest
            } else {
                rest.push(d)
            },
        }
    }
}

/// Some assignment was resolved to the directory `d`.
pub open spec fn dir_occurs(assignments: Seq<FileAssignment>, d: Seq<char>) -> bool {
    exists|i: int| 0 <= i < assignments.len() && assigned_dir(#[trigger] assignments[i]) == Some(d)
}

/// The checks of the configuration of the first assignment resolved to
/// the directory `d`.
pub open spec fn first_config_for_dir(
    assignments: Seq<FileAssignment>,
    d: Seq<char>,
) -> Seq<CheckView>
    decreases assignments.len(),
{
    if assignments.len() == 0 {
        Seq::empty()
    } else if dir_occurs(assignments.drop_last(), d) || assigned_dir(assignments.last()) != Some(
        d,
    ) {
        first_config_for_dir(assignments.drop_last(), d)
    } else {
        assignments.last().loaded->Some_0.config.checks.deep_view()
    }
}

/// The first assignment resolved to a directory decides that
/// directory's configuration.
proof fn lemma_first_config(assignments: Seq<FileAssignment>, i: int, d: Seq<char>)
    requires
        0 <= i < assignments.len(),
        assigned_dir(assignments[i]) == Some(d),
        forall|i2: int| 0 <= i2 < i ==> assigned_dir(#[trigger] assignments[i2]) != Some(d),
    ensures
        first_config_for_dir(assignments, d) == assignments[i].loaded->Some_0.config.checks
            .deep_view(),
    decreases assignments.len(),
{
    assert(forall|x: int|
        0 <= x < assignments.len() - 1 ==> assignments.drop_last()[x] == assignments[x]);
    if i == assignments.len() - 1 {
        assert(!dir_occurs(assignments.drop_last(), d));
    } else {
        assert(dir_occurs(assignments.drop_last(), d) || assigned_dir(assignments.last())
            != Some(d)) by {
            if assigned_dir(assignments.last()) == Some(d) {
                assert(assigned_dir(assignments.drop_last()[i]) == Some(d));
            }
        }
        lemma_first_config(assignments.drop_last(), i, d);
    }
}

/// The files assigned to the given configuration directory, in input
/// order.
pub open spec fn files_for_dir(assignments: Seq<FileAssignment>, d: Seq<char>) -> Seq<Seq<char>>
    decreases assignments.len(),
{
    if assignments.len() == 0 {
        Seq::empty()
    } else {
        let rest = files_for_dir(assignments.drop_last(), d);
        if assigned_dir(assignments.last()) == Some(d) {
            rest.push(assignments.last().file@)
        } else {
            rest
        }
    }
}

/// Collect the files assigned to the directory `d`.
#[verifier::loop_isolation(false)]
fn collect_files_for_dir(assignments: &Vec<FileAssignment>, d: &str) -> (files: Vec<String>)
    ensures
        files.deep_view() == files_for_dir(assignments@, d@),
{
    let mut files: Vec<String> = Vec::new();
    let mut i: usize = 0;
    while i < assignments.len()
        invariant
            i <= assignments.len(),
            files.deep_view() == files_for_dir(assignments@.take(i as int), d@),
        decreases assignments.len() - i,
    {
        proof {
            assert(assignments@.take(i + 1).drop_last() =~= assignments@.take(i as int));
            assert(assignments@.take(i + 1).last() == assignments@[i as int]);
        }
        let hit = match &assignments[i].loaded {
            Some(lc) => str_eq(lc.config_dir.as_str(), d),
            None => false,
        };
        if hit {
            files.push(assignments[i].file.clone());
        }
        proof {
            assert(files.deep_view() =~= files_for_dir(assignments@.take(i + 1), d@));
        }
        i += 1;
    }
    proof {
        assert(assignments@.take(assignments.len() as int) =~= assignments@);
    }
    files
}

/// Group changed files by the configuration resolved for each: one
/// group per distinct configuration directory, in order of first
/// appearance, holding that directory's configuration and the files
/// assigned to it; files with no configuration are dropped.
#[verifier::loop_isolation(false)]
pub fn group_files_by_config(assignments: &Vec<FileAssignment>) -> (groups: Vec<
    (LoadedConfig, Vec<String>),
>)
    ensures
        groups.len() == distinct_dirs(assignments@).len(),
        forall|g: int|
            0 <= g < groups.len() ==> (#[trigger] groups[g].0.config_dir@) == distinct_dirs(
                assignments@,
            )[g],
        forall|g: int|
            0 <= g < groups.len() ==> (#[trigger] groups[g].1.deep_view()) == files_for_dir(
                assignments@,
                distinct_dirs(assignments@)[g],
            ),
        forall|g: int|
            0 <= g < groups.len() ==> (#[trigger] groups[g].0.config.checks.deep_view())
                == first_config_for_dir(assignments@, distinct_dirs(assignments@)[g]),
{
    let mut groups: Vec<(LoadedConfig, Vec<String>)> = Vec::new();
    let mut i: usize = 0;
    while i < assignments.len()
        invariant
            i <= assignments.len(),
            groups.len() == distinct_dirs(assignments@.take(i as int)).len(),
            forall|g: int|
                0 <= g < groups.len() ==> (#[trigger] groups[g].0.config_dir@) == distinct_dirs(
                    assignments@.take(i as int),
                )[g],
            forall|g: int|
                0 <= g < groups.len() ==> (#[trigger] groups[g].1.deep_view()) == files_for_dir(
                    assignments@,
                    distinct_dirs(assignments@.take(i as int))[g],
                ),
            forall|g: int|
                0 <= g < groups.len() ==> (#[trigger] groups[g].0.config.checks.deep_view())
                    == first_config_for_dir(
                    assignments@,
                    distinct_dirs(assignments@.take(i as int))[g],
                ),
        decreases assignments.len() - i,
    {
        proof {
            assert(assignments@.take(i + 1).drop_last() =~= assignments@.take(i as int));
            assert(assignments@.take(i + 1).last() == assignments@[i as int]);
            assert(forall|x: int|
                0 <= x < i ==> assignments@.take(i as int)[x] == assignments@[x]);
        }
        match &assignments[i].loaded {
            Some(lc) => {
                let mut seen = false;
                let mut g: usize = 0;
                while g < groups.len()
                    invariant
                        g <= groups.len(),
                        seen == exists|g2: int|
                            0 <= g2 < g && (#[trigger] groups[g2].0.config_dir@)
                                == lc.config_dir@,
                    decreases groups.len() - g,
                {
                    if str_eq(groups[g].0.config_dir.as_str(), lc.config_dir.as_str()) {
                        seen = true;
                    }
                    g += 1;
                }
                proof {
                    let prev = distinct_dirs(assignments@.take(i as int));
                    if seen {
                        assert(prev.contains(lc.config_dir@));
                    } else {
                        if prev.contains(lc.config_dir@) {
                            let g2 = choose|g2: int|
                                0 <= g2 < prev.len() && prev[g2] == lc.config_dir@;
                            assert(groups[g2].0.config_dir@ == lc.config_dir@);
                        }
                    }
                }
                if !seen {
                    let files = collect_files_for_dir(assignments, lc.config_dir.as_str());
                    let entry = LoadedConfig {
                        config: lc.config.duplicate(),
                        config_dir: lc.config_dir.clone(),
                    };
                    groups.push((entry, files));
                    proof {
                        let av = assignments@;
                        let d = lc.config_dir@;
                        assert forall|i2: int| 0 <= i2 < i implies assigned_dir(
                            #[trigger] av[i2],
                        ) != Some(d) by {
                            if assigned_dir(av[i2]) == Some(d) {
                                lemma_distinct_dirs_complete(av.take(i as int), i2);
                            }
                        }
                        assert(assigned_dir(av[i as int]) == Some(d));
                        lemma_first_config(av, i as int, d);
                        let gnew = groups.len() - 1;
                        assert(groups[gnew as int].0.config_dir@ == d);
                        assert(groups[gnew as int].1.deep_view() == files_for_dir(av, d));
                        assert(groups[gnew as int].0.config.checks.deep_view()
                            == first_config_for_dir(av, d));
                    }
                }
            },
            None => {},
        }
        proof {
            let prev = distinct_dirs(assignments@.take(i as int));
            let next = distinct_dirs(assignments@.take(i + 1));
            assert(next == match assigned_dir(assignments@[i as int]) {
                None => prev,
                Some(d) => if prev.contains(d) {
                    prev
                } else {
                    prev.push(d)
                },
            });
        }
        i += 1;
    }
    proof {
        assert(assignments@.take(assignments.len() as int) =~= assignments@);
    }
    groups
}

/// An assignment's directory always appears in the distinct list of any
/// prefix that holds it.
proof fn lemma_distinct_dirs_complete(assignments: Seq<FileAssignment>, i: int)
    requires
        0 <= i < assignments.len(),
        assigned_dir(assignments[i]) is Some,
    ensures
        distinct_dirs(assignments).contains(assigned_dir(assignments[i])->Some_0),
    decreases assignments.len(),
{
    if i == assignments.len() - 1 {
        let rest = distinct_dirs(assignments.drop_last());
        let d = assigned_dir(assignments[i])->Some_0;
        if !rest.contains(d) {
            assert(distinct_dirs(assignments).last() == d);
        }
    } else {
        lemma_distinct_dirs_complete(assignments.drop_last(), i);
        let d = assigned_dir(assignments[i])->Some_0;
        assert(distinct_dirs(assignments.drop_last()).contains(d));
        let rest = distinct_dirs(assignments.drop_last());
        let k = choose|k: int| 0 <= k < rest.len() && rest[k] == d;
        match assigned_dir(assignments.last()) {
            None => {},
            Some(d2) => {
                if !rest.contains(d2) {
                    assert(distinct_dirs(assignments)[k] == d);
                }
            },
        }
    }
}

} // verus!
