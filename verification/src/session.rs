//! The language-server session builder.
//!
//! Composes the resolved binary paths and database location into a
//! process-launch specification and a workspace-configuration payload,
//! applies user-declared overrides, resolves the augmentation mode
//! from user settings, and gates the bundled-server variant on its
//! dependencies and entrypoint.

use crate::db::SourceFile;
use crate::fsenv::{Environment, FsView};
use crate::json::{deep_merge, jv, jv_entries, merge_values, obj_get, obj_has, str_items, Json, Jv};
use crate::locator::{BasiliskExtension, Resolution};
use crate::text::{concat_str, join_path, join_rel, str_eq};
use vstd::prelude::*;
use vstd::string::StrSliceExecFns;
use vstd::string::StringExecFns;

verus! {

/// The error taxonomy: a malformed or empty user override, a failed
/// file-system operation, a package that could not be brought to its
/// required version, and a bundled launch entrypoint missing from
/// every searched location.
#[derive(Debug)]
pub enum ExtError {
    Config(String),
    Io(String),
    Dependency { package: String, required: String, found: Option<String> },
    BundledAsset(String),
}

/// The human-readable text of an error.
pub open spec fn spec_message(e: ExtError) -> Seq<char> {
    match e {
        ExtError::Config(m) => "configuration error: "@ + m@,
        ExtError::Io(m) => "i/o error: "@ + m@,
        ExtError::Dependency { package, required, found } => "dependency error: package "@
            + package@ + " requires version "@ + required@ + match found {
            Some(f) => ", found "@ + f@,
            None => ", found none"@,
        },
        ExtError::BundledAsset(m) => "bundled asset error: "@ + m@,
    }
}

impl ExtError {
    /// The human-readable message surfaced to the host.
    pub fn message(&self) -> (r: String)
        ensures
            r@ == spec_message(*self),
    {
        match self {
            ExtError::Config(m) => concat_str("configuration error: ", m.as_str()),
            ExtError::Io(m) => concat_str("i/o error: ", m.as_str()),
            ExtError::Dependency { package, required, found } => {
                let mut r = concat_str("dependency error: package ", package.as_str());
                r = r.concat(" requires version ");
                r = r.concat(required.as_str());
                match found {
                    Some(f) => {
                        r = r.concat(", found ");
                        r = r.concat(f.as_str());
                    },
                    None => {
                        r = r.concat(", found none");
                    },
                }
                proof {
                    assert(r@ =~= spec_message(*self));
                }
                r
            },
            ExtError::BundledAsset(m) => concat_str("bundled asset error: ", m.as_str()),
        }
    }
}

/// The three-valued augmentation toggle.
#[derive(Clone, Copy, Debug, PartialEq, Eq, Structural)]
pub enum Mode {
    Proxy,
    Augment,
    Disabled,
}

/// The text of a mode.
pub open spec fn mode_text(m: Mode) -> Seq<char> {
    match m {
        Mode::Proxy => "proxy"@,
        Mode::Augment => "augment"@,
        Mode::Disabled => "disabled"@,
    }
}

/// The closed set of accepted mode strings.
pub open spec fn valid_mode(s: Seq<char>) -> bool {
    s == "proxy"@ || s == "augment"@ || s == "disabled"@
}

/// The mode named by a string; anything outside the closed set falls
/// back to the proxy default.
pub open spec fn mode_of_text(s: Seq<char>) -> Mode {
    if s == "augment"@ {
        Mode::Augment
    } else if s == "disabled"@ {
        Mode::Disabled
    } else {
        Mode::Proxy
    }
}

/// Every valid mode string resolves to itself: reading the resolved
/// mode back as text gives the string unchanged.
pub proof fn lemma_valid_mode_round_trip(s: Seq<char>)
    requires
        valid_mode(s),
    ensures
        mode_text(mode_of_text(s)) == s,
{
    reveal_strlit("proxy");
    reveal_strlit("augment");
    reveal_strlit("disabled");
}

impl Mode {
    /// The mode's text.
    pub fn as_str(&self) -> (r: &'static str)
        ensures
            r@ == mode_text(*self),
    {
        match self {
            Mode::Proxy => "proxy",
            Mode::Augment => "augment",
            Mode::Disabled => "disabled",
        }
    }
}

/// The mode named by a string, with the proxy default for anything
/// outside the closed set.
pub fn mode_from_str(s: &str) -> (r: Mode)
    ensures
        r == mode_of_text(s@),
{
    if str_eq(s, "augment") {
        Mode::Augment
    } else if str_eq(s, "disabled") {
        Mode::Disabled
    } else {
        Mode::Proxy
    }
}

/// The mode read from the user-settings value at the fixed key path
/// `settings.clangd.mode`: the string there when it is one of the
/// three accepted values, the proxy default on absence or anything
/// invalid.
pub open spec fn spec_resolve_mode(settings: Jv) -> Mode {
    match settings {
        Jv::Obj(m) => match obj_get(m, "settings"@) {
            Jv::Obj(sm) => match obj_get(sm, "clangd"@) {
                Jv::Obj(cm) => match obj_get(cm, "mode"@) {
                    Jv::Str(s) => mode_of_text(s),
                    _ => Mode::Proxy,
                },
                _ => Mode::Proxy,
            },
            _ => Mode::Proxy,
        },
        _ => Mode::Proxy,
    }
}

/// Resolves the augmentation mode from the user-settings value;
/// absent settings give the proxy default.
pub fn resolve_mode(settings: Option<&Json>) -> (r: Mode)
    ensures
        match settings {
            Some(s) => r == spec_resolve_mode(jv(*s)),
            None => r == Mode::Proxy,
        },
{
    let root = match settings {
        Some(s) => s,
        None => {
            return Mode::Proxy;
        },
    };
    let m = match root {
        Json::Obj(m) => m,
        _ => {
            return Mode::Proxy;
        },
    };
    let gk = crate::json::get_key(m, "settings");
    let sm = match gk {
        Some(Json::Obj(sm)) => sm,
        _ => {
            proof {
                if gk is None {
                    crate::json::lemma_obj_get_absent(crate::json::jv_entries(m@), "settings"@);
                }
            }
            return Mode::Proxy;
        },
    };
    let gk2 = crate::json::get_key(sm, "clangd");
    let cm = match gk2 {
        Some(Json::Obj(cm)) => cm,
        _ => {
            proof {
                if gk2 is None {
                    crate::json::lemma_obj_get_absent(crate::json::jv_entries(sm@), "clangd"@);
                }
            }
            return Mode::Proxy;
        },
    };
    let gk3 = crate::json::get_key(cm, "mode");
    match gk3 {
        Some(Json::Str(s)) => mode_from_str(s.as_str()),
        _ => {
            proof {
                if gk3 is None {
                    crate::json::lemma_obj_get_absent(crate::json::jv_entries(cm@), "mode"@);
                }
            }
            Mode::Proxy
        },
    }
}

/// A process-launch specification: command, ordered arguments, and
/// environment entries.
pub struct LaunchSpec {
    pub command: String,
    pub args: Vec<String>,
    pub env: Vec<(String, String)>,
}

/// A user-declared override: binary path, and optional arguments and
/// environment used verbatim.
pub struct UserOverride {
    pub path: String,
    pub arguments: Option<Vec<String>>,
    pub env: Option<Vec<(String, String)>>,
}

/// Copies a list of strings.
fn copy_strings(v: &Vec<String>) -> (r: Vec<String>)
    ensures
        r.deep_view() == v.deep_view(),
{
    let mut out: Vec<String> = Vec::new();
    let n = v.len();
    let mut i: usize = 0;
    while i < n
        invariant
            n == v@.len(),
            0 <= i <= n,
            out@.len() == i,
            forall|j: int| 0 <= j < i ==> out@[j]@ == #[trigger] v@[j]@,
        decreases n - i,
    {
        out.push(String::from_str(v[i].as_str()));
        i = i + 1;
    }
    proof {
        assert forall|j: int| 0 <= j < n implies out.deep_view()[j] == v.deep_view()[j] by {
            assert(out@[j]@ == v@[j]@);
        }
        assert(out.deep_view() =~= v.deep_view());
    }
    out
}

/// Copies a list of name/value pairs.
fn copy_pairs(v: &Vec<(String, String)>) -> (r: Vec<(String, String)>)
    ensures
        r.deep_view() == v.deep_view(),
{
    let mut out: Vec<(String, String)> = Vec::new();
    let n = v.len();
    let mut i: usize = 0;
    while i < n
        invariant
            n == v@.len(),
            0 <= i <= n,
            out@.len() == i,
            forall|j: int| 0 <= j < i ==> (#[trigger] out@[j]).0@ == v@[j].0@ && out@[j].1@
                == v@[j].1@,
        decreases n - i,
    {
        out.push((String::from_str(v[i].0.as_str()), String::from_str(v[i].1.as_str())));
        i = i + 1;
    }
    proof {
        assert forall|j: int| 0 <= j < n implies out.deep_view()[j] == v.deep_view()[j] by {
            assert(out@[j].0@ == v@[j].0@ && out@[j].1@ == v@[j].1@);
        }
        assert(out.deep_view() =~= v.deep_view());
    }
    out
}

/// A list of strings read from a list of values: present only when
/// every element is a string.
pub open spec fn str_list_of(items: Seq<Jv>) -> Option<Seq<Seq<char>>>
    decreases items.len(),
{
    if items.len() == 0 {
        Some(Seq::empty())
    } else {
        match (str_list_of(items.drop_last()), items.last()) {
            (Some(rest), Jv::Str(s)) => Some(rest.push(s)),
            _ => None,
        }
    }
}

/// Name/value pairs read from a mapping: present only when every
/// value is a string.
pub open spec fn str_pairs_of(entries: Seq<(Seq<char>, Jv)>) -> Option<
    Seq<(Seq<char>, Seq<char>)>,
>
    decreases entries.len(),
{
    if entries.len() == 0 {
        Some(Seq::empty())
    } else {
        match (str_pairs_of(entries.drop_last()), entries.last().1) {
            (Some(rest), Jv::Str(s)) => Some(rest.push((entries.last().0, s))),
            _ => None,
        }
    }
}

/// Reads a list of strings from a list of values.
fn read_str_list(items: &Vec<Json>) -> (r: Option<Vec<String>>)
    ensures
        match r {
            Some(v) => str_list_of(crate::json::jv_list(items@)) == Some(v.deep_view()),
            None => str_list_of(crate::json::jv_list(items@)) is None,
        },
{
    proof {
        crate::json::lemma_jv_list_props(items@);
    }
    let ghost model = crate::json::jv_list(items@);
    let mut out: Vec<String> = Vec::new();
    let n = items.len();
    let mut i: usize = 0;
    while i < n
        invariant
            n == items@.len(),
            0 <= i <= n,
            model == crate::json::jv_list(items@),
            model.len() == n,
            forall|l: int| 0 <= l < n ==> #[trigger] model[l] == crate::json::jv(items@[l]),
            str_list_of(model.take(i as int)) == Some(out.deep_view()),
        decreases n - i,
    {
        match &items[i] {
            Json::Str(s) => {
                out.push(String::from_str(s.as_str()));
            },
            _ => {
                proof {
                    lemma_str_list_absent(model, i as int);
                }
                return None;
            },
        }
        proof {
            assert(model.take(i + 1).drop_last() =~= model.take(i as int));
            assert(model.take(i + 1).last() == model[i as int]);
        }
        i = i + 1;
    }
    proof {
        assert(model.take(n as int) =~= model);
    }
    Some(out)
}

/// A non-string element anywhere makes the whole list read fail.
proof fn lemma_str_list_absent(items: Seq<Jv>, i: int)
    requires
        0 <= i < items.len(),
        !(items[i] is Str),
    ensures
        str_list_of(items) is None,
    decreases items.len(),
{
    if items.len() > 0 && i < items.len() - 1 {
        lemma_str_list_absent(items.drop_last(), i);
    }
}

/// Reads name/value pairs from a mapping's entries.
fn read_str_pairs(entries: &Vec<(String, Json)>) -> (r: Option<Vec<(String, String)>>)
    ensures
        match r {
            Some(v) => str_pairs_of(jv_entries(entries@)) == Some(v.deep_view()),
            None => str_pairs_of(jv_entries(entries@)) is None,
        },
{
    proof {
        crate::json::lemma_jv_entries_props(entries@);
    }
    let ghost model = jv_entries(entries@);
    let mut out: Vec<(String, String)> = Vec::new();
    let n = entries.len();
    let mut i: usize = 0;
    while i < n
        invariant
            n == entries@.len(),
            0 <= i <= n,
            model == jv_entries(entries@),
            model.len() == n,
            forall|l: int|
                0 <= l < n ==> #[trigger] model[l] == (
                    entries@[l].0@,
                    crate::json::jv(entries@[l].1),
                ),
            str_pairs_of(model.take(i as int)) == Some(out.deep_view()),
        decreases n - i,
    {
        match &entries[i].1 {
            Json::Str(s) => {
                out.push((String::from_str(entries[i].0.as_str()), String::from_str(s.as_str())));
            },
            _ => {
                proof {
                    lemma_str_pairs_absent(model, i as int);
                }
                return None;
            },
        }
        proof {
            assert(model.take(i + 1).drop_last() =~= model.take(i as int));
            assert(model.take(i + 1).last() == model[i as int]);
        }
        i = i + 1;
    }
    proof {
        assert(model.take(n as int) =~= model);
    }
    Some(out)
}

/// A non-string value anywhere makes the whole mapping read fail.
proof fn lemma_str_pairs_absent(entries: Seq<(Seq<char>, Jv)>, i: int)
    requires
        0 <= i < entries.len(),
        !(entries[i].1 is Str),
    ensures
        str_pairs_of(entries) is None,
    decreases entries.len(),
{
    if entries.len() > 0 && i < entries.len() - 1 {
        lemma_str_pairs_absent(entries.drop_last(), i);
    }
}

/// A well-formed override block: a mapping whose `path` is a string,
/// whose `arguments`, when given, is a list of strings, and whose
/// `env`, when given, is a mapping of strings to strings.
pub open spec fn spec_override_block_ok(block: Jv) -> bool {
    match block {
        Jv::Obj(bm) => {
            &&& obj_get(bm, "path"@) is Str
            &&& (obj_has(bm, "arguments"@) ==> match obj_get(bm, "arguments"@) {
                Jv::Arr(items) => str_list_of(items) is Some,
                _ => false,
            })
            &&& (obj_has(bm, "env"@) ==> match obj_get(bm, "env"@) {
                Jv::Obj(em) => str_pairs_of(em) is Some,
                _ => false,
            })
        },
        _ => false,
    }
}

/// Whether the settings value declares an override block.
pub open spec fn spec_has_override(settings: Jv) -> bool {
    settings matches Jv::Obj(m) && obj_has(m, "binary"@)
}

/// Reads the user-declared override from the settings value.  Absent
/// `binary` block: no override.  A malformed block — no string at
/// `path`, or ill-typed `arguments` or `env` — is a configuration
/// error.
pub fn parse_override(settings: &Json) -> (r: Result<Option<UserOverride>, ExtError>)
    ensures
        !spec_has_override(jv(*settings)) ==> (r matches Ok(o) && o is None),
        spec_has_override(jv(*settings)) ==> {
            let block = obj_get(jv(*settings)->Obj_0, "binary"@);
            if spec_override_block_ok(block) {
                r matches Ok(o) && o matches Some(ov) && {
                    &&& Jv::Str(ov.path@) == obj_get(block->Obj_0, "path"@)
                    &&& (match ov.arguments {
                        Some(a) => obj_has(block->Obj_0, "arguments"@) && str_list_of(
                            obj_get(block->Obj_0, "arguments"@)->Arr_0,
                        ) == Some(a.deep_view()),
                        None => !obj_has(block->Obj_0, "arguments"@),
                    })
                    &&& (match ov.env {
                        Some(e) => obj_has(block->Obj_0, "env"@) && str_pairs_of(
                            obj_get(block->Obj_0, "env"@)->Obj_0,
                        ) == Some(e.deep_view()),
                        None => !obj_has(block->Obj_0, "env"@),
                    })
                }
            } else {
                r matches Err(e) && e is Config
            }
        },
{
    let m = match settings {
        Json::Obj(m) => m,
        _ => {
            return Ok(None);
        },
    };
    let gk = crate::json::get_key(m, "binary");
    let bm = match gk {
        Some(Json::Obj(bm)) => bm,
        Some(_) => {
            return Err(ExtError::Config(String::from_str("override block is not a mapping")));
        },
        None => {
            return Ok(None);
        },
    };
    let path = match crate::json::get_key(bm, "path") {
        Some(Json::Str(p)) => String::from_str(p.as_str()),
        _ => {
            proof {
                if !obj_has(jv_entries(bm@), "path"@) {
                    crate::json::lemma_obj_get_absent(jv_entries(bm@), "path"@);
                }
            }
            return Err(
                ExtError::Config(String::from_str("override block declares no binary path")),
            );
        },
    };
    let arguments: Option<Vec<String>> = match crate::json::get_key(bm, "arguments") {
        Some(Json::Arr(items)) => match read_str_list(items) {
            Some(v) => Some(v),
            None => {
                return Err(
                    ExtError::Config(String::from_str("override arguments are not all strings")),
                );
            },
        },
        Some(_) => {
            return Err(ExtError::Config(String::from_str("override arguments are not a list")));
        },
        None => None,
    };
    let env: Option<Vec<(String, String)>> = match crate::json::get_key(bm, "env") {
        Some(Json::Obj(em)) => match read_str_pairs(em) {
            Some(v) => Some(v),
            None => {
                return Err(
                    ExtError::Config(
                        String::from_str("override environment values are not all strings"),
                    ),
                );
            },
        },
        Some(_) => {
            return Err(
                ExtError::Config(String::from_str("override environment is not a mapping")),
            );
        },
        None => None,
    };
    Ok(Some(UserOverride { path, arguments, env }))
}

/// The command an override resolves to: an absolute path stands as it
/// is; a relative one resolves first by the workspace PATH lookup,
/// else by joining it under the workspace root.
pub open spec fn spec_override_command(
    path: Seq<char>,
    which: Option<Seq<char>>,
    root: Seq<char>,
) -> Seq<char> {
    if path.len() > 0 && path[0] == '/' {
        path
    } else {
        match which {
            Some(w) => w,
            None => root + seq!['/'] + path,
        }
    }
}

/// Builds the launch specification for a user override, bypassing
/// toolchain resolution and database synthesis.  An override declaring
/// an empty path fails with a configuration error, before any launch
/// is attempted; otherwise the declared arguments and environment are
/// used verbatim, empty when unspecified.
pub fn build_override_launch(
    ov: &UserOverride,
    which_result: &Option<String>,
    worktree_root: &str,
) -> (r: Result<LaunchSpec, ExtError>)
    ensures
        ov.path@.len() == 0 <==> (r matches Err(e) && e is Config),
        ov.path@.len() > 0 ==> (r matches Ok(ls) && {
            &&& ls.command@ == spec_override_command(
                ov.path@,
                which_result.deep_view(),
                worktree_root@,
            )
            &&& ls.args.deep_view() == (match ov.arguments {
                Some(a) => a.deep_view(),
                None => Seq::<Seq<char>>::empty(),
            })
            &&& ls.env.deep_view() == (match ov.env {
                Some(e) => e.deep_view(),
                None => Seq::<(Seq<char>, Seq<char>)>::empty(),
            })
        }),
{
    if ov.path.as_str().unicode_len() == 0 {
        return Err(ExtError::Config(String::from_str("override binary path is empty")));
    }
    let command: String = if ov.path.as_str().get_char(0) == '/' {
        String::from_str(ov.path.as_str())
    } else {
        match which_result {
            Some(w) => String::from_str(w.as_str()),
            None => join_path(worktree_root, ov.path.as_str()),
        }
    };
    let args: Vec<String> = match &ov.arguments {
        Some(a) => copy_strings(a),
        None => Vec::new(),
    };
    let env: Vec<(String, String)> = match &ov.env {
        Some(e) => copy_pairs(e),
        None => Vec::new(),
    };
    proof {
        assert(args.deep_view() =~= (match ov.arguments {
            Some(a) => a.deep_view(),
            None => Seq::<Seq<char>>::empty(),
        }));
        assert(env.deep_view() =~= (match ov.env {
            Some(e) => e.deep_view(),
            None => Seq::<(Seq<char>, Seq<char>)>::empty(),
        }));
    }
    Ok(LaunchSpec { command, args, env })
}

/// The launch command: the resolved language-server binary, or its
/// bare name when unresolved.
pub open spec fn spec_command_name(st: BasiliskExtension) -> Seq<char> {
    match st.clangd_path {
        Resolution::Found(p) => p@,
        _ => "clangd"@,
    }
}

/// The launch arguments: the fixed diagnostic and indexing flags, the
/// compile-commands-directory flag, and the query-driver flag only
/// when the toolchain binary resolved.
pub open spec fn spec_args(st: BasiliskExtension, root: Seq<char>) -> Seq<Seq<char>> {
    let base = seq![
        "--background-index"@,
        "--clang-tidy"@,
        "--header-insertion=never"@,
        "--compile-commands-dir="@ + root + "/build"@,
    ];
    match st.qcc_path {
        Resolution::Found(q) => base + seq!["--query-driver="@ + q@],
        _ => base,
    }
}

/// The launch environment: one entry naming the include root, only
/// when it resolved.
pub open spec fn spec_env_entries(st: BasiliskExtension) -> Seq<(Seq<char>, Seq<char>)> {
    match st.basilisk_root {
        Resolution::Found(r) => seq![("BASILISK_ROOT"@, r@)],
        _ => Seq::empty(),
    }
}

/// The fallback flags of the workspace configuration: the fixed
/// baseline dialect and warning flags, and the include flag only when
/// an include root resolved.
pub open spec fn spec_fallback_flags(st: BasiliskExtension) -> Seq<Seq<char>> {
    let base = seq!["-std=c99"@, "-Wall"@, "-Wextra"@];
    match st.basilisk_root {
        Resolution::Found(r) => base + seq!["-I"@ + r@],
        _ => base,
    }
}

impl BasiliskExtension {
    /// Composes the launch specification from the cached resolutions.
    pub fn build_launch(&self, worktree_root: &str) -> (r: LaunchSpec)
        ensures
            r.command@ == spec_command_name(*self),
            r.args.deep_view() == spec_args(*self, worktree_root@),
            r.env.deep_view() == spec_env_entries(*self),
    {
        let command: String = match &self.clangd_path {
            Resolution::Found(p) => String::from_str(p.as_str()),
            _ => String::from_str("clangd"),
        };
        let mut args: Vec<String> = Vec::new();
        args.push(String::from_str("--background-index"));
        args.push(String::from_str("--clang-tidy"));
        args.push(String::from_str("--header-insertion=never"));
        let dir_flag = concat_str("--compile-commands-dir=", worktree_root).concat("/build");
        proof {
            assert(dir_flag@ =~= "--compile-commands-dir="@ + worktree_root@ + "/build"@);
        }
        args.push(dir_flag);
        if let Resolution::Found(q) = &self.qcc_path {
            args.push(concat_str("--query-driver=", q.as_str()));
        }
        let mut env: Vec<(String, String)> = Vec::new();
        if let Resolution::Found(root) = &self.basilisk_root {
            env.push((String::from_str("BASILISK_ROOT"), String::from_str(root.as_str())));
        }
        proof {
            assert(args.deep_view() =~= spec_args(*self, worktree_root@));
            assert(env.deep_view() =~= spec_env_entries(*self));
        }
        LaunchSpec { command, args, env }
    }

    /// Handles one language-server-start request: resolves the
    /// environment (cached thereafter), plans the regeneration of the
    /// compilation database, and composes the launch specification.
    /// The returned text, if any, is what the database file must
    /// become before the launch.
    pub fn language_server_command(
        &mut self,
        env: &Environment,
        files: &Vec<SourceFile>,
        db_exists: bool,
    ) -> (r: (LaunchSpec, Option<String>))
        ensures
            old(self).clangd_path is Unknown ==> crate::locator::records(
                final(self).clangd_path,
                match env.which_clangd {
                    Some(w) => Some(w@),
                    None => None,
                },
            ),
            !(old(self).clangd_path is Unknown) ==> final(self).clangd_path == old(
                self,
            ).clangd_path,
            old(self).qcc_path is Unknown ==> crate::locator::records(
                final(self).qcc_path,
                crate::locator::spec_find_qcc(*env),
            ),
            !(old(self).qcc_path is Unknown) ==> final(self).qcc_path == old(self).qcc_path,
            old(self).basilisk_root is Unknown ==> crate::locator::records(
                final(self).basilisk_root,
                crate::locator::spec_detect_root(*env),
            ),
            !(old(self).basilisk_root is Unknown) ==> final(self).basilisk_root == old(
                self,
            ).basilisk_root,
            r.0.command@ == spec_command_name(*final(self)),
            r.0.args.deep_view() == spec_args(*final(self), env.worktree_root@),
            r.0.env.deep_view() == spec_env_entries(*final(self)),
            ({
                let entries = crate::db::spec_entries(
                    env.worktree_root@,
                    final(self).qcc_path.spec_path(),
                    final(self).basilisk_root.spec_path(),
                    files.deep_view(),
                );
                &&& entries.len() == 0 && db_exists ==> r.1 is None
                &&& entries.len() == 0 && !db_exists ==> (r.1 matches Some(s) && s@ == "[]"@)
                &&& entries.len() > 0 ==> (r.1 matches Some(s) && s@ == crate::db::db_text(
                    entries,
                ))
            }),
    {
        self.detect_environment(env);
        let db = self.refresh_compile_commands(env.worktree_root.as_str(), files, db_exists);
        let launch = self.build_launch(env.worktree_root.as_str());
        (launch, db)
    }

    /// The workspace-configuration payload: a `clangd` mapping holding
    /// the fallback flags.
    pub fn language_server_workspace_configuration(&self) -> (r: Json)
        ensures
            jv(r) == Jv::Obj(
                seq![
                    (
                        "clangd"@,
                        Jv::Obj(
                            seq![("fallbackFlags"@, Jv::Arr(str_items(spec_fallback_flags(*self))))],
                        ),
                    ),
                ],
            ),
    {
        let mut flags: Vec<Json> = Vec::new();
        flags.push(Json::Str(String::from_str("-std=c99")));
        flags.push(Json::Str(String::from_str("-Wall")));
        flags.push(Json::Str(String::from_str("-Wextra")));
        if let Resolution::Found(root) = &self.basilisk_root {
            flags.push(Json::Str(concat_str("-I", root.as_str())));
        }
        proof {
            crate::json::lemma_jv_list_props(flags@);
            assert(crate::json::jv_list(flags@) =~= str_items(spec_fallback_flags(*self)));
        }
        let mut clangd: Vec<(String, Json)> = Vec::new();
        clangd.push((String::from_str("fallbackFlags"), Json::Arr(flags)));
        let mut top: Vec<(String, Json)> = Vec::new();
        top.push((String::from_str("clangd"), Json::Obj(clangd)));
        let r = Json::Obj(top);
        proof {
            crate::json::lemma_jv_entries_props(clangd@);
            crate::json::lemma_jv_entries_props(top@);
            assert(jv_entries(clangd@) =~~= seq![("fallbackFlags"@, Jv::Arr(crate::json::jv_list(flags@)))]);
            assert(jv_entries(top@) =~~= seq![("clangd"@, Jv::Obj(jv_entries(clangd@)))]);
            assert(jv(r) =~~= Jv::Obj(
                seq![
                    (
                        "clangd"@,
                        Jv::Obj(
                            seq![("fallbackFlags"@, Jv::Arr(str_items(spec_fallback_flags(*self))))],
                        ),
                    ),
                ],
            ));
        }
        r
    }
}

/// The overlay that injection merges into the initialization options:
/// the resolved mode under the fixed namespace key.
pub open spec fn mode_overlay_jv(m: Mode) -> Jv {
    Jv::Obj(seq![("basilisk"@, Jv::Obj(seq![("mode"@, Jv::Str(mode_text(m)))]))])
}

/// Builds the mode overlay value.
pub fn mode_overlay(m: Mode) -> (r: Json)
    ensures
        jv(r) == mode_overlay_jv(m),
{
    let mut inner: Vec<(String, Json)> = Vec::new();
    inner.push((String::from_str("mode"), Json::Str(String::from_str(m.as_str()))));
    let mut outer: Vec<(String, Json)> = Vec::new();
    outer.push((String::from_str("basilisk"), Json::Obj(inner)));
    let r = Json::Obj(outer);
    proof {
        crate::json::lemma_jv_entries_props(inner@);
        crate::json::lemma_jv_entries_props(outer@);
        assert(jv_entries(inner@) =~~= seq![("mode"@, Jv::Str(mode_text(m)))]);
        assert(jv_entries(outer@) =~~= seq![("basilisk"@, Jv::Obj(jv_entries(inner@)))]);
        assert(jv(r) =~~= mode_overlay_jv(m));
    }
    r
}

/// The initialization-options payload with the resolved mode
/// injected: the user-declared options deep-merged with the mode
/// overlay, the overlay winning on conflicting scalar keys and
/// merging recursively on nested mappings; absent options give the
/// overlay alone.
pub fn init_options_payload(init: Option<&Json>, m: Mode) -> (r: Json)
    ensures
        jv(r) == merge_values(
            match init {
                Some(j) => jv(*j),
                None => Jv::Null,
            },
            mode_overlay_jv(m),
        ),
{
    let ov = mode_overlay(m);
    match init {
        Some(b) => deep_merge(b, &ov),
        None => ov,
    }
}

/// The workspace-configuration overlay of the bundled variant: the
/// mode under the fixed namespace key, inside the `clangd` mapping.
pub open spec fn config_mode_overlay_jv(m: Mode) -> Jv {
    Jv::Obj(seq![("clangd"@, mode_overlay_jv(m))])
}

impl BasiliskExtension {
    /// The workspace-configuration payload of the bundled variant:
    /// the plain payload with the resolved mode inserted under the
    /// fixed nested key, overwriting any prior value there.
    pub fn workspace_configuration_with_mode(&self, m: Mode) -> (r: Json)
        ensures
            jv(r) == merge_values(
                Jv::Obj(
                    seq![
                        (
                            "clangd"@,
                            Jv::Obj(
                                seq![
                                    ("fallbackFlags"@, Jv::Arr(str_items(spec_fallback_flags(*self)))),
                                ],
                            ),
                        ),
                    ],
                ),
                config_mode_overlay_jv(m),
            ),
    {
        let base = self.language_server_workspace_configuration();
        let inner = mode_overlay(m);
        let mut outer: Vec<(String, Json)> = Vec::new();
        outer.push((String::from_str("clangd"), inner));
        let wrap = Json::Obj(outer);
        proof {
            crate::json::lemma_jv_entries_props(outer@);
            assert(jv(wrap) =~~= config_mode_overlay_jv(m));
        }
        deep_merge(&base, &wrap)
    }
}

/// Whether an installed package satisfies a dependency: only the
/// exact required version does.
pub fn dependency_first_check(required: &str, observed: &Option<String>) -> (r: bool)
    ensures
        r == (match observed {
            Some(v) => v@ == required@,
            None => false,
        }),
{
    match observed {
        Some(v) => str_eq(v.as_str(), required),
        None => false,
    }
}

/// The verdict after the single install-then-reverify cycle: the
/// exact required version passes; anything else is fatal for the
/// session, carrying the package, the required version, and what was
/// actually found.
pub fn dependency_recheck(package: &str, required: &str, observed: &Option<String>) -> (r: Result<
    (),
    ExtError,
>)
    ensures
        (match observed {
            Some(v) => v@ == required@,
            None => false,
        }) <==> r is Ok,
        r matches Err(e) ==> (e matches ExtError::Dependency { package: p, required: q, found: f }
            && p@ == package@ && q@ == required@ && f.deep_view() == observed.deep_view()),
{
    if dependency_first_check(required, observed) {
        Ok(())
    } else {
        let found: Option<String> = match observed {
            Some(v) => Some(String::from_str(v.as_str())),
            None => None,
        };
        Err(
            ExtError::Dependency {
                package: String::from_str(package),
                required: String::from_str(required),
                found,
            },
        )
    }
}

/// Copies the first `upto` strings of a list.
fn copy_strings_upto(v: &Vec<String>, upto: usize) -> (r: Vec<String>)
    requires
        upto <= v@.len(),
    ensures
        r.deep_view() == v.deep_view().take(upto as int),
{
    let mut out: Vec<String> = Vec::new();
    let mut i: usize = 0;
    while i < upto
        invariant
            upto <= v@.len(),
            0 <= i <= upto,
            out@.len() == i,
            forall|j: int| 0 <= j < i ==> out@[j]@ == #[trigger] v@[j]@,
        decreases upto - i,
    {
        out.push(String::from_str(v[i].as_str()));
        i = i + 1;
    }
    proof {
        assert forall|j: int| 0 <= j < upto implies out.deep_view()[j] == v.deep_view().take(
            upto as int,
        )[j] by {
            assert(out@[j]@ == v@[j]@);
        }
        assert(out.deep_view() =~= v.deep_view().take(upto as int));
    }
    out
}

/// The installed-extension layout: the working directory is named by
/// the extension identifier and sits under a directory named `work`.
pub open spec fn spec_installed_shape(cwd: Seq<Seq<char>>, ext_id: Seq<char>) -> bool {
    cwd.len() >= 3 && cwd.last() == ext_id && cwd[cwd.len() - 2] == "work"@
}

/// The bundled server entrypoint: the candidate under the working
/// directory when it exists, else — when the working directory has
/// the installed layout — the candidate under the installed location;
/// nothing when both are missing.
pub open spec fn spec_entrypoint(
    fs: FsView,
    cwd: Seq<Seq<char>>,
    ext_id: Seq<char>,
    rel: Seq<char>,
) -> Option<Seq<char>> {
    let c1 = join_rel(cwd) + seq!['/'] + rel;
    if fs.has_file(c1) {
        Some(c1)
    } else if spec_installed_shape(cwd, ext_id) {
        let c2 = join_rel(cwd.take(cwd.len() - 2)) + seq!['/'] + "installed"@ + seq!['/'] + ext_id
            + seq!['/'] + rel;
        if fs.has_file(c2) {
            Some(c2)
        } else {
            None
        }
    } else {
        None
    }
}

/// Resolves the bundled server entrypoint, searching the working
/// directory first and the installed location second; absence of both
/// is fatal.
pub fn resolve_entrypoint(fs: &FsView, cwd: &Vec<String>, ext_id: &str, rel: &str) -> (r: Result<
    String,
    ExtError,
>)
    ensures
        match spec_entrypoint(*fs, cwd.deep_view(), ext_id@, rel@) {
            Some(p) => (r matches Ok(s) && s@ == p),
            None => (r matches Err(e) && e is BundledAsset),
        },
{
    let cwd_path = crate::text::join_components(cwd);
    let c1 = join_path(cwd_path.as_str(), rel);
    if fs.is_file(c1.as_str()) {
        return Ok(c1);
    }
    let n = cwd.len();
    if n >= 3 && str_eq(cwd[n - 1].as_str(), ext_id) && str_eq(cwd[n - 2].as_str(), "work") {
        proof {
            assert(cwd.deep_view().last() == cwd@[n - 1]@);
            assert(cwd.deep_view()[n - 2] == cwd@[n - 2]@);
        }
        let prefix = copy_strings_upto(cwd, n - 2);
        let base = crate::text::join_components(&prefix);
        let mut c2 = join_path(base.as_str(), "installed");
        c2 = join_path(c2.as_str(), ext_id);
        c2 = join_path(c2.as_str(), rel);
        proof {
            assert(c2@ =~= join_rel(cwd.deep_view().take(cwd.deep_view().len() - 2)) + seq!['/']
                + "installed"@ + seq!['/'] + ext_id@ + seq!['/'] + rel@);
        }
        if fs.is_file(c2.as_str()) {
            return Ok(c2);
        }
        return Err(
            ExtError::BundledAsset(String::from_str("bundled server entrypoint not found")),
        );
    }
    proof {
        if cwd.deep_view().len() >= 3 {
            assert(cwd.deep_view().last() == cwd@[n - 1]@);
            assert(cwd.deep_view()[n - 2] == cwd@[n - 2]@);
        }
    }
    Err(ExtError::BundledAsset(String::from_str("bundled server entrypoint not found")))
}

/// The path-prefix correction applied only on the platform family
/// whose host surfaces a spurious leading separator before a drive
/// letter: that separator is stripped, and nothing else changes.
pub open spec fn spec_corrected_prefix(path: Seq<char>, windows_family: bool) -> Seq<char> {
    if windows_family && path.len() >= 3 && path[0] == '/' && path[2] == ':' {
        path.subrange(1, path.len() as int)
    } else {
        path
    }
}

/// Applies the platform path-prefix correction.
pub fn correct_path_prefix(path: &str, windows_family: bool) -> (r: String)
    ensures
        r@ == spec_corrected_prefix(path@, windows_family),
{
    let len = path.unicode_len();
    if windows_family && len >= 3 && path.get_char(0) == '/' && path.get_char(2) == ':' {
        String::from_str(path.substring_char(1, len))
    } else {
        String::from_str(path)
    }
}

} // verus!
