//! The path resolver and the toolchain locator.
//!
//! A toolchain root is recognised by its build-description marker file
//! (`Makefile.defs`), found either directly under a candidate directory
//! or one `src` level down.  The locator runs two independent pipelines
//! of strategies — one for the compiler binary, one for the include
//! root — each in a fixed priority order, first success wins, and
//! caches the outcome (including absence) in the session state.

use crate::fsenv::{Environment, FsView};
use crate::text::join_path;
use vstd::prelude::*;

verus! {

/// One cached resolution slot: not yet attempted, attempted and found
/// nothing, or resolved to a path.
#[derive(Debug)]
pub enum Resolution {
    Unknown,
    Missing,
    Found(String),
}

impl Resolution {
    /// The resolved path, if any; `Unknown` and `Missing` both give
    /// nothing.
    pub open spec fn spec_path(self) -> Option<Seq<char>> {
        match self {
            Resolution::Found(p) => Some(p@),
            _ => None,
        }
    }
}

/// `r` records exactly the outcome `o` of a resolution attempt.
pub open spec fn records(r: Resolution, o: Option<Seq<char>>) -> bool {
    match o {
        Some(s) => r matches Resolution::Found(p) && p@ == s,
        None => r is Missing,
    }
}

/// Per-session state of the adapter: the three resolution slots.
pub struct BasiliskExtension {
    pub clangd_path: Resolution,
    pub qcc_path: Resolution,
    pub basilisk_root: Resolution,
}

/// A candidate directory normalized to a toolchain root: the directory
/// itself when the marker file sits directly under it, its `src`
/// subdirectory when only that holds the marker, nothing otherwise.
pub open spec fn spec_normalize(fs: FsView, path: Seq<char>) -> Option<Seq<char>> {
    if fs.has_file(path + seq!['/'] + "Makefile.defs"@) {
        Some(path)
    } else if fs.has_file(path + seq!['/'] + "src"@ + seq!['/'] + "Makefile.defs"@) {
        Some(path + seq!['/'] + "src"@)
    } else {
        None
    }
}

/// The compiler binary expected directly under a normalized root, if
/// the root normalizes and the binary exists.
pub open spec fn spec_qcc_under(fs: FsView, base: Seq<char>) -> Option<Seq<char>> {
    match spec_normalize(fs, base) {
        Some(d) => {
            if fs.has_existing(d + seq!['/'] + "qcc"@) {
                Some(d + seq!['/'] + "qcc"@)
            } else {
                None
            }
        },
        None => None,
    }
}

/// The two-candidate convention under a base directory: the `basilisk`
/// candidate itself, then its `src` subdirectory.
pub open spec fn spec_qcc_two(fs: FsView, base: Seq<char>) -> Option<Seq<char>> {
    if spec_qcc_under(fs, base) is Some {
        spec_qcc_under(fs, base)
    } else {
        spec_qcc_under(fs, base + seq!['/'] + "src"@)
    }
}

/// Binary resolution order: workspace PATH lookup; explicit
/// environment-variable override validated to exist; the toolchain-root
/// variable with the binary expected under the normalized root; the
/// home-directory convention; the workspace-relative convention.
pub open spec fn spec_find_qcc(env: Environment) -> Option<Seq<char>> {
    if env.which_qcc is Some {
        Some(env.which_qcc->0@)
    } else if env.qcc_path_var is Some && env.qcc_path_var->0@.len() > 0 && env.fs.has_existing(
        env.qcc_path_var->0@,
    ) {
        Some(env.qcc_path_var->0@)
    } else if env.basilisk_var is Some && spec_qcc_under(env.fs, env.basilisk_var->0@) is Some {
        spec_qcc_under(env.fs, env.basilisk_var->0@)
    } else if env.home_var is Some && spec_qcc_two(
        env.fs,
        env.home_var->0@ + seq!['/'] + "basilisk"@,
    ) is Some {
        spec_qcc_two(env.fs, env.home_var->0@ + seq!['/'] + "basilisk"@)
    } else {
        spec_qcc_two(env.fs, env.worktree_root@ + seq!['/'] + "basilisk"@)
    }
}

/// The two-candidate convention for the include root: the candidate
/// normalized, then its `src` subdirectory normalized.
pub open spec fn spec_root_two(fs: FsView, base: Seq<char>) -> Option<Seq<char>> {
    if spec_normalize(fs, base) is Some {
        spec_normalize(fs, base)
    } else {
        spec_normalize(fs, base + seq!['/'] + "src"@)
    }
}

/// Include-root resolution order: the toolchain-root variable,
/// normalized; the workspace-relative convention; the home-directory
/// convention.  Independent of binary resolution.
pub open spec fn spec_detect_root(env: Environment) -> Option<Seq<char>> {
    if env.basilisk_var is Some && spec_normalize(env.fs, env.basilisk_var->0@) is Some {
        spec_normalize(env.fs, env.basilisk_var->0@)
    } else if spec_root_two(env.fs, env.worktree_root@ + seq!['/'] + "basilisk"@) is Some {
        spec_root_two(env.fs, env.worktree_root@ + seq!['/'] + "basilisk"@)
    } else if env.home_var is Some && spec_root_two(
        env.fs,
        env.home_var->0@ + seq!['/'] + "basilisk"@,
    ) is Some {
        spec_root_two(env.fs, env.home_var->0@ + seq!['/'] + "basilisk"@)
    } else {
        None
    }
}

impl BasiliskExtension {
    /// A fresh session: nothing attempted yet.
    pub fn new() -> (r: Self)
        ensures
            r.clangd_path is Unknown,
            r.qcc_path is Unknown,
            r.basilisk_root is Unknown,
    {
        BasiliskExtension {
            clangd_path: Resolution::Unknown,
            qcc_path: Resolution::Unknown,
            basilisk_root: Resolution::Unknown,
        }
    }

    /// Normalizes one candidate directory to a toolchain root.
    pub fn normalize_basilisk_root(fs: &FsView, path: &str) -> (r: Option<String>)
        ensures
            match r {
                Some(s) => spec_normalize(*fs, path@) == Some(s@),
                None => spec_normalize(*fs, path@) is None,
            },
    {
        let marker = join_path(path, "Makefile.defs");
        if fs.is_file(marker.as_str()) {
            return Some(String::from_str(path));
        }
        let src_candidate = join_path(path, "src");
        let src_marker = join_path(src_candidate.as_str(), "Makefile.defs");
        proof {
            assert(src_marker@ =~= path@ + seq!['/'] + "src"@ + seq!['/'] + "Makefile.defs"@);
        }
        if fs.is_file(src_marker.as_str()) {
            return Some(src_candidate);
        }
        None
    }

    /// Resolves the compiler binary from the snapshot, by the fixed
    /// strategy order.
    pub fn find_qcc(env: &Environment) -> (r: Option<String>)
        ensures
            match r {
                Some(s) => spec_find_qcc(*env) == Some(s@),
                None => spec_find_qcc(*env) is None,
            },
    {
        if let Some(w) = &env.which_qcc {
            return Some(String::from_str(w.as_str()));
        }
        if let Some(p) = &env.qcc_path_var {
            if p.as_str().unicode_len() > 0 && env.fs.path_exists(p.as_str()) {
                return Some(String::from_str(p.as_str()));
            }
        }
        if let Some(b) = &env.basilisk_var {
            if let Some(q) = Self::qcc_under(&env.fs, b.as_str()) {
                return Some(q);
            }
        }
        if let Some(h) = &env.home_var {
            let base = join_path(h.as_str(), "basilisk");
            if let Some(q) = Self::qcc_two(&env.fs, base.as_str()) {
                return Some(q);
            }
        }
        let base = join_path(env.worktree_root.as_str(), "basilisk");
        Self::qcc_two(&env.fs, base.as_str())
    }

    /// The compiler binary expected directly under a normalized root.
    fn qcc_under(fs: &FsView, base: &str) -> (r: Option<String>)
        ensures
            match r {
                Some(s) => spec_qcc_under(*fs, base@) == Some(s@),
                None => spec_qcc_under(*fs, base@) is None,
            },
    {
        if let Some(d) = Self::normalize_basilisk_root(fs, base) {
            let cand = join_path(d.as_str(), "qcc");
            if fs.path_exists(cand.as_str()) {
                return Some(cand);
            }
        }
        None
    }

    /// The two-candidate convention for the binary under a base
    /// directory.
    fn qcc_two(fs: &FsView, base: &str) -> (r: Option<String>)
        ensures
            match r {
                Some(s) => spec_qcc_two(*fs, base@) == Some(s@),
                None => spec_qcc_two(*fs, base@) is None,
            },
    {
        if let Some(q) = Self::qcc_under(fs, base) {
            return Some(q);
        }
        let second = join_path(base, "src");
        Self::qcc_under(fs, second.as_str())
    }

    /// The two-candidate convention for the include root under a base
    /// directory.
    fn root_two(fs: &FsView, base: &str) -> (r: Option<String>)
        ensures
            match r {
                Some(s) => spec_root_two(*fs, base@) == Some(s@),
                None => spec_root_two(*fs, base@) is None,
            },
    {
        if let Some(d) = Self::normalize_basilisk_root(fs, base) {
            return Some(d);
        }
        let second = join_path(base, "src");
        Self::normalize_basilisk_root(fs, second.as_str())
    }

    /// Resolves the toolchain include root from the snapshot, by the
    /// fixed strategy order.
    pub fn detect_basilisk_root(env: &Environment) -> (r: Option<String>)
        ensures
            match r {
                Some(s) => spec_detect_root(*env) == Some(s@),
                None => spec_detect_root(*env) is None,
            },
    {
        if let Some(b) = &env.basilisk_var {
            if let Some(d) = Self::normalize_basilisk_root(&env.fs, b.as_str()) {
                return Some(d);
            }
        }
        let base = join_path(env.worktree_root.as_str(), "basilisk");
        if let Some(d) = Self::root_two(&env.fs, base.as_str()) {
            return Some(d);
        }
        if let Some(h) = &env.home_var {
            let base = join_path(h.as_str(), "basilisk");
            if let Some(d) = Self::root_two(&env.fs, base.as_str()) {
                return Some(d);
            }
        }
        None
    }

    /// Runs all resolutions that have not been attempted yet and caches
    /// the outcomes; slots already attempted — found or not — are left
    /// untouched, so a second call is a no-op.
    pub fn detect_environment(&mut self, env: &Environment)
        ensures
            old(self).clangd_path is Unknown ==> records(
                final(self).clangd_path,
                match env.which_clangd {
                    Some(w) => Some(w@),
                    None => None,
                },
            ),
            !(old(self).clangd_path is Unknown) ==> final(self).clangd_path == old(
                self,
            ).clangd_path,
            old(self).qcc_path is Unknown ==> records(final(self).qcc_path, spec_find_qcc(*env)),
            !(old(self).qcc_path is Unknown) ==> final(self).qcc_path == old(self).qcc_path,
            old(self).basilisk_root is Unknown ==> records(
                final(self).basilisk_root,
                spec_detect_root(*env),
            ),
            !(old(self).basilisk_root is Unknown) ==> final(self).basilisk_root == old(
                self,
            ).basilisk_root,
    {
        if let Resolution::Unknown = self.clangd_path {
            self.clangd_path = match &env.which_clangd {
                Some(w) => Resolution::Found(String::from_str(w.as_str())),
                None => Resolution::Missing,
            };
        }
        if let Resolution::Unknown = self.qcc_path {
            self.qcc_path = match Self::find_qcc(env) {
                Some(q) => Resolution::Found(q),
                None => Resolution::Missing,
            };
        }
        if let Resolution::Unknown = self.basilisk_root {
            self.basilisk_root = match Self::detect_basilisk_root(env) {
                Some(d) => Resolution::Found(d),
                None => Resolution::Missing,
            };
        }
    }
}

} // verus!
