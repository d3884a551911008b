//! Snapshots of the file system and the process environment.
//!
//! Resolution logic is pure: it never touches the real file system or
//! environment.  The caller takes a snapshot — which paths exist, which
//! of them are regular files, what the relevant environment variables
//! and workspace lookups said — and hands it in as plain values.

use crate::text::str_eq;
use vstd::prelude::*;

verus! {

/// A snapshot of the file-system facts that resolution consults:
/// `files` lists paths that are regular files, `existing` lists paths
/// that exist at all (files or directories).
pub struct FsView {
    pub files: Vec<String>,
    pub existing: Vec<String>,
}

impl FsView {
    /// The path, by its text, names a regular file in this snapshot.
    pub open spec fn has_file(self, p: Seq<char>) -> bool {
        self.files.deep_view().contains(p)
    }

    /// The path, by its text, exists at all in this snapshot.
    pub open spec fn has_existing(self, p: Seq<char>) -> bool {
        self.existing.deep_view().contains(p)
    }

    pub fn is_file(&self, p: &str) -> (r: bool)
        ensures
            r == self.has_file(p@),
    {
        contains_string(&self.files, p)
    }

    pub fn path_exists(&self, p: &str) -> (r: bool)
        ensures
            r == self.has_existing(p@),
    {
        contains_string(&self.existing, p)
    }
}

/// Linear search for a string, by view equality.
pub fn contains_string(v: &Vec<String>, p: &str) -> (r: bool)
    ensures
        r == v.deep_view().contains(p@),
{
    let n = v.len();
    let mut i: usize = 0;
    while i < n
        invariant
            n == v@.len(),
            0 <= i <= n,
            forall|j: int| 0 <= j < i ==> v.deep_view()[j] != p@,
        decreases n - i,
    {
        if str_eq(v[i].as_str(), p) {
            proof {
                assert(v.deep_view()[i as int] == p@);
            }
            return true;
        }
        i = i + 1;
    }
    false
}

/// A snapshot of the environment consulted by toolchain resolution:
/// the workspace root, the workspace PATH lookups for the two
/// conventional binary names, and the three environment variables.
pub struct Environment {
    /// Absolute path of the workspace root.
    pub worktree_root: String,
    /// Workspace PATH lookup for the compiler binary name (`qcc`).
    pub which_qcc: Option<String>,
    /// Workspace PATH lookup for the language-server binary name
    /// (`clangd`).
    pub which_clangd: Option<String>,
    /// The toolchain-binary-path override variable (`QCC_PATH`).
    pub qcc_path_var: Option<String>,
    /// The toolchain-root override variable (`BASILISK`).
    pub basilisk_var: Option<String>,
    /// The process home-directory variable (`HOME`).
    pub home_var: Option<String>,
    /// File-system facts.
    pub fs: FsView,
}

} // verus!
