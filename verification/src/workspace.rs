//! Workspace model — the output of the discover stage.

use vstd::prelude::*;
use crate::ids::{FileRole, Language};
use crate::path::{is_under, under};

verus! {

#[derive(Debug, Clone, Copy, PartialEq, Eq, Structural)]
pub enum ManifestKind {
    PackageJson,
    PyProject,
    SetupPy,
    /// A directory treated as a package with no manifest (fallback root).
    Implicit,
}

/// A scan root: a package with its own entry points and resolution context.
#[derive(Debug)]
pub struct Package {
    /// Stable identity (the manifest `name`, else the root path).
    pub id: String,
    pub name: String,
    /// Repo-relative package root.
    pub root: String,
    pub language: Language,
    pub manifest_kind: ManifestKind,
    /// Declared dependency names.
    pub dependencies: Vec<String>,
    pub ts_base_url: Option<String>,
    pub ts_paths: Vec<(String, Vec<String>)>,
    pub py_roots: Vec<String>,
    /// Active framework plugin names.
    pub plugins: Vec<String>,
    /// Dependencies that activated a plugin (used implicitly).
    pub framework_deps: Vec<String>,
    /// Merged `route_decorators` from all active plugins for this package.
    pub route_decorators: Vec<String>,
}

/// A source file the walker found, with the package it belongs to.
#[derive(Debug)]
pub struct DiscoveredFile {
    pub rel_path: String,
    pub abs_path: String,
    pub language: Language,
    pub package: String,
    pub role: FileRole,
}

/// The complete discovery result.
#[derive(Debug)]
pub struct Workspace {
    pub root: String,
    pub packages: Vec<Package>,
    pub files: Vec<DiscoveredFile>,
    /// Repo-relative paths that are live roots.
    pub entry_points: Vec<String>,
    /// Repo-relative test file paths.
    pub test_files: Vec<String>,
}

/// The package among the first `n` of `pkgs` with the longest root above
/// `path` (the last such on ties, as `max_by_key` picks).
pub open spec fn best_package(pkgs: Seq<Package>, path: Seq<char>, n: int) -> Option<int>
    decreases n,
{
    if n <= 0 {
        None
    } else {
        let prev = best_package(pkgs, path, n - 1);
        if under(path, pkgs[n - 1].root@) {
            match prev {
                None => Some(n - 1),
                Some(j) => if pkgs[n - 1].root@.len() >= pkgs[j].root@.len() { Some(n - 1) } else { prev },
            }
        } else {
            prev
        }
    }
}

pub proof fn lemma_best_package_range(pkgs: Seq<Package>, path: Seq<char>, n: int)
    requires
        n <= pkgs.len(),
    ensures
        best_package(pkgs, path, n) matches Some(j) ==> 0 <= j < n && under(path, pkgs[j].root@),
    decreases n,
{
    if n > 0 {
        lemma_best_package_range(pkgs, path, n - 1);
    }
}

impl Workspace {
    /// Index of the package a repo-relative path belongs to (longest root).
    pub fn package_index_for(&self, rel_path: &str) -> (r: Option<usize>)
        ensures
            r matches Some(i) ==> i < self.packages@.len()
                && best_package(self.packages@, rel_path@, self.packages@.len() as int) == Some(i as int),
            r is None <==> best_package(self.packages@, rel_path@, self.packages@.len() as int) is None,
    {
        let mut best: Option<usize> = None;
        let mut best_len: usize = 0;
        let mut i: usize = 0;
        while i < self.packages.len()
            invariant
                i <= self.packages@.len(),
                best matches Some(j) ==> j < i && best_len == self.packages@[j as int].root@.len()
                    && best_package(self.packages@, rel_path@, i as int) == Some(j as int),
                best is None <==> best_package(self.packages@, rel_path@, i as int) is None,
            decreases self.packages@.len() - i,
        {
            proof { lemma_best_package_range(self.packages@, rel_path@, i as int); }
            let root = self.packages[i].root.as_str();
            if is_under(rel_path, root) {
                let len = root.unicode_len();
                match best {
                    None => {
                        best = Some(i);
                        best_len = len;
                    }
                    Some(_) => {
                        if len >= best_len {
                            best = Some(i);
                            best_len = len;
                        }
                    }
                }
            }
            i += 1;
        }
        best
    }

    /// The package a repo-relative path belongs to (longest-root match).
    pub fn package_for(&self, rel_path: &str) -> (r: Option<&Package>)
        ensures
            r is Some <==> best_package(self.packages@, rel_path@, self.packages@.len() as int) is Some,
            r matches Some(p) ==> *p == self.packages@[best_package(self.packages@, rel_path@, self.packages@.len() as int)->0],
    {
        proof { lemma_best_package_range(self.packages@, rel_path@, self.packages@.len() as int); }
        match self.package_index_for(rel_path) {
            Some(i) => Some(&self.packages[i]),
            None => None,
        }
    }
}

} // verus!
