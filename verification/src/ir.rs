//! The resolved graph — the single IR every analysis pass queries.

use vstd::prelude::*;
use crate::facts::{SymbolKind, Visibility};
use crate::ids::{FileId, FileRole, Language, Span};
use crate::text::{contains_str, has_str};

verus! {

/// A file node: identity plus the flags plugins and passes set on it.
#[derive(Debug)]
pub struct FileNode {
    pub id: FileId,
    /// Repo-relative path — the stable identity used in output and symbol ids.
    pub path: String,
    pub language: Language,
    /// Reachable "live" root: a framework/CLI entry point or fallback root.
    pub is_entry: bool,
    /// A test file — an entry point excluded from production liveness.
    pub is_test: bool,
    /// Some plugin marked this file implicitly used.
    pub is_implicit_used: bool,
    /// The package (scan root) this file belongs to.
    pub package: String,
    pub role: FileRole,
}

/// A symbol node: a definition plus enough context to attribute a finding.
#[derive(Debug)]
pub struct SymbolNode {
    /// Stable id: `<repo-relative-path>::<dotted symbol path>`.
    pub id: String,
    pub name: String,
    pub kind: SymbolKind,
    pub file: FileId,
    pub span: Span,
    pub exported: bool,
    pub is_type_only: bool,
    pub parent: Option<String>,
    pub visibility: Option<Visibility>,
}

/// The edge relations the graph records.
#[derive(Debug, Clone, Copy, PartialEq, Eq, Structural)]
pub enum EdgeKind {
    Imports,
    ReExports,
    PluginEdge,
}

/// The resolved repository graph. Sets of names are kept as lists; only
/// membership is ever asked of them.
#[derive(Debug)]
pub struct Graph {
    pub files: Vec<FileNode>,
    pub symbols: Vec<SymbolNode>,
    /// `imports[a]`: the internal files `a` imports.
    pub imports: Vec<Vec<FileId>>,
    /// Reverse of `imports`.
    pub imported_by: Vec<Vec<FileId>>,
    /// For each file, the names other files import from it (`*` = all).
    pub imported_names: Vec<Vec<String>>,
    /// Top-level external module names some import resolved to.
    pub external_used: Vec<String>,
    /// Packages holding unresolvable dynamism.
    pub dynamic_packages: Vec<String>,
    /// Every string literal in the repo.
    pub string_literals: Vec<String>,
    /// Every property name accessed anywhere in the repo.
    pub accessed_members: Vec<String>,
}

/// `a` imports `b` directly.
pub open spec fn edge(imports: Seq<Vec<FileId>>, a: int, b: int) -> bool {
    0 <= a < imports.len() && exists|k: int| 0 <= k < imports[a]@.len() && #[trigger] imports[a]@[k] as int == b
}

/// `j` is the first file with the given path.
pub open spec fn first_with_path(files: Seq<FileNode>, path: Seq<char>, j: int) -> bool {
    0 <= j < files.len() && files[j].path@ == path
        && forall|k: int| 0 <= k < j ==> #[trigger] files[k].path@ != path
}

/// The node a repo-relative path denotes (the first one, if several).
pub open spec fn file_slot(files: Seq<FileNode>, path: Seq<char>) -> Option<int> {
    if exists|j: int| first_with_path(files, path, j) {
        Some(choose|j: int| first_with_path(files, path, j))
    } else {
        None
    }
}

pub proof fn lemma_file_slot(files: Seq<FileNode>, path: Seq<char>, j: int)
    requires
        first_with_path(files, path, j),
    ensures
        file_slot(files, path) == Some(j),
{
    let c = choose|j: int| first_with_path(files, path, j);
    if c < j {
        assert(files[c].path@ != path);
    }
    if j < c {
        assert(files[j].path@ != path);
    }
}

impl Graph {
    /// Sentinel in `imported_names`: every export of the file is used.
    pub const WILDCARD: &'static str = "*";

    /// Structural well-formedness: dense ids, in-range edges, per-file tables.
    pub open spec fn wf(&self) -> bool {
        &&& forall|i: int| 0 <= i < self.files@.len() ==> (#[trigger] self.files@[i]).id == i
        &&& self.imports@.len() == self.files@.len()
        &&& forall|i: int, k: int| 0 <= i < self.imports@.len() && 0 <= k < self.imports@[i]@.len()
            ==> (#[trigger] self.imports@[i]@[k]) < self.files@.len()
        &&& self.imported_names@.len() == self.files@.len()
        &&& forall|s: int| 0 <= s < self.symbols@.len() ==> (#[trigger] self.symbols@[s]).file < self.files@.len()
    }

    /// Whether the graph is well formed (see `wf`).
    pub fn is_wf(&self) -> (r: bool)
        ensures
            r == self.wf(),
    {
        let n = self.files.len();
        if self.imports.len() != n || self.imported_names.len() != n {
            return false;
        }
        let mut i: usize = 0;
        while i < n
            invariant
                i <= n,
                n == self.files@.len(),
                self.imports@.len() == n,
                forall|j: int| 0 <= j < i ==> (#[trigger] self.files@[j]).id == j,
                forall|j: int, k: int| 0 <= j < i && 0 <= k < self.imports@[j]@.len()
                    ==> (#[trigger] self.imports@[j]@[k]) < n,
            decreases n - i,
        {
            if self.files[i].id != i {
                return false;
            }
            let targets = &self.imports[i];
            let mut k: usize = 0;
            while k < targets.len()
                invariant
                    k <= targets@.len(),
                    i < n,
                    n == self.files@.len(),
                    self.imports@.len() == n,
                    *targets == self.imports@[i as int],
                    forall|q: int| 0 <= q < k ==> (#[trigger] targets@[q]) < n,
                decreases targets@.len() - k,
            {
                if targets[k] >= n {
                    return false;
                }
                k += 1;
            }
            i += 1;
        }
        let mut s: usize = 0;
        while s < self.symbols.len()
            invariant
                s <= self.symbols@.len(),
                n == self.files@.len(),
                forall|q: int| 0 <= q < s ==> (#[trigger] self.symbols@[q]).file < n,
            decreases self.symbols@.len() - s,
        {
            if self.symbols[s].file >= n {
                return false;
            }
            s += 1;
        }
        true
    }

    pub fn file(&self, id: FileId) -> (r: &FileNode)
        requires
            id < self.files@.len(),
        ensures
            r == self.files@[id as int],
    {
        &self.files[id]
    }

    /// The id of the file at a repo-relative path (the first one, if several).
    pub fn file_id(&self, path: &str) -> (r: Option<FileId>)
        ensures
            r matches Some(i) ==> i < self.files@.len() && self.files@[i as int].path@ == path@
                && forall|j: int| 0 <= j < i ==> #[trigger] self.files@[j].path@ != path@,
            r is None ==> forall|j: int| 0 <= j < self.files@.len() ==> #[trigger] self.files@[j].path@ != path@,
            r == (match file_slot(self.files@, path@) { Some(j) => Some(j as usize), None => None::<usize> }),
    {
        let target = crate::text::owned(path);
        let mut i: usize = 0;
        while i < self.files.len()
            invariant
                i <= self.files@.len(),
                target@ == path@,
                forall|j: int| 0 <= j < i ==> #[trigger] self.files@[j].path@ != path@,
            decreases self.files@.len() - i,
        {
            if self.files[i].path == target {
                proof { lemma_file_slot(self.files@, path@, i as int); }
                return Some(i);
            }
            i += 1;
        }
        assert(!exists|j: int| first_with_path(self.files@, path@, j));
        None
    }

    pub open spec fn export_used(&self, id: int, name: Seq<char>) -> bool {
        has_str(self.imported_names@[id]@, "*"@) || has_str(self.imported_names@[id]@, name)
    }

    /// An export counts as used exactly when some file imports it by name, or
    /// imports the whole module (the `*` wildcard, as `import * as ns` and
    /// `export * from` do): then every export of the file is used.
    pub proof fn law_export_used_by_name_or_wildcard(&self, id: int, name: Seq<char>)
        requires
            0 <= id < self.imported_names@.len(),
        ensures
            self.export_used(id, name) <==> exists|j: int| 0 <= j < self.imported_names@[id]@.len()
                && (#[trigger] self.imported_names@[id]@[j]@ == "*"@ || self.imported_names@[id]@[j]@ == name),
            (exists|j: int| 0 <= j < self.imported_names@[id]@.len() && #[trigger] self.imported_names@[id]@[j]@ == "*"@)
                ==> forall|other: Seq<char>| #[trigger] self.export_used(id, other),
    {
        let v = self.imported_names@[id]@;
        if exists|j: int| 0 <= j < v.len() && #[trigger] v[j]@ == "*"@ {
            let j = choose|j: int| 0 <= j < v.len() && #[trigger] v[j]@ == "*"@;
            assert forall|other: Seq<char>| #[trigger] self.export_used(id, other) by {
                assert(v[j]@ == "*"@);
            }
        }
    }

    /// Is `name`, exported by file `id`, imported by any other file?
    pub fn export_is_used(&self, id: FileId, name: &str) -> (r: bool)
        requires
            id < self.imported_names@.len(),
        ensures
            r == self.export_used(id as int, name@),
    {
        let names = &self.imported_names[id];
        contains_str(names, Self::WILDCARD) || contains_str(names, name)
    }

    /// True if the package has unresolvable dynamism that should cap confidence.
    pub fn package_is_dynamic(&self, package: &str) -> (r: bool)
        ensures
            r == has_str(self.dynamic_packages@, package@),
    {
        contains_str(&self.dynamic_packages, package)
    }

    /// Is a member/enum-member `name` accessed anywhere in the repo?
    pub fn member_is_accessed(&self, name: &str) -> (r: bool)
        ensures
            r == has_str(self.accessed_members@, name@),
    {
        contains_str(&self.accessed_members, name)
    }
}

} // verus!
