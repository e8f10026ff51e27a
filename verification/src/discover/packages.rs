//! The package registry of a repository and the entry points of its
//! packages: manifests grouped by directory into packages, files assigned to
//! the deepest package above them, plugins detected, and entry and test
//! files matched. Walking the tree and reading files is left to the caller.

use vstd::prelude::*;
use crate::discover::manifest::{PackageJson, PyProject, TsConfig};
use crate::discover::plugin_def::{trigger_of, PluginDef};
use crate::discover::registry::{active_defs, last_segment, entry_globs_of, test_globs_of, trigger_dep, DiscoverOptions, PluginRegistry};
use crate::discover::globs::{glob_set_matches, match_globs};
use crate::fix::apply::{union_in_order, union_into};
use crate::ids::Language;
use crate::order::{seq_lt, sort_dedup, sorted_set, str_less, string_views};
use crate::path::{is_under, join, join_path, under};
use crate::text::{chars_of, copy_string, owned, str_is, string_from};
use crate::workspace::{DiscoveredFile, ManifestKind, Package, Workspace};
use crate::facts::{FileFacts, Marker};

verus! {

/// What a manifest contributes to the package of its directory.
#[derive(Debug)]
pub enum ManifestContent {
    PackageJson(PackageJson),
    PyProject(PyProject),
    SetupPy,
}

/// A manifest found in the tree: its directory (repo-relative), its parsed
/// content, and whether that directory has a `src/` directory.
#[derive(Debug)]
pub struct ManifestRecord {
    pub dir: String,
    pub content: ManifestContent,
    pub src_dir: bool,
}

/// The kind of manifest a file name denotes (a `tsconfig.json` is not one:
/// it refines the package of its directory).
pub open spec fn manifest_named(name: Seq<char>) -> Option<ManifestKind> {
    if name == "package.json"@ {
        Some(ManifestKind::PackageJson)
    } else if name == "pyproject.toml"@ {
        Some(ManifestKind::PyProject)
    } else if name == "setup.py"@ || name == "setup.cfg"@ {
        Some(ManifestKind::SetupPy)
    } else {
        None
    }
}

/// The kind of manifest a file name denotes.
pub fn manifest_kind(name: &str) -> (r: Option<ManifestKind>)
    ensures
        r == manifest_named(name@),
{
    if str_is(name, "package.json") {
        Some(ManifestKind::PackageJson)
    } else if str_is(name, "pyproject.toml") {
        Some(ManifestKind::PyProject)
    } else if str_is(name, "setup.py") || str_is(name, "setup.cfg") {
        Some(ManifestKind::SetupPy)
    } else {
        None
    }
}

/// The import roots of a Python package: `dir/src` then `dir` for a `src/`
/// layout, else `dir`.
pub open spec fn py_roots_of(dir: Seq<char>, src_layout: bool) -> Seq<Seq<char>> {
    if src_layout { seq![join(dir, "src"@), dir] } else { seq![dir] }
}

pub fn python_roots(dir: &str, src_layout: bool) -> (r: Vec<String>)
    ensures
        string_views(r@) == py_roots_of(dir@, src_layout),
{
    let mut out: Vec<String> = Vec::new();
    if src_layout {
        out.push(join_path(dir, "src"));
    }
    out.push(owned(dir));
    assert(string_views(out@) =~= py_roots_of(dir@, src_layout));
    out
}

/// A package with its strings as character sequences.
pub struct PkgView {
    pub id: Seq<char>,
    pub name: Seq<char>,
    pub root: Seq<char>,
    pub language: Language,
    pub kind: ManifestKind,
    pub deps: Seq<Seq<char>>,
    pub ts_base_url: Option<Seq<char>>,
    pub ts_paths: Seq<(Seq<char>, Seq<Seq<char>>)>,
    pub py_roots: Seq<Seq<char>>,
    pub plugins: Seq<Seq<char>>,
    pub framework_deps: Seq<Seq<char>>,
    pub route_decorators: Seq<Seq<char>>,
}

pub open spec fn ts_paths_view(v: Seq<(String, Vec<String>)>) -> Seq<(Seq<char>, Seq<Seq<char>>)> {
    v.map_values(|e: (String, Vec<String>)| (e.0@, string_views(e.1@)))
}

pub open spec fn opt_view(o: Option<String>) -> Option<Seq<char>> {
    match o {
        Some(s) => Some(s@),
        None => None,
    }
}

pub open spec fn pkg_view(p: Package) -> PkgView {
    PkgView {
        id: p.id@,
        name: p.name@,
        root: p.root@,
        language: p.language,
        kind: p.manifest_kind,
        deps: string_views(p.dependencies@),
        ts_base_url: opt_view(p.ts_base_url),
        ts_paths: ts_paths_view(p.ts_paths@),
        py_roots: string_views(p.py_roots@),
        plugins: string_views(p.plugins@),
        framework_deps: string_views(p.framework_deps@),
        route_decorators: string_views(p.route_decorators@),
    }
}

pub open spec fn pkg_views(v: Seq<Package>) -> Seq<PkgView> {
    v.map_values(|p: Package| pkg_view(p))
}

/// A package first seen through a manifest of kind `kind` in `dir`.
pub open spec fn new_pkg(dir: Seq<char>, kind: ManifestKind) -> PkgView {
    PkgView {
        id: Seq::empty(),
        name: Seq::empty(),
        root: dir,
        language: Language::TypeScript,
        kind,
        deps: Seq::empty(),
        ts_base_url: None,
        ts_paths: Seq::empty(),
        py_roots: Seq::empty(),
        plugins: Seq::empty(),
        framework_deps: Seq::empty(),
        route_decorators: Seq::empty(),
    }
}

pub open spec fn content_kind(c: ManifestContent) -> ManifestKind {
    match c {
        ManifestContent::PackageJson(_) => ManifestKind::PackageJson,
        ManifestContent::PyProject(_) => ManifestKind::PyProject,
        ManifestContent::SetupPy => ManifestKind::SetupPy,
    }
}

/// The package of a directory after one more of its manifests: `package.json`
/// sets the name and makes it TypeScript; `pyproject.toml` names it when still
/// unnamed and makes it Python with its import roots; `setup.py` makes it
/// Python unless a `pyproject.toml` already did. Dependencies accumulate.
pub open spec fn merge_manifest(p: PkgView, m: ManifestRecord) -> PkgView {
    match m.content {
        ManifestContent::PackageJson(pj) => PkgView {
            name: opt_view(pj.name).unwrap_or(Seq::empty()),
            deps: union_in_order(p.deps, string_views(pj.dependencies@)),
            language: Language::TypeScript,
            kind: ManifestKind::PackageJson,
            ..p
        },
        ManifestContent::PyProject(pp) => PkgView {
            name: if p.name.len() == 0 { opt_view(pp.name).unwrap_or(Seq::empty()) } else { p.name },
            deps: union_in_order(p.deps, string_views(pp.dependencies@)),
            language: Language::Python,
            kind: ManifestKind::PyProject,
            py_roots: py_roots_of(m.dir@, pp.src_layout),
            ..p
        },
        ManifestContent::SetupPy => if p.kind != ManifestKind::PyProject {
            PkgView { language: Language::Python, kind: ManifestKind::SetupPy, py_roots: py_roots_of(m.dir@, m.src_dir), ..p }
        } else {
            p
        },
    }
}

/// Index of the package with root `dir`, or -1.
pub open spec fn root_slot(ps: Seq<PkgView>, dir: Seq<char>, i: int) -> int
    decreases ps.len() - i,
{
    if i < 0 || i >= ps.len() {
        -1
    } else if ps[i].root == dir {
        i
    } else {
        root_slot(ps, dir, i + 1)
    }
}

/// The packages of the first `n` manifests, one per directory, in order of
/// first appearance.
pub open spec fn grouped_pkgs(ms: Seq<ManifestRecord>, n: int) -> Seq<PkgView>
    decreases n,
{
    if n <= 0 {
        Seq::empty()
    } else {
        let g = grouped_pkgs(ms, n - 1);
        let m = ms[n - 1];
        let k = root_slot(g, m.dir@, 0);
        if k < 0 {
            g.push(merge_manifest(new_pkg(m.dir@, content_kind(m.content)), m))
        } else {
            g.update(k, merge_manifest(g[k], m))
        }
    }
}

/// Index of the `tsconfig.json` of directory `dir`, or -1.
pub open spec fn ts_slot(ts: Seq<(String, TsConfig)>, dir: Seq<char>, i: int) -> int
    decreases ts.len() - i,
{
    if i < 0 || i >= ts.len() {
        -1
    } else if ts[i].0@ == dir {
        i
    } else {
        ts_slot(ts, dir, i + 1)
    }
}

/// The package with the resolution settings of the `tsconfig.json` in its
/// root, if there is one (`baseUrl` taken relative to the root).
pub open spec fn merge_ts(p: PkgView, ts: Seq<(String, TsConfig)>) -> PkgView {
    let k = ts_slot(ts, p.root, 0);
    if k < 0 {
        p
    } else {
        PkgView {
            ts_base_url: match ts[k].1.base_url {
                Some(b) => Some(join(p.root, b@)),
                None => None,
            },
            ts_paths: ts_paths_view(ts[k].1.paths@),
            ..p
        }
    }
}

/// The packages with a root package added when none has the repository root.
pub open spec fn with_root(ps: Seq<PkgView>) -> Seq<PkgView> {
    if root_slot(ps, Seq::empty(), 0) >= 0 {
        ps
    } else {
        ps.push(PkgView { py_roots: seq![Seq::empty()], ..new_pkg(Seq::empty(), ManifestKind::Implicit) })
    }
}

/// The package's id (its name, else its root, `.` for the repository root)
/// and its import roots when no manifest gave any.
pub open spec fn finalized(p: PkgView, src_dirs: Seq<Seq<char>>) -> PkgView {
    PkgView {
        id: if p.name.len() > 0 { p.name } else if p.root.len() == 0 { "."@ } else { p.root },
        py_roots: if p.py_roots.len() == 0 { py_roots_of(p.root, src_dirs.contains(p.root)) } else { p.py_roots },
        ..p
    }
}

/// The first index from `i` whose root sorts strictly after `x`'s, else the length.
pub open spec fn root_above(s: Seq<PkgView>, x: PkgView, i: int) -> int
    decreases s.len() - i,
{
    if i < 0 || i >= s.len() {
        s.len() as int
    } else if seq_lt(x.root, s[i].root, true) {
        i
    } else {
        root_above(s, x, i + 1)
    }
}

/// The packages stably sorted by root, in path order.
pub open spec fn sort_by_root(s: Seq<PkgView>) -> Seq<PkgView>
    decreases s.len(),
{
    if s.len() == 0 {
        s
    } else {
        let t = sort_by_root(s.drop_last());
        t.insert(root_above(t, s.last(), 0), s.last())
    }
}

/// The packages of a repository: one per manifest directory plus the root,
/// refined by `tsconfig.json` files, with ids, sorted by root.
pub open spec fn built_packages(ms: Seq<ManifestRecord>, ts: Seq<(String, TsConfig)>, src_dirs: Seq<Seq<char>>) -> Seq<PkgView> {
    let g = grouped_pkgs(ms, ms.len() as int).map_values(|p: PkgView| merge_ts(p, ts));
    sort_by_root(with_root(g).map_values(|p: PkgView| finalized(p, src_dirs)))
}

proof fn lemma_root_slot(ps: Seq<PkgView>, dir: Seq<char>, i: int)
    requires
        0 <= i,
    ensures
        root_slot(ps, dir, i) >= 0 ==> i <= root_slot(ps, dir, i) < ps.len() && ps[root_slot(ps, dir, i)].root == dir,
        root_slot(ps, dir, i) >= -1,
        root_slot(ps, dir, i) < 0 ==> forall|j: int| i <= j < ps.len() ==> ps[j].root != dir,
    decreases ps.len() - i,
{
    if i < ps.len() && ps[i].root != dir {
        lemma_root_slot(ps, dir, i + 1);
    }
}

proof fn lemma_ts_slot(ts: Seq<(String, TsConfig)>, dir: Seq<char>, i: int)
    requires
        0 <= i,
    ensures
        -1 <= ts_slot(ts, dir, i) < ts.len(),
    decreases ts.len() - i,
{
    if i < ts.len() && ts[i].0@ != dir {
        lemma_ts_slot(ts, dir, i + 1);
    }
}

/// A copy of a list of strings.
pub fn copy_strs(v: &Vec<String>) -> (r: Vec<String>)
    ensures
        string_views(r@) == string_views(v@),
{
    let mut r: Vec<String> = Vec::new();
    let mut k: usize = 0;
    while k < v.len()
        invariant
            k <= v@.len(),
            string_views(r@) == string_views(v@).take(k as int),
        decreases v@.len() - k,
    {
        let ghost before = r@;
        r.push(copy_string(&v[k]));
        assert(string_views(r@) =~= string_views(before).push(v@[k as int]@));
        assert(string_views(v@).take(k as int + 1) =~= string_views(v@).take(k as int).push(v@[k as int]@));
        k += 1;
    }
    assert(string_views(v@).take(v@.len() as int) =~= string_views(v@));
    r
}

fn copy_ts_paths(v: &Vec<(String, Vec<String>)>) -> (r: Vec<(String, Vec<String>)>)
    ensures
        ts_paths_view(r@) == ts_paths_view(v@),
{
    let mut r: Vec<(String, Vec<String>)> = Vec::new();
    let mut k: usize = 0;
    while k < v.len()
        invariant
            k <= v@.len(),
            ts_paths_view(r@) == ts_paths_view(v@).take(k as int),
        decreases v@.len() - k,
    {
        let ghost before = r@;
        r.push((copy_string(&v[k].0), copy_strs(&v[k].1)));
        assert(ts_paths_view(r@) =~= ts_paths_view(before).push((v@[k as int].0@, string_views(v@[k as int].1@))));
        assert(ts_paths_view(v@).take(k as int + 1) =~= ts_paths_view(v@).take(k as int).push((v@[k as int].0@, string_views(v@[k as int].1@))));
        k += 1;
    }
    assert(ts_paths_view(v@).take(v@.len() as int) =~= ts_paths_view(v@));
    r
}

fn new_package(dir: &str, kind: ManifestKind) -> (r: Package)
    ensures
        pkg_view(r) == new_pkg(dir@, kind),
{
    let r = Package {
        id: String::new(),
        name: String::new(),
        root: owned(dir),
        language: Language::TypeScript,
        manifest_kind: kind,
        dependencies: Vec::new(),
        ts_base_url: None,
        ts_paths: Vec::new(),
        py_roots: Vec::new(),
        plugins: Vec::new(),
        framework_deps: Vec::new(),
        route_decorators: Vec::new(),
    };
    assert(string_views(r.dependencies@) =~= Seq::<Seq<char>>::empty());
    assert(ts_paths_view(r.ts_paths@) =~= Seq::<(Seq<char>, Seq<Seq<char>>)>::empty());
    assert(string_views(r.py_roots@) =~= Seq::<Seq<char>>::empty());
    assert(string_views(r.plugins@) =~= Seq::<Seq<char>>::empty());
    assert(string_views(r.framework_deps@) =~= Seq::<Seq<char>>::empty());
    assert(string_views(r.route_decorators@) =~= Seq::<Seq<char>>::empty());
    assert(r.id@ == Seq::<char>::empty());
    assert(r.name@ == Seq::<char>::empty());
    assert(pkg_view(r) == new_pkg(dir@, kind));
    r
}

fn merge_into(p: &mut Package, m: &ManifestRecord)
    ensures
        pkg_view(*final(p)) == merge_manifest(pkg_view(*old(p)), *m),
{
    match &m.content {
        ManifestContent::PackageJson(pj) => {
            p.name = match &pj.name {
                Some(n) => copy_string(n),
                None => String::new(),
            };
            union_into(&mut p.dependencies, &pj.dependencies);
            p.language = Language::TypeScript;
            p.manifest_kind = ManifestKind::PackageJson;
        },
        ManifestContent::PyProject(pp) => {
            if p.name.unicode_len() == 0 {
                p.name = match &pp.name {
                    Some(n) => copy_string(n),
                    None => String::new(),
                };
            }
            union_into(&mut p.dependencies, &pp.dependencies);
            p.language = Language::Python;
            p.manifest_kind = ManifestKind::PyProject;
            p.py_roots = python_roots(m.dir.as_str(), pp.src_layout);
        },
        ManifestContent::SetupPy => {
            if p.manifest_kind != ManifestKind::PyProject {
                p.language = Language::Python;
                p.manifest_kind = ManifestKind::SetupPy;
                p.py_roots = python_roots(m.dir.as_str(), m.src_dir);
            }
        },
    }
    assert(pkg_view(*p) =~= merge_manifest(pkg_view(*old(p)), *m));
}

fn find_root(ps: &Vec<Package>, dir: &str) -> (r: Option<usize>)
    ensures
        match r {
            Some(k) => root_slot(pkg_views(ps@), dir@, 0) == k && k < ps@.len(),
            None => root_slot(pkg_views(ps@), dir@, 0) == -1,
        },
{
    let ghost v = pkg_views(ps@);
    let mut i: usize = 0;
    while i < ps.len()
        invariant
            i <= ps@.len(),
            v == pkg_views(ps@),
            root_slot(v, dir@, 0) == root_slot(v, dir@, i as int),
        decreases ps@.len() - i,
    {
        if str_is(ps[i].root.as_str(), dir) {
            return Some(i);
        }
        i += 1;
    }
    None
}

/// The packages of a repository from its manifests (in walk order), the
/// `tsconfig.json` of each directory that has one, and the directories that
/// have a `src/` directory: one package per manifest directory plus the root
/// package, with ids, sorted by root.
pub fn build_packages(manifests: &Vec<ManifestRecord>, tsconfigs: &Vec<(String, TsConfig)>, src_dirs: &Vec<String>)
    -> (r: Vec<Package>)
    ensures
        pkg_views(r@) == built_packages(manifests@, tsconfigs@, string_views(src_dirs@)),
{
    let mut groups: Vec<Package> = Vec::new();
    let mut i: usize = 0;
    while i < manifests.len()
        invariant
            i <= manifests@.len(),
            pkg_views(groups@) == grouped_pkgs(manifests@, i as int),
        decreases manifests@.len() - i,
    {
        let m = &manifests[i];
        let ghost g = pkg_views(groups@);
        proof { lemma_root_slot(g, m.dir@, 0); }
        match find_root(&groups, m.dir.as_str()) {
            None => {
                let kind = match &m.content {
                    ManifestContent::PackageJson(_) => ManifestKind::PackageJson,
                    ManifestContent::PyProject(_) => ManifestKind::PyProject,
                    ManifestContent::SetupPy => ManifestKind::SetupPy,
                };
                let mut p = new_package(m.dir.as_str(), kind);
                merge_into(&mut p, m);
                groups.push(p);
                assert(pkg_views(groups@) =~= g.push(merge_manifest(new_pkg(m.dir@, content_kind(m.content)), *m)));
            },
            Some(k) => {
                let mut p = groups.remove(k);
                merge_into(&mut p, m);
                groups.insert(k, p);
                assert(pkg_views(groups@) =~= g.update(k as int, merge_manifest(g[k as int], *m)));
            },
        }
        i += 1;
    }
    let ghost g0 = pkg_views(groups@);
    let mut k: usize = 0;
    while k < groups.len()
        invariant
            k <= groups@.len(),
            g0.len() == groups@.len(),
            forall|j: int| 0 <= j < k ==> #[trigger] pkg_views(groups@)[j] == merge_ts(g0[j], tsconfigs@),
            forall|j: int| k <= j < groups@.len() ==> #[trigger] pkg_views(groups@)[j] == g0[j],
        decreases groups@.len() - k,
    {
        let ghost before = groups@;
        assert(pkg_views(groups@)[k as int] == g0[k as int]);
        let mut p = groups.remove(k);
        assert(pkg_view(p) == g0[k as int]);
        merge_ts_into(&mut p, tsconfigs);
        let ghost pf = p;
        groups.insert(k, p);
        assert(groups@ =~= before.update(k as int, pf));
        assert forall|j: int| 0 <= j < groups@.len() implies #[trigger] pkg_views(groups@)[j] == (if j <= k { merge_ts(g0[j], tsconfigs@) } else { g0[j] }) by {
            if j != k {
                assert(pkg_views(before)[j] == pkg_views(groups@)[j]);
            }
        }
        k += 1;
    }
    let ghost g1 = g0.map_values(|p: PkgView| merge_ts(p, tsconfigs@));
    assert(pkg_views(groups@) =~= g1);
    assert(g0 == grouped_pkgs(manifests@, manifests@.len() as int));
    proof { lemma_root_slot(g1, Seq::empty(), 0); }
    proof { reveal_strlit(""); }
    assert(""@ =~= Seq::<char>::empty());
    if find_root(&groups, "").is_none() {
        let mut r = new_package("", ManifestKind::Implicit);
        r.py_roots.push(String::new());
        assert(string_views(r.py_roots@) =~= seq![Seq::<char>::empty()]);
        assert(pkg_view(r) == PkgView { py_roots: seq![Seq::<char>::empty()], ..new_pkg(Seq::empty(), ManifestKind::Implicit) });
        let ghost gb = pkg_views(groups@);
        groups.push(r);
        assert(pkg_views(groups@) =~= gb.push(PkgView { py_roots: seq![Seq::<char>::empty()], ..new_pkg(Seq::empty(), ManifestKind::Implicit) }));
    }
    let ghost g2 = with_root(g1);
    assert(pkg_views(groups@) =~= g2);
    let ghost g3 = g2.map_values(|p: PkgView| finalized(p, string_views(src_dirs@)));
    let mut out: Vec<Package> = Vec::new();
    let ghost mut n: int = 0;
    while groups.len() > 0
        invariant
            0 <= n <= g3.len(),
            g3 == g2.map_values(|p: PkgView| finalized(p, string_views(src_dirs@))),
            pkg_views(groups@) == g2.skip(n),
            pkg_views(out@) == sort_by_root(g3.take(n)),
        decreases groups@.len(),
    {
        let ghost before = groups@;
        assert(g2.skip(n).len() > 0);
        assert(pkg_views(before)[0] == g2.skip(n)[0]);
        let mut p = groups.remove(0);
        assert(groups@ =~= before.skip(1));
        assert(pkg_views(groups@) =~= pkg_views(before).skip(1));
        assert(g2.skip(n).skip(1) =~= g2.skip(n + 1));
        assert(pkg_views(groups@) =~= g2.skip(n + 1));
        assert(pkg_view(p) == g2[n]);
        finalize_into(&mut p, src_dirs);
        let ghost pv = pkg_view(p);
        assert(pv == g3[n]);
        proof {
            assert(g3.take(n + 1).drop_last() =~= g3.take(n));
            assert(g3.take(n + 1).last() == pv);
        }
        let ghost t = pkg_views(out@);
        let mut q: usize = 0;
        while q < out.len() && !str_less(p.root.as_str(), out[q].root.as_str(), true)
            invariant
                q <= out@.len(),
                t == pkg_views(out@),
                pv == pkg_view(p),
                root_above(t, pv, 0) == root_above(t, pv, q as int),
            decreases out@.len() - q,
        {
            q += 1;
        }
        out.insert(q, p);
        assert(pkg_views(out@) =~= t.insert(q as int, pv));
        proof { n = n + 1; }
    }
    assert(g3.take(n) =~= g3);
    out
}

fn find_ts(ts: &Vec<(String, TsConfig)>, dir: &str) -> (r: Option<usize>)
    ensures
        match r {
            Some(k) => ts_slot(ts@, dir@, 0) == k && k < ts@.len(),
            None => ts_slot(ts@, dir@, 0) == -1,
        },
{
    let mut i: usize = 0;
    while i < ts.len()
        invariant
            i <= ts@.len(),
            ts_slot(ts@, dir@, 0) == ts_slot(ts@, dir@, i as int),
        decreases ts@.len() - i,
    {
        if str_is(ts[i].0.as_str(), dir) {
            return Some(i);
        }
        i += 1;
    }
    None
}

fn merge_ts_into(p: &mut Package, ts: &Vec<(String, TsConfig)>)
    ensures
        pkg_view(*final(p)) == merge_ts(pkg_view(*old(p)), ts@),
{
    match find_ts(ts, p.root.as_str()) {
        None => {},
        Some(k) => {
            let cfg = &ts[k].1;
            p.ts_base_url = match &cfg.base_url {
                Some(b) => Some(join_path(p.root.as_str(), b.as_str())),
                None => None,
            };
            p.ts_paths = copy_ts_paths(&cfg.paths);
        },
    }
    assert(pkg_view(*p) =~= merge_ts(pkg_view(*old(p)), ts@));
}

fn finalize_into(p: &mut Package, src_dirs: &Vec<String>)
    ensures
        pkg_view(*final(p)) == finalized(pkg_view(*old(p)), string_views(src_dirs@)),
{
    p.id = if p.name.unicode_len() > 0 {
        copy_string(&p.name)
    } else if p.root.unicode_len() == 0 {
        owned(".")
    } else {
        copy_string(&p.root)
    };
    if p.py_roots.len() == 0 {
        let src = crate::order::contains_view(src_dirs, p.root.as_str());
        p.py_roots = python_roots(p.root.as_str(), src);
    }
    assert(pkg_view(*p) =~= finalized(pkg_view(*old(p)), string_views(src_dirs@)));
}

/// Index of the package with the longest root above `path` among the first
/// `n` (the first of them on ties), or -1.
pub open spec fn deepest(pkgs: Seq<Package>, path: Seq<char>, n: int) -> int
    decreases n,
{
    if n <= 0 {
        -1
    } else {
        let b = deepest(pkgs, path, n - 1);
        if under(path, pkgs[n - 1].root@) && (b < 0 || pkgs[n - 1].root@.len() > pkgs[b].root@.len()) {
            n - 1
        } else {
            b
        }
    }
}

proof fn lemma_deepest(pkgs: Seq<Package>, path: Seq<char>, n: int)
    requires
        0 <= n <= pkgs.len(),
    ensures
        -1 <= deepest(pkgs, path, n) < n,
    decreases n,
{
    if n > 0 {
        lemma_deepest(pkgs, path, n - 1);
    }
}

/// A discovered file moved to another package.
pub open spec fn in_package(f: DiscoveredFile, g: DiscoveredFile, id: Seq<char>) -> bool {
    g.rel_path@ == f.rel_path@ && g.abs_path@ == f.abs_path@ && g.language == f.language && g.role == f.role
        && g.package@ == id
}

fn deepest_package(packages: &Vec<Package>, path: &str) -> (r: Option<usize>)
    ensures
        match r {
            Some(i) => deepest(packages@, path@, packages@.len() as int) == i && i < packages@.len(),
            None => deepest(packages@, path@, packages@.len() as int) == -1,
        },
{
    let mut best: Option<usize> = None;
    let mut best_len: usize = 0;
    let mut i: usize = 0;
    while i < packages.len()
        invariant
            i <= packages@.len(),
            match best {
                Some(b) => deepest(packages@, path@, i as int) == b && b < i && best_len == packages@[b as int].root@.len(),
                None => deepest(packages@, path@, i as int) == -1,
            },
        decreases packages@.len() - i,
    {
        let root = packages[i].root.as_str();
        if is_under(path, root) {
            let len = root.unicode_len();
            match best {
                None => {
                    best = Some(i);
                    best_len = len;
                },
                Some(_) => {
                    if len > best_len {
                        best = Some(i);
                        best_len = len;
                    }
                },
            }
        }
        i += 1;
    }
    best
}

/// Assigns each file to the package with the longest root above it.
pub fn assign_files(packages: &Vec<Package>, files: &mut Vec<DiscoveredFile>)
    ensures
        final(files)@.len() == old(files)@.len(),
        forall|k: int| 0 <= k < old(files)@.len() ==> {
            let d = deepest(packages@, old(files)@[k].rel_path@, packages@.len() as int);
            if d < 0 {
                #[trigger] final(files)@[k] == old(files)@[k]
            } else {
                in_package(old(files)@[k], final(files)@[k], packages@[d].id@)
            }
        },
{
    let ghost orig = files@;
    let mut k: usize = 0;
    while k < files.len()
        invariant
            k <= files@.len(),
            files@.len() == orig.len(),
            orig == old(files)@,
            forall|j: int| k <= j < orig.len() ==> #[trigger] files@[j] == orig[j],
            forall|j: int| 0 <= j < k ==> {
                let d = deepest(packages@, orig[j].rel_path@, packages@.len() as int);
                if d < 0 {
                    #[trigger] files@[j] == orig[j]
                } else {
                    in_package(orig[j], files@[j], packages@[d].id@)
                }
            },
        decreases files@.len() - k,
    {
        match deepest_package(packages, files[k].rel_path.as_str()) {
            None => {},
            Some(i) => {
                let f = &files[k];
                let g = DiscoveredFile {
                    rel_path: copy_string(&f.rel_path),
                    abs_path: copy_string(&f.abs_path),
                    language: f.language,
                    package: copy_string(&packages[i].id),
                    role: f.role,
                };
                files.set(k, g);
            },
        }
        k += 1;
    }
}

/// How many of the files belong to package `id` and are (or are not) Python.
pub open spec fn lang_count(files: Seq<DiscoveredFile>, id: Seq<char>, python: bool) -> nat
    decreases files.len(),
{
    if files.len() == 0 {
        0
    } else {
        let f = files.last();
        lang_count(files.drop_last(), id, python)
            + if f.package@ == id && ((f.language is Python) == python) { 1nat } else { 0nat }
    }
}

/// The language of an implicit package: Python when it holds more Python
/// files than others, TypeScript otherwise. Packages with a manifest keep theirs.
pub open spec fn settled_language(p: Package, files: Seq<DiscoveredFile>) -> Language {
    if p.manifest_kind != ManifestKind::Implicit {
        p.language
    } else if lang_count(files, p.id@, true) > lang_count(files, p.id@, false) {
        Language::Python
    } else {
        Language::TypeScript
    }
}

fn count_languages(files: &Vec<DiscoveredFile>, id: &str) -> (r: (usize, usize))
    ensures
        r.0 == lang_count(files@, id@, true),
        r.1 == lang_count(files@, id@, false),
{
    let mut py: usize = 0;
    let mut js: usize = 0;
    let mut k: usize = 0;
    while k < files.len()
        invariant
            k <= files@.len(),
            py == lang_count(files@.take(k as int), id@, true),
            js == lang_count(files@.take(k as int), id@, false),
            py + js <= k,
        decreases files@.len() - k,
    {
        proof { assert(files@.take(k as int + 1).drop_last() =~= files@.take(k as int)); }
        if str_is(files[k].package.as_str(), id) {
            if files[k].language.is_python() {
                py += 1;
            } else {
                js += 1;
            }
        }
        k += 1;
    }
    assert(files@.take(files@.len() as int) =~= files@);
    (py, js)
}

/// Settles the language of each implicit package by its files' majority.
pub fn finalize_languages(packages: &mut Vec<Package>, files: &Vec<DiscoveredFile>)
    ensures
        final(packages)@.len() == old(packages)@.len(),
        forall|k: int| 0 <= k < old(packages)@.len() ==> #[trigger] final(packages)@[k]
            == (Package { language: settled_language(old(packages)@[k], files@), ..old(packages)@[k] }),
{
    let mut k: usize = 0;
    while k < packages.len()
        invariant
            k <= packages@.len(),
            packages@.len() == old(packages)@.len(),
            forall|j: int| k <= j < packages@.len() ==> #[trigger] packages@[j] == old(packages)@[j],
            forall|j: int| 0 <= j < k ==> #[trigger] packages@[j]
                == (Package { language: settled_language(old(packages)@[j], files@), ..old(packages)@[j] }),
        decreases packages@.len() - k,
    {
        if packages[k].manifest_kind == ManifestKind::Implicit {
            let (py, js) = count_languages(files, packages[k].id.as_str());
            let lang = if py > js { Language::Python } else { Language::TypeScript };
            let mut p = packages.remove(k);
            p.language = lang;
            packages.insert(k, p);
        }
        k += 1;
    }
}

/// The activating dependencies the plugins name, in order.
pub open spec fn triggers_of(s: Seq<PluginDef>) -> Seq<Seq<char>>
    decreases s.len(),
{
    if s.len() == 0 {
        Seq::empty()
    } else {
        triggers_of(s.drop_last()) + match trigger_of(s.last().detect) {
            Some(t) => seq![t],
            None => Seq::empty(),
        }
    }
}

/// The route decorators of the plugins, in order.
pub open spec fn decorators_of(s: Seq<PluginDef>) -> Seq<Seq<char>>
    decreases s.len(),
{
    if s.len() == 0 { Seq::empty() } else { decorators_of(s.drop_last()) + string_views(s.last().route_decorators@) }
}

/// The files found present for the `k`-th package (none when not given).
pub open spec fn present_at(present: Seq<Vec<String>>, k: int) -> Seq<Seq<char>> {
    if 0 <= k < present.len() { string_views(present[k]@) } else { Seq::empty() }
}

/// The package with the plugins active for it: their names, the distinct
/// dependencies that activated them, and their route decorators.
pub open spec fn with_plugins(p: Package, act: Seq<PluginDef>) -> PkgView {
    PkgView {
        plugins: act.map_values(|d: PluginDef| d.name@),
        framework_deps: union_in_order(Seq::empty(), triggers_of(act)),
        route_decorators: decorators_of(act),
        ..pkg_view(p)
    }
}

/// Records on each package the plugins active for it, given for each package
/// the files found present among those the plugins probe.
pub fn detect_plugins(packages: &mut Vec<Package>, registry: &PluginRegistry, present: &Vec<Vec<String>>)
    ensures
        final(packages)@.len() == old(packages)@.len(),
        forall|k: int| 0 <= k < old(packages)@.len() ==> #[trigger] pkg_view(final(packages)@[k])
            == with_plugins(old(packages)@[k], active_defs(registry.defs(), old(packages)@[k], present_at(present@, k))),
{
    let empty: Vec<String> = Vec::new();
    let mut k: usize = 0;
    while k < packages.len()
        invariant
            k <= packages@.len(),
            packages@.len() == old(packages)@.len(),
            empty@.len() == 0,
            forall|j: int| k <= j < packages@.len() ==> #[trigger] packages@[j] == old(packages)@[j],
            forall|j: int| 0 <= j < k ==> #[trigger] pkg_view(packages@[j])
                == with_plugins(old(packages)@[j], active_defs(registry.defs(), old(packages)@[j], present_at(present@, j))),
        decreases packages@.len() - k,
    {
        let pres = if k < present.len() { &present[k] } else { &empty };
        assert(string_views(pres@) == present_at(present@, k as int));
        let act = registry.active_for(&packages[k], pres);
        let ghost av = act@.map_values(|p: &PluginDef| *p);
        let mut names: Vec<String> = Vec::new();
        let mut deps: Vec<String> = Vec::new();
        let mut decos: Vec<String> = Vec::new();
        let ghost mut trig: Seq<Seq<char>> = Seq::empty();
        let mut i: usize = 0;
        while i < act.len()
            invariant
                i <= act@.len(),
                av == act@.map_values(|p: &PluginDef| *p),
                string_views(names@) == av.take(i as int).map_values(|d: PluginDef| d.name@),
                trig == triggers_of(av.take(i as int)),
                string_views(deps@) == union_in_order(Seq::empty(), trig),
                string_views(decos@) == decorators_of(av.take(i as int)),
            decreases act@.len() - i,
        {
            let d = act[i];
            proof {
                assert(av.take(i as int + 1).drop_last() =~= av.take(i as int));
                assert(av.take(i as int + 1).last() == *d);
            }
            let ghost nb = names@;
            names.push(copy_string(&d.name));
            assert(string_views(names@) =~= string_views(nb).push(d.name@));
            assert(av.take(i as int + 1).map_values(|d: PluginDef| d.name@) =~= av.take(i as int).map_values(|d: PluginDef| d.name@).push(d.name@));
            match trigger_dep(d) {
                Some(t) => {
                    let mut one: Vec<String> = Vec::new();
                    one.push(t);
                    proof {
                        assert(string_views(one@) =~= seq![trigger_of(d.detect)->0]);
                        assert(union_in_order(Seq::empty(), trig + string_views(one@)) == union_in_order(union_in_order(Seq::empty(), trig), string_views(one@))) by {
                            lemma_union_append(Seq::empty(), trig, string_views(one@));
                        }
                        trig = trig + string_views(one@);
                    }
                    union_into(&mut deps, &one);
                },
                None => {
                    proof { assert(trig + Seq::<Seq<char>>::empty() =~= trig); }
                },
            }
            let rd = copy_strs(&d.route_decorators);
            let ghost db = string_views(decos@);
            append_all(&mut decos, &rd);
            i += 1;
        }
        assert(av.take(av.len() as int) =~= av);
        let mut p = packages.remove(k);
        p.plugins = names;
        p.framework_deps = deps;
        p.route_decorators = decos;
        let ghost pv = pkg_view(p);
        packages.insert(k, p);
        assert(pv == with_plugins(old(packages)@[k as int], active_defs(registry.defs(), old(packages)@[k as int], present_at(present@, k as int))));
        k += 1;
    }
}

pub proof fn lemma_union_append(xs: Seq<Seq<char>>, a: Seq<Seq<char>>, b: Seq<Seq<char>>)
    ensures
        union_in_order(xs, a + b) == union_in_order(union_in_order(xs, a), b),
    decreases b.len(),
{
    if b.len() == 0 {
        assert(a + b =~= a);
    } else {
        lemma_union_append(xs, a, b.drop_last());
        assert((a + b).drop_last() =~= a + b.drop_last());
        assert((a + b).last() == b.last());
    }
}

fn append_all(out: &mut Vec<String>, src: &Vec<String>)
    ensures
        string_views(final(out)@) == string_views(old(out)@) + string_views(src@),
{
    let ghost base = string_views(out@);
    let mut k: usize = 0;
    while k < src.len()
        invariant
            k <= src@.len(),
            base == string_views(old(out)@),
            string_views(out@) == base + string_views(src@).take(k as int),
        decreases src@.len() - k,
    {
        let ghost before = out@;
        out.push(copy_string(&src[k]));
        assert(string_views(out@) =~= string_views(before).push(src@[k as int]@));
        assert(string_views(src@).take(k as int + 1) =~= string_views(src@).take(k as int).push(src@[k as int]@));
        k += 1;
    }
    assert(string_views(src@).take(src@.len() as int) =~= string_views(src@));
}

/// A repo-relative path as seen from a package root, with `/` separators.
pub open spec fn rel_to_root(path: Seq<char>, root: Seq<char>) -> Seq<char> {
    let r = if root.len() == 0 {
        path
    } else if path == root {
        Seq::empty()
    } else if under(path, root) {
        path.skip(root.len() as int + 1)
    } else {
        path
    };
    r.map_values(|c: char| if c == '\\' { '/' } else { c })
}

/// The paths of the files of package `id`, in order.
pub open spec fn pkg_paths(fs: Seq<DiscoveredFile>, id: Seq<char>) -> Seq<Seq<char>>
    decreases fs.len(),
{
    if fs.len() == 0 {
        Seq::empty()
    } else {
        pkg_paths(fs.drop_last(), id) + if fs.last().package@ == id { seq![fs.last().rel_path@] } else { Seq::empty() }
    }
}

/// The paths kept by the given matches: test files (when `tests_only`), or
/// test and entry files.
pub open spec fn picked(paths: Seq<Seq<char>>, th: Seq<bool>, eh: Seq<bool>, tests_only: bool) -> Seq<Seq<char>>
    decreases paths.len(),
{
    if paths.len() == 0 {
        Seq::empty()
    } else {
        let i = paths.len() - 1;
        picked(paths.drop_last(), th, eh, tests_only)
            + if th[i] || (!tests_only && eh[i]) { seq![paths[i]] } else { Seq::empty() }
    }
}

/// The paths whose package-relative form matches the test globs (when
/// `tests_only`), or the test or entry globs.
pub open spec fn selected(paths: Seq<Seq<char>>, root: Seq<char>, tg: Seq<Seq<char>>, eg: Seq<Seq<char>>, tests_only: bool)
    -> Seq<Seq<char>>
    decreases paths.len(),
{
    if paths.len() == 0 {
        Seq::empty()
    } else {
        let rel = rel_to_root(paths.last(), root);
        selected(paths.drop_last(), root, tg, eg, tests_only)
            + if glob_set_matches(tg, rel) || (!tests_only && glob_set_matches(eg, rel)) { seq![paths.last()] } else { Seq::empty() }
    }
}

/// Entry files (or test files, when `tests_only`) over the first `n`
/// packages, with the manifest-declared targets among the entries.
pub open spec fn all_hits(
    defs: Seq<PluginDef>,
    pkgs: Seq<Package>,
    files: Seq<DiscoveredFile>,
    present: Seq<Vec<String>>,
    extra: Seq<Seq<char>>,
    targets: Seq<Vec<String>>,
    n: int,
    tests_only: bool,
) -> Seq<Seq<char>>
    decreases n,
{
    if n <= 0 {
        Seq::empty()
    } else {
        let p = pkgs[n - 1];
        let act = active_defs(defs, p, present_at(present, n - 1));
        all_hits(defs, pkgs, files, present, extra, targets, n - 1, tests_only)
            + selected(pkg_paths(files, p.id@), p.root@, test_globs_of(act), entry_globs_of(act) + extra, tests_only)
            + if tests_only { Seq::empty() } else { present_at(targets, n - 1) }
    }
}

/// Adds the paths the given glob matches select: test files to both lists,
/// entry files to the entry list.
pub fn collect_hits(paths: &Vec<String>, test_hits: &Vec<bool>, entry_hits: &Vec<bool>, entries: &mut Vec<String>, tests: &mut Vec<String>)
    requires
        test_hits@.len() == paths@.len(),
        entry_hits@.len() == paths@.len(),
    ensures
        string_views(final(entries)@) == string_views(old(entries)@) + picked(string_views(paths@), test_hits@, entry_hits@, false),
        string_views(final(tests)@) == string_views(old(tests)@) + picked(string_views(paths@), test_hits@, entry_hits@, true),
{
    let ghost e0 = string_views(entries@);
    let ghost t0 = string_views(tests@);
    let ghost pv = string_views(paths@);
    let mut i: usize = 0;
    while i < paths.len()
        invariant
            i <= paths@.len(),
            test_hits@.len() == paths@.len(),
            entry_hits@.len() == paths@.len(),
            pv == string_views(paths@),
            e0 == string_views(old(entries)@),
            t0 == string_views(old(tests)@),
            string_views(entries@) == e0 + picked(pv.take(i as int), test_hits@, entry_hits@, false),
            string_views(tests@) == t0 + picked(pv.take(i as int), test_hits@, entry_hits@, true),
        decreases paths@.len() - i,
    {
        proof {
            assert(pv.take(i as int + 1).drop_last() =~= pv.take(i as int));
        }
        let ghost eb = string_views(entries@);
        let ghost tb = string_views(tests@);
        if test_hits[i] {
            tests.push(copy_string(&paths[i]));
            entries.push(copy_string(&paths[i]));
            assert(string_views(tests@) =~= tb.push(pv[i as int]));
            assert(string_views(entries@) =~= eb.push(pv[i as int]));
        } else if entry_hits[i] {
            entries.push(copy_string(&paths[i]));
            assert(string_views(entries@) =~= eb.push(pv[i as int]));
        }
        i += 1;
    }
    assert(pv.take(pv.len() as int) =~= pv);
}

proof fn lemma_picked_selected(paths: Seq<Seq<char>>, rels: Seq<Seq<char>>, th: Seq<bool>, eh: Seq<bool>,
    root: Seq<char>, tg: Seq<Seq<char>>, eg: Seq<Seq<char>>, b: bool)
    requires
        rels.len() == paths.len(),
        th.len() >= paths.len(),
        eh.len() >= paths.len(),
        forall|i: int| 0 <= i < paths.len() ==> #[trigger] rels[i] == rel_to_root(paths[i], root),
        forall|i: int| 0 <= i < paths.len() ==> #[trigger] th[i] == glob_set_matches(tg, rels[i]),
        forall|i: int| 0 <= i < paths.len() ==> #[trigger] eh[i] == glob_set_matches(eg, rels[i]),
    ensures
        picked(paths, th, eh, b) == selected(paths, root, tg, eg, b),
    decreases paths.len(),
{
    if paths.len() > 0 {
        let n = paths.len() - 1;
        lemma_picked_selected(paths.drop_last(), rels.drop_last(), th, eh, root, tg, eg, b);
        assert(th[n] == glob_set_matches(tg, rels[n]));
        assert(eh[n] == glob_set_matches(eg, rels[n]));
        assert(rels[n] == rel_to_root(paths[n], root));
    }
}

/// A repo-relative path as seen from a package root, with `/` separators.
fn rel_path_in(path: &str, root: &str) -> (r: String)
    ensures
        r@ == rel_to_root(path@, root@),
{
    let v = chars_of(path);
    let n = root.unicode_len();
    let start: usize = if n == 0 {
        0
    } else if str_is(path, root) {
        v.len()
    } else if is_under(path, root) {
        assert(n < v@.len());
        assert(n < v.len());
        n + 1
    } else {
        0
    };
    let mut out: Vec<char> = Vec::new();
    let mut k = start;
    while k < v.len()
        invariant
            start <= k <= v@.len(),
            out@ == v@.subrange(start as int, k as int).map_values(|c: char| if c == '\\' { '/' } else { c }),
        decreases v@.len() - k,
    {
        out.push(if v[k] == '\\' { '/' } else { v[k] });
        assert(v@.subrange(start as int, k + 1) =~= v@.subrange(start as int, k as int).push(v@[k as int]));
        assert(out@ =~= v@.subrange(start as int, k + 1).map_values(|c: char| if c == '\\' { '/' } else { c }));
        k += 1;
    }
    proof {
        if n == 0 || !(path@ == root@) && !under(path@, root@) {
            assert(v@.subrange(0, v@.len() as int) =~= path@);
        } else if path@ == root@ {
            assert(v@.subrange(v@.len() as int, v@.len() as int) =~= Seq::<char>::empty());
        } else {
            assert(v@.subrange(n + 1, v@.len() as int) =~= path@.skip(root@.len() as int + 1));
        }
    }
    string_from(out.as_slice())
}

/// The paths of the files of a package and their package-relative forms.
fn package_paths(files: &Vec<DiscoveredFile>, pkg: &Package) -> (r: (Vec<String>, Vec<String>))
    ensures
        string_views(r.0@) == pkg_paths(files@, pkg.id@),
        r.1@.len() == r.0@.len(),
        forall|i: int| 0 <= i < r.0@.len() ==> #[trigger] r.1@[i]@ == rel_to_root(r.0@[i]@, pkg.root@),
{
    let mut paths: Vec<String> = Vec::new();
    let mut rels: Vec<String> = Vec::new();
    let mut i: usize = 0;
    while i < files.len()
        invariant
            i <= files@.len(),
            string_views(paths@) == pkg_paths(files@.take(i as int), pkg.id@),
            rels@.len() == paths@.len(),
            forall|j: int| 0 <= j < paths@.len() ==> #[trigger] rels@[j]@ == rel_to_root(paths@[j]@, pkg.root@),
        decreases files@.len() - i,
    {
        proof { assert(files@.take(i as int + 1).drop_last() =~= files@.take(i as int)); }
        let f = &files[i];
        if str_is(f.package.as_str(), pkg.id.as_str()) {
            let ghost before = paths@;
            paths.push(copy_string(&f.rel_path));
            rels.push(rel_path_in(f.rel_path.as_str(), pkg.root.as_str()));
            assert(string_views(paths@) =~= string_views(before).push(f.rel_path@));
        } else {
            assert(pkg_paths(files@.take(i as int), pkg.id@) + Seq::<Seq<char>>::empty() =~= pkg_paths(files@.take(i as int), pkg.id@));
        }
        i += 1;
    }
    assert(files@.take(files@.len() as int) =~= files@);
    (paths, rels)
}

/// The entry files and the test files of the repository, each sorted and
/// distinct: per package, the files whose package-relative path matches a
/// test glob of its active plugins (tests, and entries too, since tests keep
/// their imports alive) or an entry glob of its active plugins and the
/// user's; and the manifest-declared targets found for it.
pub fn compute_entries(
    packages: &Vec<Package>,
    files: &Vec<DiscoveredFile>,
    registry: &PluginRegistry,
    opts: &DiscoverOptions,
    present: &Vec<Vec<String>>,
    targets: &Vec<Vec<String>>,
) -> (r: (Vec<String>, Vec<String>))
    ensures
        string_views(r.0@) == sorted_set(all_hits(registry.defs(), packages@, files@, present@,
            string_views(opts.entry_points@), targets@, packages@.len() as int, false), true),
        string_views(r.1@) == sorted_set(all_hits(registry.defs(), packages@, files@, present@,
            string_views(opts.entry_points@), targets@, packages@.len() as int, true), true),
{
    let empty: Vec<String> = Vec::new();
    let ghost extra = string_views(opts.entry_points@);
    let mut entries: Vec<String> = Vec::new();
    let mut tests: Vec<String> = Vec::new();
    let mut k: usize = 0;
    while k < packages.len()
        invariant
            k <= packages@.len(),
            empty@.len() == 0,
            extra == string_views(opts.entry_points@),
            string_views(entries@) == all_hits(registry.defs(), packages@, files@, present@, extra, targets@, k as int, false),
            string_views(tests@) == all_hits(registry.defs(), packages@, files@, present@, extra, targets@, k as int, true),
        decreases packages@.len() - k,
    {
        let pkg = &packages[k];
        let pres = if k < present.len() { &present[k] } else { &empty };
        assert(string_views(pres@) == present_at(present@, k as int));
        let tg = registry.test_globs_for(pkg, pres);
        let eg = registry.entry_globs_for(pkg, pres, &opts.entry_points);
        let (paths, rels) = package_paths(files, pkg);
        let th = match_globs(&tg, &rels);
        let eh = match_globs(&eg, &rels);
        collect_hits(&paths, &th, &eh, &mut entries, &mut tests);
        proof {
            let act = active_defs(registry.defs(), *pkg, present_at(present@, k as int));
            let rv = string_views(rels@);
            assert forall|i: int| 0 <= i < paths@.len() implies #[trigger] rv[i] == rel_to_root(string_views(paths@)[i], pkg.root@) by {
                assert(rels@[i]@ == rel_to_root(paths@[i]@, pkg.root@));
            }
            assert forall|i: int| 0 <= i < paths@.len() implies #[trigger] th@[i] == glob_set_matches(test_globs_of(act), rv[i]) by {
                assert(th@[i] == glob_set_matches(string_views(tg@), rels@[i]@));
            }
            assert forall|i: int| 0 <= i < paths@.len() implies #[trigger] eh@[i] == glob_set_matches(entry_globs_of(act) + extra, rv[i]) by {
                assert(eh@[i] == glob_set_matches(string_views(eg@), rels@[i]@));
            }
            lemma_picked_selected(string_views(paths@), rv, th@, eh@, pkg.root@, test_globs_of(act), entry_globs_of(act) + extra, false);
            lemma_picked_selected(string_views(paths@), rv, th@, eh@, pkg.root@, test_globs_of(act), entry_globs_of(act) + extra, true);
        }
        let tgt = if k < targets.len() { &targets[k] } else { &empty };
        assert(string_views(tgt@) == present_at(targets@, k as int));
        append_all(&mut entries, tgt);
        assert(string_views(tests@) =~= all_hits(registry.defs(), packages@, files@, present@, extra, targets@, k as int + 1, true));
        k += 1;
    }
    (sort_dedup(&entries, true), sort_dedup(&tests, true))
}

/// Index of the last discovered file among the first `n` with path `path`, or -1.
pub open spec fn file_slot(files: Seq<DiscoveredFile>, path: Seq<char>, n: int) -> int
    decreases n,
{
    if n <= 0 {
        -1
    } else if files[n - 1].rel_path@ == path {
        n - 1
    } else {
        file_slot(files, path, n - 1)
    }
}

/// Index of the first package with id `id`, or -1.
pub open spec fn pkg_with_id(pkgs: Seq<Package>, id: Seq<char>, i: int) -> int
    decreases pkgs.len() - i,
{
    if i < 0 || i >= pkgs.len() {
        -1
    } else if pkgs[i].id@ == id {
        i
    } else {
        pkg_with_id(pkgs, id, i + 1)
    }
}

/// The package `id` treats the decorator `dotted` (by its last part) as a
/// route marker.
pub open spec fn route_marked(ws: Workspace, id: Seq<char>, dotted: Seq<char>) -> bool {
    let k = pkg_with_id(ws.packages@, id, 0);
    k >= 0 && string_views(ws.packages@[k].route_decorators@).contains(last_segment(dotted))
}

/// The file of these facts is discovered, and one of its decorators is a
/// route marker of its package.
pub open spec fn has_route(ws: Workspace, f: FileFacts) -> bool {
    let s = file_slot(ws.files@, f.path@, ws.files@.len() as int);
    s >= 0 && exists|m: int| 0 <= m < f.markers@.len()
        && (#[trigger] f.markers@[m] matches Marker::Decorator { dotted, .. } && route_marked(ws, ws.files@[s].package@, dotted@))
}

/// The files with a route decorator, in order.
pub open spec fn route_entries(ws: Workspace, facts: Seq<FileFacts>) -> Seq<Seq<char>>
    decreases facts.len(),
{
    if facts.len() == 0 {
        Seq::empty()
    } else {
        route_entries(ws, facts.drop_last()) + if has_route(ws, facts.last()) { seq![facts.last().path@] } else { Seq::empty() }
    }
}

proof fn lemma_pkg_with_id(pkgs: Seq<Package>, id: Seq<char>, i: int)
    requires
        0 <= i,
    ensures
        -1 <= pkg_with_id(pkgs, id, i) < pkgs.len(),
    decreases pkgs.len() - i,
{
    if i < pkgs.len() && pkgs[i].id@ != id {
        lemma_pkg_with_id(pkgs, id, i + 1);
    }
}

proof fn lemma_file_slot(files: Seq<DiscoveredFile>, path: Seq<char>, n: int)
    requires
        0 <= n <= files.len(),
    ensures
        -1 <= file_slot(files, path, n) < n,
    decreases n,
{
    if n > 0 {
        lemma_file_slot(files, path, n - 1);
    }
}

/// Does the package `pkg_id` treat the decorator `dotted` as a route marker?
pub fn package_route_decorator(ws: &Workspace, pkg_id: &str, dotted: &str) -> (r: bool)
    ensures
        r == route_marked(*ws, pkg_id@, dotted@),
{
    let mut i: usize = 0;
    while i < ws.packages.len()
        invariant
            i <= ws.packages@.len(),
            pkg_with_id(ws.packages@, pkg_id@, 0) == pkg_with_id(ws.packages@, pkg_id@, i as int),
        decreases ws.packages@.len() - i,
    {
        if str_is(ws.packages[i].id.as_str(), pkg_id) {
            let last = crate::discover::registry::last_segment_of(dotted);
            return crate::order::contains_view(&ws.packages[i].route_decorators, last.as_str());
        }
        i += 1;
    }
    false
}

fn file_package(ws: &Workspace, path: &str) -> (r: Option<usize>)
    ensures
        match r {
            Some(s) => file_slot(ws.files@, path@, ws.files@.len() as int) == s && s < ws.files@.len(),
            None => file_slot(ws.files@, path@, ws.files@.len() as int) == -1,
        },
{
    let mut n = ws.files.len();
    while n > 0
        invariant
            n <= ws.files@.len(),
            file_slot(ws.files@, path@, ws.files@.len() as int) == file_slot(ws.files@, path@, n as int),
        decreases n,
    {
        if str_is(ws.files[n - 1].rel_path.as_str(), path) {
            return Some(n - 1);
        }
        n -= 1;
    }
    None
}

fn routed(ws: &Workspace, f: &FileFacts) -> (r: bool)
    ensures
        r == has_route(*ws, *f),
{
    let s = match file_package(ws, f.path.as_str()) {
        None => { return false; }
        Some(s) => s,
    };
    let pkg = ws.files[s].package.as_str();
    let mut m: usize = 0;
    while m < f.markers.len()
        invariant
            m <= f.markers@.len(),
            s < ws.files@.len(),
            file_slot(ws.files@, f.path@, ws.files@.len() as int) == s,
            pkg@ == ws.files@[s as int].package@,
            forall|j: int| 0 <= j < m ==> !(#[trigger] f.markers@[j] matches Marker::Decorator { dotted, .. }
                && route_marked(*ws, pkg@, dotted@)),
        decreases f.markers@.len() - m,
    {
        match &f.markers[m] {
            Marker::Decorator { dotted, .. } => {
                if package_route_decorator(ws, pkg, dotted.as_str()) {
                    return true;
                }
            },
            _ => {},
        }
        m += 1;
    }
    false
}

/// Adds to the entry points every extracted file whose decorators include a
/// route, task or command marker of an active plugin of its package: such a
/// file is live even when nothing imports it.
pub fn augment_entries_with_facts(ws: &mut Workspace, facts: &[FileFacts])
    ensures
        string_views(final(ws).entry_points@) == union_in_order(string_views(old(ws).entry_points@), route_entries(*old(ws), facts@)),
        final(ws).root == old(ws).root,
        final(ws).packages == old(ws).packages,
        final(ws).files == old(ws).files,
        final(ws).test_files == old(ws).test_files,
{
    let mut found: Vec<String> = Vec::new();
    let mut i: usize = 0;
    while i < facts.len()
        invariant
            i <= facts@.len(),
            string_views(found@) == route_entries(*ws, facts@.take(i as int)),
            *ws == *old(ws),
        decreases facts@.len() - i,
    {
        proof { assert(facts@.take(i as int + 1).drop_last() =~= facts@.take(i as int)); }
        if routed(ws, &facts[i]) {
            let ghost before = found@;
            found.push(copy_string(&facts[i].path));
            assert(string_views(found@) =~= string_views(before).push(facts@[i as int].path@));
        } else {
            assert(route_entries(*ws, facts@.take(i as int)) + Seq::<Seq<char>>::empty() =~= route_entries(*ws, facts@.take(i as int)));
        }
        i += 1;
    }
    assert(facts@.take(facts@.len() as int) =~= facts@);
    union_into(&mut ws.entry_points, &found);
}

} // verus!
