//! `unused-dependency` — a declared dependency no import resolves to. Findings
//! are capped at `Medium`: tooling used only via config or CLI is common.

use vstd::prelude::*;
use vstd::string::*;
use crate::finding::{
    flat, lemma_flat_from, lemma_views_push, opt, views, Confidence, Finding, FindingView, RuleId, Severity,
};
use crate::ids::{starts_with, Span};
use crate::ir::Graph;
use crate::order::{sort_dedup, sorted_set, string_views};
use crate::path::{join, join_path};
use crate::text::{cat3, chars_of, contains_str, has_str, owned, str_is};
use crate::workspace::{ManifestKind, Package, Workspace};

verus! {

/// `dep` counts as used: some import resolved to it, or it is a `@types/`
/// stub for a used module (`@types/node` always counts).
pub open spec fn dep_used(g: Graph, dep: Seq<char>) -> bool {
    has_str(g.external_used@, dep)
        || (starts_with(dep, "@types/"@)
            && (dep.skip(7) == "node"@ || has_str(g.external_used@, dep.skip(7))))
}

pub open spec fn manifest_of(p: Package) -> Option<Seq<char>> {
    match p.manifest_kind {
        ManifestKind::PackageJson => Some(join(p.root@, "package.json"@)),
        ManifestKind::PyProject => Some(join(p.root@, "pyproject.toml"@)),
        ManifestKind::SetupPy => Some(join(p.root@, "setup.py"@)),
        ManifestKind::Implicit => None,
    }
}

pub open spec fn dep_finding(g: Graph, p: Package, manifest: Seq<char>, dep: Seq<char>) -> Option<FindingView> {
    if has_str(p.framework_deps@, dep) || dep_used(g, dep) {
        None
    } else {
        Some(FindingView {
            rule: RuleId::UnusedDependency,
            severity: Severity::Warn,
            confidence: Confidence::Medium,
            symbol: None,
            file: manifest,
            span: Span { start_line: 1, end_line: 1 },
            message: "Declared dependency '"@ + dep + "' is never imported."@,
            reason: "no import in the package resolves to this dependency"@,
        })
    }
}

/// The findings of one package: its distinct dependencies in sorted order.
pub open spec fn package_deps_out(g: Graph, p: Package) -> Seq<FindingView> {
    match manifest_of(p) {
        None => Seq::empty(),
        Some(m) => {
            let deps = sorted_set(string_views(p.dependencies@), false);
            flat(deps.len() as int, |k: int| opt(dep_finding(g, p, m, deps[k])))
        }
    }
}

pub open spec fn deps_out(g: Graph, ws: Workspace) -> Seq<FindingView> {
    flat(ws.packages@.len() as int, |i: int| package_deps_out(g, ws.packages@[i]))
}

/// Unused-dependency findings are capped at `Medium` and each one names, at a
/// package's manifest, one of that package's dependencies that is neither a
/// framework dependency nor reached by any import.
pub proof fn law_unused_deps_capped_at_medium(g: Graph, ws: Workspace)
    ensures
        forall|k: int| 0 <= k < deps_out(g, ws).len() ==> {
            let v = #[trigger] deps_out(g, ws)[k];
            &&& v.rule == RuleId::UnusedDependency
            &&& v.confidence == Confidence::Medium
            &&& exists|i: int, dep: Seq<char>| #![trigger ws.packages@[i], dep_used(g, dep)] {
                &&& 0 <= i < ws.packages@.len()
                &&& manifest_of(ws.packages@[i]) == Some(v.file)
                &&& sorted_set(string_views(ws.packages@[i].dependencies@), false).contains(dep)
                &&& v.message == "Declared dependency '"@ + dep + "' is never imported."@
                &&& !has_str(ws.packages@[i].framework_deps@, dep)
                &&& !dep_used(g, dep)
            }
        },
{
    let pf = |i: int| package_deps_out(g, ws.packages@[i]);
    assert forall|k: int| 0 <= k < deps_out(g, ws).len() implies {
        let v = #[trigger] deps_out(g, ws)[k];
        &&& v.rule == RuleId::UnusedDependency
        &&& v.confidence == Confidence::Medium
        &&& exists|i: int, dep: Seq<char>| #![trigger ws.packages@[i], dep_used(g, dep)] {
            &&& 0 <= i < ws.packages@.len()
            &&& manifest_of(ws.packages@[i]) == Some(v.file)
            &&& sorted_set(string_views(ws.packages@[i].dependencies@), false).contains(dep)
            &&& v.message == "Declared dependency '"@ + dep + "' is never imported."@
            &&& !has_str(ws.packages@[i].framework_deps@, dep)
            &&& !dep_used(g, dep)
        }
    } by {
        let (i, k1) = lemma_flat_from(ws.packages@.len() as int, pf, k);
        let p = ws.packages@[i];
        let m = manifest_of(p)->0;
        let deps = sorted_set(string_views(p.dependencies@), false);
        let df = |j: int| opt(dep_finding(g, p, m, deps[j]));
        assert(pf(i) == flat(deps.len() as int, df));
        let (j, k2) = lemma_flat_from(deps.len() as int, df, k1);
        assert(df(j).len() > 0);
        assert(deps_out(g, ws)[k] == df(j)[k2]);
        assert(deps.contains(deps[j]));
    }
}

fn dependency_is_used(graph: &Graph, dep: &str) -> (r: bool)
    ensures
        r == dep_used(*graph, dep@),
{
    if contains_str(&graph.external_used, dep) {
        return true;
    }
    let v = chars_of(dep);
    if crate::ids::seq_starts_with(&v, "@types/") {
        proof { reveal_strlit("@types/"); }
        let target = crate::path::slice_to_string(&v, 7, v.len());
        assert(v@.subrange(7, v@.len() as int) == dep@.skip(7));
        return str_is(target.as_str(), "node") || contains_str(&graph.external_used, target.as_str());
    }
    false
}

fn manifest_path(p: &Package) -> (r: Option<String>)
    ensures
        match r { Some(s) => manifest_of(*p) == Some(s@), None => manifest_of(*p) is None },
{
    match p.manifest_kind {
        ManifestKind::PackageJson => Some(join_path(p.root.as_str(), "package.json")),
        ManifestKind::PyProject => Some(join_path(p.root.as_str(), "pyproject.toml")),
        ManifestKind::SetupPy => Some(join_path(p.root.as_str(), "setup.py")),
        ManifestKind::Implicit => None,
    }
}

/// Unused declared dependencies, package by package, each package's
/// dependencies in sorted order.
pub fn run(graph: &Graph, ws: &Workspace) -> (r: Vec<Finding>)
    ensures
        views(r@) == deps_out(*graph, *ws),
{
    let mut findings: Vec<Finding> = Vec::new();
    let ghost pf = |i: int| package_deps_out(*graph, ws.packages@[i]);
    let mut i: usize = 0;
    while i < ws.packages.len()
        invariant
            i <= ws.packages@.len(),
            pf == (|i: int| package_deps_out(*graph, ws.packages@[i])),
            views(findings@) == flat(i as int, pf),
        decreases ws.packages@.len() - i,
    {
        let pkg = &ws.packages[i];
        let ghost start = views(findings@);
        match manifest_path(pkg) {
            None => {
                assert(views(findings@) == flat(i as int, pf) + pf(i as int));
            }
            Some(manifest) => {
                let deps = sort_dedup(&pkg.dependencies, false);
                let ghost dv = sorted_set(string_views(pkg.dependencies@), false);
                let ghost df = |k: int| opt(dep_finding(*graph, *pkg, manifest@, dv[k]));
                let mut k: usize = 0;
                while k < deps.len()
                    invariant
                        k <= deps@.len(),
                        string_views(deps@) == dv,
                        df == (|k: int| opt(dep_finding(*graph, *pkg, manifest@, dv[k]))),
                        views(findings@) == start + flat(k as int, df),
                    decreases deps@.len() - k,
                {
                    let dep = deps[k].as_str();
                    assert(dv[k as int] == dep@);
                    proof { reveal_strlit("Declared dependency '"); }
                    if !(contains_str(&pkg.framework_deps, dep) || dependency_is_used(graph, dep)) {
                        let fd = Finding {
                            rule: RuleId::UnusedDependency,
                            severity: Severity::Warn,
                            confidence: Confidence::Medium,
                            symbol: None,
                            file: manifest.clone(),
                            span: Span::new(1, 1),
                            message: cat3("Declared dependency '", dep, "' is never imported."),
                            reason: owned("no import in the package resolves to this dependency"),
                        };
                        proof { lemma_views_push(findings@, fd); }
                        findings.push(fd);
                    }
                    assert(views(findings@) == start + flat(k as int + 1, df));
                    k += 1;
                }
                assert(views(findings@) == flat(i as int, pf) + pf(i as int));
            }
        }
        i += 1;
    }
    findings
}

} // verus!
