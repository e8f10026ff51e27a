//! `unused-import` — an imported name never referenced in its file.

use vstd::prelude::*;
use vstd::string::*;
use crate::facts::{FileFacts, RawImport};
use crate::finding::{
    flat, lemma_flat_from, lemma_flat_has, lemma_views_push, views, Confidence, Finding, FindingView, RuleId, Severity,
};
use crate::ids::FileRole;
use crate::ir::{file_slot, first_with_path, lemma_file_slot, Graph};
use crate::text::{cat5, owned};

verus! {

/// Some identifier occurrence in the file has this name.
pub open spec fn has_ref(f: FileFacts, name: Seq<char>) -> bool {
    exists|k: int| 0 <= k < f.refs@.len() && #[trigger] f.refs@[k].name@ == name
}

pub open spec fn unused_name(f: FileFacts, imp: RawImport, n: int) -> Seq<FindingView> {
    let local = imp.names@[n].local@;
    if has_ref(f, local) {
        Seq::empty()
    } else {
        seq![FindingView {
            rule: RuleId::UnusedImport,
            severity: Severity::Warn,
            confidence: Confidence::High,
            symbol: None,
            file: f.path@,
            span: imp.span,
            message: "'"@ + local + "' is imported from '"@ + imp.specifier@ + "' but never used."@,
            reason: "imported name has no in-file references"@,
        }]
    }
}

pub open spec fn import_out(f: FileFacts, imp: RawImport) -> Seq<FindingView> {
    if imp.is_reexport {
        Seq::empty()
    } else {
        flat(imp.names@.len() as int, |n: int| unused_name(f, imp, n))
    }
}

pub open spec fn fact_imports_out(g: Graph, f: FileFacts) -> Seq<FindingView> {
    match file_slot(g.files@, f.path@) {
        None => Seq::empty(),
        Some(j) => if g.files@[j].role is PackageInit {
            Seq::empty()
        } else {
            flat(f.imports@.len() as int, |m: int| import_out(f, f.imports@[m]))
        },
    }
}

pub open spec fn imports_out(g: Graph, facts: Seq<FileFacts>) -> Seq<FindingView> {
    flat(facts.len() as int, |i: int| fact_imports_out(g, facts[i]))
}

/// Every unused-import finding is `High` confidence and names a file of the
/// scan and an import binding of that file that no identifier in it refers
/// to; a re-export (`export { x } from`) binds nothing locally and is never
/// reported.
pub proof fn law_unused_imports_are_certain(g: Graph, facts: Seq<FileFacts>)
    ensures
        forall|k: int| 0 <= k < imports_out(g, facts).len() ==> {
            let v = #[trigger] imports_out(g, facts)[k];
            &&& v.rule == RuleId::UnusedImport
            &&& v.confidence == Confidence::High
            &&& exists|i: int, m: int, n: int| {
                &&& 0 <= i < facts.len()
                &&& 0 <= m < facts[i].imports@.len()
                &&& 0 <= n < facts[i].imports@[m].names@.len()
                &&& v.file == facts[i].path@
                &&& v.span == facts[i].imports@[m].span
                &&& !facts[i].imports@[m].is_reexport
                &&& !has_ref(facts[i], (#[trigger] facts[i].imports@[m].names@[n]).local@)
            }
        },
{
    let ff = |i: int| fact_imports_out(g, facts[i]);
    assert forall|k: int| 0 <= k < imports_out(g, facts).len() implies {
        let v = #[trigger] imports_out(g, facts)[k];
        &&& v.rule == RuleId::UnusedImport
        &&& v.confidence == Confidence::High
        &&& exists|i: int, m: int, n: int| {
            &&& 0 <= i < facts.len()
            &&& 0 <= m < facts[i].imports@.len()
            &&& 0 <= n < facts[i].imports@[m].names@.len()
            &&& v.file == facts[i].path@
            &&& v.span == facts[i].imports@[m].span
            &&& !facts[i].imports@[m].is_reexport
            &&& !has_ref(facts[i], (#[trigger] facts[i].imports@[m].names@[n]).local@)
        }
    } by {
        let (i, k1) = lemma_flat_from(facts.len() as int, ff, k);
        let f = facts[i];
        let j = file_slot(g.files@, f.path@)->0;
        let fm = |m: int| import_out(f, f.imports@[m]);
        assert(ff(i) == flat(f.imports@.len() as int, fm));
        let (m, k2) = lemma_flat_from(f.imports@.len() as int, fm, k1);
        let imp = f.imports@[m];
        let fnn = |n: int| unused_name(f, imp, n);
        assert(!imp.is_reexport);
        assert(fm(m) == flat(imp.names@.len() as int, fnn));
        let (n, k3) = lemma_flat_from(imp.names@.len() as int, fnn, k2);
        assert(fnn(n).len() > 0);
        assert(imports_out(g, facts)[k] == fnn(n)[k3]);
    }
}

fn refs_contain(f: &FileFacts, name: &str) -> (r: bool)
    ensures
        r == has_ref(*f, name@),
{
    let target = owned(name);
    let mut k: usize = 0;
    while k < f.refs.len()
        invariant
            k <= f.refs@.len(),
            target@ == name@,
            forall|j: int| 0 <= j < k ==> #[trigger] f.refs@[j].name@ != name@,
        decreases f.refs@.len() - k,
    {
        if f.refs[k].name == target {
            return true;
        }
        k += 1;
    }
    false
}

/// Unused import bindings, per file, per import, per name.
pub fn run(graph: &Graph, facts: &[FileFacts]) -> (r: Vec<Finding>)
    requires
        graph.wf(),
    ensures
        views(r@) == imports_out(*graph, facts@),
{
    let mut findings: Vec<Finding> = Vec::new();
    let ghost ff = |i: int| fact_imports_out(*graph, facts@[i]);
    let mut i: usize = 0;
    while i < facts.len()
        invariant
            graph.wf(),
            i <= facts@.len(),
            ff == (|i: int| fact_imports_out(*graph, facts@[i])),
            views(findings@) == flat(i as int, ff),
        decreases facts@.len() - i,
    {
        let f = &facts[i];
        let ghost start = views(findings@);
        match graph.file_id(f.path.as_str()) {
            None => {}
            Some(fid) => {
                let is_init = match graph.file(fid).role {
                    FileRole::PackageInit => true,
                    _ => false,
                };
                if !is_init {
                    let ghost mf = |m: int| import_out(*f, f.imports@[m]);
                    let mut m: usize = 0;
                    while m < f.imports.len()
                        invariant
                            m <= f.imports@.len(),
                            mf == (|m: int| import_out(*f, f.imports@[m])),
                            views(findings@) == start + flat(m as int, mf),
                        decreases f.imports@.len() - m,
                    {
                        let imp = &f.imports[m];
                        let ghost before = views(findings@);
                        if !imp.is_reexport {
                            let ghost nf = |n: int| unused_name(*f, *imp, n);
                            let mut n: usize = 0;
                            while n < imp.names.len()
                                invariant
                                    n <= imp.names@.len(),
                                    nf == (|n: int| unused_name(*f, *imp, n)),
                                    views(findings@) == before + flat(n as int, nf),
                                decreases imp.names@.len() - n,
                            {
                                let local = imp.names[n].local.as_str();
                                proof { reveal_strlit("'"); }
                                if !refs_contain(f, local) {
                                    let fd = Finding {
                                        rule: RuleId::UnusedImport,
                                        severity: Severity::Warn,
                                        confidence: Confidence::High,
                                        symbol: None,
                                        file: f.path.clone(),
                                        span: imp.span,
                                        message: cat5("'", local, "' is imported from '", imp.specifier.as_str(), "' but never used."),
                                        reason: owned("imported name has no in-file references"),
                                    };
                                    proof { lemma_views_push(findings@, fd); }
                                    findings.push(fd);
                                }
                                assert(views(findings@) == before + flat(n as int + 1, nf));
                                n += 1;
                            }
                        }
                        assert(views(findings@) == start + flat(m as int + 1, mf));
                        m += 1;
                    }
                }
            }
        }
        assert(views(findings@) == flat(i as int + 1, ff));
        i += 1;
    }
    findings
}

} // verus!

verus! {

/// Every import binding that nothing in its file refers to is reported, with
/// the file, the import's span and the names of the binding and of the module
/// it came from, unless the import is a re-export or the file is a package
/// initializer (or not a file of the scan).
pub proof fn law_unused_imports_are_all_reported(g: Graph, facts: Seq<FileFacts>, i: int, m: int, n: int, j: int)
    requires
        0 <= i < facts.len(),
        0 <= m < facts[i].imports@.len(),
        0 <= n < facts[i].imports@[m].names@.len(),
        first_with_path(g.files@, facts[i].path@, j),
        !(g.files@[j].role is PackageInit),
        !facts[i].imports@[m].is_reexport,
        !has_ref(facts[i], facts[i].imports@[m].names@[n].local@),
    ensures
        exists|k: int| 0 <= k < imports_out(g, facts).len() && #[trigger] imports_out(g, facts)[k] == (FindingView {
            rule: RuleId::UnusedImport,
            severity: Severity::Warn,
            confidence: Confidence::High,
            symbol: None,
            file: facts[i].path@,
            span: facts[i].imports@[m].span,
            message: "'"@ + facts[i].imports@[m].names@[n].local@ + "' is imported from '"@
                + facts[i].imports@[m].specifier@ + "' but never used."@,
            reason: "imported name has no in-file references"@,
        }),
{
    let f = facts[i];
    let imp = f.imports@[m];
    lemma_file_slot(g.files@, f.path@, j);
    let ff = |x: int| fact_imports_out(g, facts[x]);
    let fm = |x: int| import_out(f, f.imports@[x]);
    let fnn = |x: int| unused_name(f, imp, x);
    assert(fnn(n).len() == 1);
    let k3 = lemma_flat_has(imp.names@.len() as int, fnn, n, 0);
    assert(fm(m) == flat(imp.names@.len() as int, fnn));
    let k2 = lemma_flat_has(f.imports@.len() as int, fm, m, k3);
    assert(ff(i) == flat(f.imports@.len() as int, fm));
    let k = lemma_flat_has(facts.len() as int, ff, i, k2);
    assert(imports_out(g, facts)[k] == fnn(n)[0]);
}

} // verus!
