//! `unused-file` and `only-used-in-tests` — the headline dead-code rules.

use vstd::prelude::*;
use vstd::string::*;
use crate::confidence::{dead_conf, dead_confidence};
use crate::finding::{
    flat, lemma_flat_from, lemma_flat_has, lemma_views_push, opt, views, Confidence, Finding, FindingView,
    RuleId, Severity,
};
use crate::ids::{FileRole, Span};
use crate::ir::Graph;
use crate::path::{file_name, file_name_of, is_under, parent, parent_of, stem, stem_of, under};
use crate::reach::Reach;
use crate::text::{cat3, owned, str_is};

verus! {

/// `d` is a directory strictly above the path `p`.
pub open spec fn ancestor(p: Seq<char>, d: Seq<char>) -> bool {
    under(p, d) && p != d
}

/// Some reachable file other than a package init lives below `d`.
pub open spec fn dir_live(g: Graph, reach: Reach, d: Seq<char>) -> bool {
    exists|j: int| 0 <= j < g.files@.len() && #[trigger] reach.reachable@[j]
        && !(g.files@[j].role is PackageInit) && ancestor(g.files@[j].path@, d)
}

/// The finding (if any) the dead-file rules produce for file `i`.
pub open spec fn dead_file_at(g: Graph, reach: Reach, i: int) -> Option<FindingView> {
    let f = g.files@[i];
    if f.is_entry || f.is_implicit_used {
        None
    } else if f.role is Config || f.role is TypeDecl {
        None
    } else if f.role is PackageInit {
        if reach.reachable@[i] || dir_live(g, reach, parent(f.path@)) {
            None
        } else {
            Some(FindingView {
                rule: RuleId::UnusedFile,
                severity: Severity::Warn,
                confidence: Confidence::Low,
                symbol: None,
                file: f.path@,
                span: Span { start_line: 1, end_line: 1 },
                message: "Package '"@ + parent(f.path@) + "' has no reachable modules."@,
                reason: "no module in this package is reachable from any entry point"@,
            })
        }
    } else if !reach.reachable@[i] {
        Some(FindingView {
            rule: RuleId::UnusedFile,
            severity: Severity::Warn,
            confidence: dead_conf(g, i, Some(stem(file_name(f.path@)))),
            symbol: None,
            file: f.path@,
            span: Span { start_line: 1, end_line: 1 },
            message: "File '"@ + f.path@ + "' is not reachable from any entry point."@,
            reason: "no inbound edges from any entry point"@,
        })
    } else if !reach.prod_reachable@[i] && !f.is_test {
        Some(FindingView {
            rule: RuleId::OnlyUsedInTests,
            severity: Severity::Warn,
            confidence: Confidence::High,
            symbol: None,
            file: f.path@,
            span: Span { start_line: 1, end_line: 1 },
            message: "File '"@ + f.path@ + "' is only reachable from test files."@,
            reason: "reachable from test entry points but not from production entry points"@,
        })
    } else {
        None
    }
}

pub open spec fn dead_files_out(g: Graph, reach: Reach) -> Seq<FindingView> {
    flat(g.files@.len() as int, |i: int| opt(dead_file_at(g, reach, i)))
}

/// Entry points, implicitly used files, tool configs and ambient declaration
/// files are never reported dead; a dead package init is never reported at
/// `High`; and every source file that no entry point reaches is reported as an
/// unused file.
pub proof fn law_dead_files_spare_live_roles(g: Graph, reach: Reach)
    ensures
        forall|k: int| 0 <= k < dead_files_out(g, reach).len() ==> {
            let v = #[trigger] dead_files_out(g, reach)[k];
            exists|i: int| {
                &&& 0 <= i < g.files@.len()
                &&& v.file == (#[trigger] g.files@[i]).path@
                &&& !g.files@[i].is_entry
                &&& !g.files@[i].is_implicit_used
                &&& !(g.files@[i].role is Config)
                &&& !(g.files@[i].role is TypeDecl)
                &&& (g.files@[i].role is PackageInit ==> v.confidence != Confidence::High)
            }
        },
        forall|i: int| {
            &&& 0 <= i < g.files@.len()
            &&& !(#[trigger] g.files@[i]).is_entry
            &&& !g.files@[i].is_implicit_used
            &&& g.files@[i].role is Source
            &&& !reach.reachable@[i]
        } ==> exists|k: int| {
            &&& 0 <= k < dead_files_out(g, reach).len()
            &&& (#[trigger] dead_files_out(g, reach)[k]).file == g.files@[i].path@
            &&& dead_files_out(g, reach)[k].rule == RuleId::UnusedFile
        },
{
    let f = |i: int| opt(dead_file_at(g, reach, i));
    let n = g.files@.len() as int;
    assert(dead_files_out(g, reach) == flat(n, f));
    assert forall|k: int| 0 <= k < dead_files_out(g, reach).len() implies {
        let v = #[trigger] dead_files_out(g, reach)[k];
        exists|i: int| {
            &&& 0 <= i < g.files@.len()
            &&& v.file == (#[trigger] g.files@[i]).path@
            &&& !g.files@[i].is_entry
            &&& !g.files@[i].is_implicit_used
            &&& !(g.files@[i].role is Config)
            &&& !(g.files@[i].role is TypeDecl)
            &&& (g.files@[i].role is PackageInit ==> v.confidence != Confidence::High)
        }
    } by {
        let (i, j) = lemma_flat_from(n, f, k);
        assert(f(i).len() > 0);
        assert(g.files@[i] == g.files@[i]);
    }
    assert forall|i: int| {
        &&& 0 <= i < g.files@.len()
        &&& !(#[trigger] g.files@[i]).is_entry
        &&& !g.files@[i].is_implicit_used
        &&& g.files@[i].role is Source
        &&& !reach.reachable@[i]
    } implies exists|k: int| {
        &&& 0 <= k < dead_files_out(g, reach).len()
        &&& (#[trigger] dead_files_out(g, reach)[k]).file == g.files@[i].path@
        &&& dead_files_out(g, reach)[k].rule == RuleId::UnusedFile
    } by {
        assert(f(i).len() == 1);
        let k = lemma_flat_has(n, f, i, 0);
        assert(dead_files_out(g, reach)[k] == f(i)[0]);
    }
}

/// Does any reachable non-init file live below `dir`?
fn dir_has_reachable(graph: &Graph, reach: &Reach, dir: &str) -> (r: bool)
    requires
        reach.reachable@.len() == graph.files@.len(),
    ensures
        r == dir_live(*graph, *reach, dir@),
{
    let mut j: usize = 0;
    while j < graph.files.len()
        invariant
            j <= graph.files@.len() == reach.reachable@.len(),
            forall|k: int| 0 <= k < j ==> !(#[trigger] reach.reachable@[k]
                && !(graph.files@[k].role is PackageInit) && ancestor(graph.files@[k].path@, dir@)),
        decreases graph.files@.len() - j,
    {
        let f = &graph.files[j];
        let is_init = match f.role {
            FileRole::PackageInit => true,
            _ => false,
        };
        if reach.reachable[j] && !is_init && is_under(f.path.as_str(), dir) && !str_is(f.path.as_str(), dir) {
            return true;
        }
        j += 1;
    }
    false
}

fn finding(rule: RuleId, confidence: Confidence, file: &String, message: String, reason: &str) -> (r: Finding)
    ensures
        r@ == (FindingView {
            rule,
            severity: Severity::Warn,
            confidence,
            symbol: None,
            file: file@,
            span: Span { start_line: 1, end_line: 1 },
            message: message@,
            reason: reason@,
        }),
{
    Finding {
        rule,
        severity: Severity::Warn,
        confidence,
        symbol: None,
        file: file.clone(),
        span: Span::new(1, 1),
        message,
        reason: owned(reason),
    }
}

/// Unused and test-only files, in file order.
pub fn run(graph: &Graph, reach: &Reach) -> (r: Vec<Finding>)
    requires
        graph.wf(),
        reach.of(graph),
    ensures
        views(r@) == dead_files_out(*graph, *reach),
{
    let mut findings: Vec<Finding> = Vec::new();
    let ghost f = |i: int| opt(dead_file_at(*graph, *reach, i));
    let mut i: usize = 0;
    while i < graph.files.len()
        invariant
            graph.wf(),
            reach.of(graph),
            i <= graph.files@.len(),
            f == (|i: int| opt(dead_file_at(*graph, *reach, i))),
            views(findings@) == flat(i as int, f),
        decreases graph.files@.len() - i,
    {
        let file = &graph.files[i];
        assert(graph.files@[i as int] == *file);
        proof { reveal_strlit("Package '"); }
        let ghost before = findings@;
        if file.is_entry || file.is_implicit_used {
        } else {
            match file.role {
                FileRole::Config | FileRole::TypeDecl => {}
                FileRole::PackageInit => {
                    if !reach.reachable[i] {
                        let dir = parent_of(file.path.as_str());
                        if !dir_has_reachable(graph, reach, dir.as_str()) {
                            let msg = cat3("Package '", dir.as_str(), "' has no reachable modules.");
                            let fd = finding(RuleId::UnusedFile, Confidence::Low, &file.path, msg,
                                "no module in this package is reachable from any entry point");
                            proof { lemma_views_push(findings@, fd); }
                            findings.push(fd);
                        }
                    }
                }
                FileRole::Source => {
                    if !reach.reachable[i] {
                        let name = file_name_of(file.path.as_str());
                        let st = stem_of(name.as_str());
                        let conf = dead_confidence(graph, i, Some(st.as_str()));
                        let msg = cat3("File '", file.path.as_str(), "' is not reachable from any entry point.");
                        let fd = finding(RuleId::UnusedFile, conf, &file.path, msg, "no inbound edges from any entry point");
                        proof { lemma_views_push(findings@, fd); }
                        findings.push(fd);
                    } else if !reach.prod_reachable[i] && !file.is_test {
                        let msg = cat3("File '", file.path.as_str(), "' is only reachable from test files.");
                        let fd = finding(RuleId::OnlyUsedInTests, Confidence::High, &file.path, msg,
                            "reachable from test entry points but not from production entry points");
                        proof { lemma_views_push(findings@, fd); }
                        findings.push(fd);
                    }
                }
            }
        }
        assert(views(findings@) == flat(i as int, f) + f(i as int));
        i += 1;
    }
    findings
}

} // verus!

verus! {

/// The two dead-file findings say what they claim: an unused-file finding on
/// a module (not a package init) is for a file no entry point reaches; an
/// only-used-in-tests finding is for a file that is no test, that the tests
/// reach and no production entry point does. And every source file of that
/// kind (not itself an entry or implicitly used) gets the only-used-in-tests
/// finding.
pub proof fn law_dead_file_findings_match_reach(g: Graph, reach: Reach)
    ensures
        forall|k: int| 0 <= k < dead_files_out(g, reach).len() ==> exists|i: int| {
            let v = dead_files_out(g, reach)[k];
            &&& 0 <= i < g.files@.len()
            &&& v.file == (#[trigger] g.files@[i]).path@
            &&& (v.rule == RuleId::UnusedFile && !(g.files@[i].role is PackageInit) ==> !reach.reachable@[i])
            &&& (#[trigger] dead_files_out(g, reach)[k].rule == RuleId::OnlyUsedInTests ==> {
                &&& reach.reachable@[i]
                &&& !reach.prod_reachable@[i]
                &&& !g.files@[i].is_test
            })
            &&& (v.rule == RuleId::UnusedFile || v.rule == RuleId::OnlyUsedInTests)
        },
        forall|i: int| {
            &&& 0 <= i < g.files@.len()
            &&& !(#[trigger] g.files@[i]).is_entry
            &&& !g.files@[i].is_implicit_used
            &&& g.files@[i].role is Source
            &&& reach.reachable@[i]
            &&& !reach.prod_reachable@[i]
            &&& !g.files@[i].is_test
        } ==> exists|k: int| {
            &&& 0 <= k < dead_files_out(g, reach).len()
            &&& (#[trigger] dead_files_out(g, reach)[k]).file == g.files@[i].path@
            &&& dead_files_out(g, reach)[k].rule == RuleId::OnlyUsedInTests
        },
{
    let n = g.files@.len() as int;
    let f = |i: int| opt(dead_file_at(g, reach, i));
    assert forall|k: int| 0 <= k < dead_files_out(g, reach).len() implies exists|i: int| {
        let v = dead_files_out(g, reach)[k];
        &&& 0 <= i < g.files@.len()
        &&& v.file == (#[trigger] g.files@[i]).path@
        &&& (v.rule == RuleId::UnusedFile && !(g.files@[i].role is PackageInit) ==> !reach.reachable@[i])
        &&& (#[trigger] dead_files_out(g, reach)[k].rule == RuleId::OnlyUsedInTests ==> {
            &&& reach.reachable@[i]
            &&& !reach.prod_reachable@[i]
            &&& !g.files@[i].is_test
        })
        &&& (v.rule == RuleId::UnusedFile || v.rule == RuleId::OnlyUsedInTests)
    } by {
        let (i, j) = lemma_flat_from(n, f, k);
        assert(f(i).len() > 0);
        assert(g.files@[i] == g.files@[i]);
    }
    assert forall|i: int| {
        &&& 0 <= i < g.files@.len()
        &&& !(#[trigger] g.files@[i]).is_entry
        &&& !g.files@[i].is_implicit_used
        &&& g.files@[i].role is Source
        &&& reach.reachable@[i]
        &&& !reach.prod_reachable@[i]
        &&& !g.files@[i].is_test
    } implies exists|k: int| {
        &&& 0 <= k < dead_files_out(g, reach).len()
        &&& (#[trigger] dead_files_out(g, reach)[k]).file == g.files@[i].path@
        &&& dead_files_out(g, reach)[k].rule == RuleId::OnlyUsedInTests
    } by {
        assert(f(i).len() == 1);
        let k = lemma_flat_has(n, f, i, 0);
        assert(dead_files_out(g, reach)[k] == f(i)[0]);
    }
}

} // verus!
