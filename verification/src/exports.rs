//! `unused-export` / `unused-type` — an exported symbol that no live file
//! references by name — and `expected-unused-but-used`.

use vstd::prelude::*;
use vstd::string::*;
use crate::confidence::{dead_conf, dead_confidence};
use crate::facts::{FileFacts, Marker, SymbolKind, Visibility};
use crate::finding::{
    confidence_rank, flat, lemma_flat_from, lemma_flat_has, lemma_views_push, opt, views, Confidence, Finding, FindingView, RuleId,
    Severity,
};
use crate::ir::{Graph, SymbolNode};
use crate::path::{rfind, rfind_char, slice_to_string};
use crate::reach::Reach;
use crate::text::{cat3, cat5, chars_of, contains_str, copy_string, has_str, owned};
use crate::workspace::{best_package, Workspace};

verus! {

/// `j` is the first fact for the given path.
pub open spec fn first_fact(facts: Seq<FileFacts>, path: Seq<char>, j: int) -> bool {
    0 <= j < facts.len() && facts[j].path@ == path
        && forall|k: int| 0 <= k < j ==> #[trigger] facts[k].path@ != path
}

pub open spec fn fact_slot(facts: Seq<FileFacts>, path: Seq<char>) -> Option<int> {
    if exists|j: int| first_fact(facts, path, j) {
        Some(choose|j: int| first_fact(facts, path, j))
    } else {
        None
    }
}

proof fn lemma_fact_slot(facts: Seq<FileFacts>, path: Seq<char>, j: int)
    requires
        first_fact(facts, path, j),
    ensures
        fact_slot(facts, path) == Some(j),
{
    let c = choose|j: int| first_fact(facts, path, j);
    if c < j {
        assert(facts[c].path@ != path);
    }
    if j < c {
        assert(facts[j].path@ != path);
    }
}

/// Index of the first fact for `path`.
pub fn find_fact(facts: &[FileFacts], path: &str) -> (r: Option<usize>)
    ensures
        r matches Some(j) ==> j < facts@.len() && fact_slot(facts@, path@) == Some(j as int),
        r is None <==> fact_slot(facts@, path@) is None,
{
    let target = owned(path);
    let mut i: usize = 0;
    while i < facts.len()
        invariant
            i <= facts@.len(),
            target@ == path@,
            forall|k: int| 0 <= k < i ==> #[trigger] facts@[k].path@ != path@,
        decreases facts@.len() - i,
    {
        if facts[i].path == target {
            proof { lemma_fact_slot(facts@, path@, i as int); }
            return Some(i);
        }
        i += 1;
    }
    assert(!exists|j: int| first_fact(facts@, path@, j));
    None
}

/// Number of identifier occurrences named `name` among the first `n` refs.
pub open spec fn ref_count(f: FileFacts, name: Seq<char>, n: int) -> nat
    decreases n,
{
    if n <= 0 {
        0
    } else {
        ref_count(f, name, n - 1) + if f.refs@[n - 1].name@ == name { 1nat } else { 0nat }
    }
}

/// The defining file mentions the name more than once (the declaration itself
/// is one occurrence).
pub open spec fn referenced_in_definer(facts: Seq<FileFacts>, path: Seq<char>, name: Seq<char>) -> bool {
    match fact_slot(facts, path) {
        None => false,
        Some(j) => ref_count(facts[j], name, facts[j].refs@.len() as int) > 1,
    }
}

/// The last `.`-separated segment of a dotted name.
pub open spec fn dotted_tail(d: Seq<char>) -> Seq<char> {
    d.skip(rfind(d, '.') + 1)
}

pub open spec fn handler_marker(m: Marker, name: Seq<char>, decorators: Seq<String>) -> bool {
    match m {
        Marker::Decorator { dotted, on_symbol } => on_symbol@ == name && has_str(decorators, dotted_tail(dotted@)),
        _ => false,
    }
}

/// A route/task/CLI decorator of the package marks the symbol as a handler.
pub open spec fn framework_handler(g: Graph, facts: Seq<FileFacts>, ws: Workspace, sym: SymbolNode) -> bool {
    let path = g.files@[sym.file as int].path@;
    match best_package(ws.packages@, path, ws.packages@.len() as int) {
        None => false,
        Some(p) => match fact_slot(facts, path) {
            None => false,
            Some(j) => exists|k: int| 0 <= k < facts[j].markers@.len()
                && handler_marker(#[trigger] facts[j].markers@[k], sym.name@, ws.packages@[p].route_decorators@),
        },
    }
}

pub open spec fn kind_name(k: SymbolKind) -> Seq<char> {
    match k {
        SymbolKind::Function => "function"@,
        SymbolKind::Class => "class"@,
        SymbolKind::Method => "method"@,
        SymbolKind::Variable => "value"@,
        SymbolKind::Type => "type"@,
        SymbolKind::EnumMember => "enum member"@,
        SymbolKind::Field => "field"@,
        SymbolKind::Parameter => "parameter"@,
    }
}

pub open spec fn export_finding(g: Graph, reach: Reach, facts: Seq<FileFacts>, ws: Workspace, s: int) -> Option<FindingView> {
    let sym = g.symbols@[s];
    let file = g.files@[sym.file as int];
    let used = g.export_used(sym.file as int, sym.name@);
    let local = referenced_in_definer(facts, file.path@, sym.name@);
    let base = dead_conf(g, sym.file as int, Some(sym.name@));
    if !sym.exported || sym.kind is EnumMember || sym.kind is Field || sym.kind is Parameter {
        None
    } else if sym.visibility == Some(Visibility::Public) {
        None
    } else if sym.visibility == Some(Visibility::ExpectedUnused) {
        if used {
            Some(FindingView {
                rule: RuleId::ExpectedUnusedButUsed,
                severity: Severity::Warn,
                confidence: Confidence::High,
                symbol: Some(sym.id@),
                file: file.path@,
                span: sym.span,
                message: "'"@ + sym.name@ + "' is marked @expected-unused but is now referenced \u{2014} drop the annotation."@,
                reason: "@expected-unused symbol has inbound references"@,
            })
        } else {
            None
        }
    } else if !reach.reachable@[sym.file as int] || framework_handler(g, facts, ws, sym) {
        None
    } else if (file.is_entry || file.is_implicit_used) && sym.visibility != Some(Visibility::Internal) {
        None
    } else if !(file.role is Source) || used {
        None
    } else {
        Some(FindingView {
            rule: if sym.kind is Type { RuleId::UnusedType } else { RuleId::UnusedExport },
            severity: Severity::Warn,
            confidence: if local && confidence_rank(base) > 1 { Confidence::Medium } else { base },
            symbol: Some(sym.id@),
            file: file.path@,
            span: sym.span,
            message: "Exported "@ + kind_name(sym.kind) + " '"@ + sym.name@ + "' has no references from any live file."@,
            reason: if local {
                "0 inbound reference edges; file reachable; symbol is referenced inside its defining file"@
            } else {
                "0 inbound reference edges; file reachable"@
            },
        })
    }
}

pub open spec fn exports_out(g: Graph, reach: Reach, facts: Seq<FileFacts>, ws: Workspace) -> Seq<FindingView> {
    flat(g.symbols@.len() as int, |s: int| opt(export_finding(g, reach, facts, ws, s)))
}

fn kind_word(kind: SymbolKind) -> (r: &'static str)
    ensures
        r@ == kind_name(kind),
{
    match kind {
        SymbolKind::Function => "function",
        SymbolKind::Class => "class",
        SymbolKind::Method => "method",
        SymbolKind::Variable => "value",
        SymbolKind::Type => "type",
        SymbolKind::EnumMember => "enum member",
        SymbolKind::Field => "field",
        SymbolKind::Parameter => "parameter",
    }
}

fn is_referenced_in_defining_file(facts: &[FileFacts], path: &str, name: &str) -> (r: bool)
    ensures
        r == referenced_in_definer(facts@, path@, name@),
{
    match find_fact(facts, path) {
        None => false,
        Some(j) => {
            let f = &facts[j];
            let target = owned(name);
            let mut count: usize = 0;
            let mut k: usize = 0;
            while k < f.refs.len()
                invariant
                    k <= f.refs@.len(),
                    target@ == name@,
                    j < facts@.len(),
                    *f == facts@[j as int],
                    fact_slot(facts@, path@) == Some(j as int),
                    count == ref_count(*f, name@, k as int),
                    count <= 1,
                decreases f.refs@.len() - k,
            {
                if f.refs[k].name == target {
                    if count == 1 {
                        // at least two occurrences: the rest cannot lower the count
                        proof {
                            assert(ref_count(*f, name@, k as int + 1) == 2);
                            lemma_ref_count_mono(*f, name@, k as int + 1, f.refs@.len() as int);
                        }
                        return true;
                    }
                    count += 1;
                }
                k += 1;
            }
            count > 1
        }
    }
}

proof fn lemma_ref_count_mono(f: FileFacts, name: Seq<char>, a: int, b: int)
    requires
        0 <= a <= b,
    ensures
        ref_count(f, name, a) <= ref_count(f, name, b),
    decreases b - a,
{
    if a < b {
        lemma_ref_count_mono(f, name, a, b - 1);
    }
}

fn tail_of(dotted: &str) -> (r: String)
    ensures
        r@ == dotted_tail(dotted@),
{
    let v = chars_of(dotted);
    match rfind_char(&v, '.') {
        Some(i) => {
            assert(i < v.len());
            slice_to_string(&v, i + 1, v.len())
        }
        None => slice_to_string(&v, 0, v.len()),
    }
}

fn is_framework_handler(sym: &SymbolNode, graph: &Graph, facts: &[FileFacts], ws: &Workspace) -> (r: bool)
    requires
        sym.file < graph.files@.len(),
    ensures
        r == framework_handler(*graph, facts@, *ws, *sym),
{
    let file = graph.file(sym.file);
    let p = match ws.package_index_for(file.path.as_str()) {
        None => return false,
        Some(p) => p,
    };
    let j = match find_fact(facts, file.path.as_str()) {
        None => return false,
        Some(j) => j,
    };
    let f = &facts[j];
    let decorators = &ws.packages[p].route_decorators;
    let mut k: usize = 0;
    while k < f.markers.len()
        invariant
            k <= f.markers@.len(),
            sym.file < graph.files@.len(),
            *file == graph.files@[sym.file as int],
            j < facts@.len(),
            *f == facts@[j as int],
            fact_slot(facts@, file.path@) == Some(j as int),
            p < ws.packages@.len(),
            best_package(ws.packages@, file.path@, ws.packages@.len() as int) == Some(p as int),
            *decorators == ws.packages@[p as int].route_decorators,
            forall|t: int| 0 <= t < k ==> !handler_marker(#[trigger] f.markers@[t], sym.name@, decorators@),
        decreases f.markers@.len() - k,
    {
        match &f.markers[k] {
            Marker::Decorator { dotted, on_symbol } => {
                if *on_symbol == sym.name {
                    let tail = tail_of(dotted.as_str());
                    if contains_str(decorators, tail.as_str()) {
                        assert(handler_marker(f.markers@[k as int], sym.name@, decorators@));
                        return true;
                    }
                }
            }
            _ => {}
        }
        k += 1;
    }
    false
}

/// An unused export or type is an exported symbol of a reachable source file
/// that no file imports, that is neither `@public` nor a framework handler,
/// that sits in an entry or implicitly used file only when marked
/// `@internal`, and whose confidence is never above the dead-code confidence
/// of its name; a stale `@expected-unused` finding names a symbol so marked
/// that is imported.
pub proof fn law_export_findings_are_unreferenced(g: Graph, reach: Reach, facts: Seq<FileFacts>, ws: Workspace)
    ensures
        forall|k: int| 0 <= k < exports_out(g, reach, facts, ws).len() ==> {
            let v = #[trigger] exports_out(g, reach, facts, ws)[k];
            exists|s: int| {
                &&& 0 <= s < g.symbols@.len()
                &&& v.symbol == Some((#[trigger] g.symbols@[s]).id@)
                &&& g.symbols@[s].exported
                &&& g.symbols@[s].visibility != Some(Visibility::Public)
                &&& (v.rule == RuleId::ExpectedUnusedButUsed ==> {
                    &&& g.symbols@[s].visibility == Some(Visibility::ExpectedUnused)
                    &&& g.export_used(g.symbols@[s].file as int, g.symbols@[s].name@)
                })
                &&& (v.rule != RuleId::ExpectedUnusedButUsed ==> {
                    let file = g.files@[g.symbols@[s].file as int];
                    &&& (v.rule == RuleId::UnusedExport || v.rule == RuleId::UnusedType)
                    &&& file.role is Source
                    &&& reach.reachable@[g.symbols@[s].file as int]
                    &&& !g.export_used(g.symbols@[s].file as int, g.symbols@[s].name@)
                    &&& !framework_handler(g, facts, ws, g.symbols@[s])
                    &&& (file.is_entry || file.is_implicit_used ==> g.symbols@[s].visibility == Some(Visibility::Internal))
                    &&& confidence_rank(v.confidence)
                        <= confidence_rank(dead_conf(g, g.symbols@[s].file as int, Some(g.symbols@[s].name@)))
                })
            }
        },
{
    let f = |s: int| opt(export_finding(g, reach, facts, ws, s));
    assert forall|k: int| 0 <= k < exports_out(g, reach, facts, ws).len() implies {
        let v = #[trigger] exports_out(g, reach, facts, ws)[k];
        exists|s: int| {
            &&& 0 <= s < g.symbols@.len()
            &&& v.symbol == Some((#[trigger] g.symbols@[s]).id@)
            &&& g.symbols@[s].exported
            &&& g.symbols@[s].visibility != Some(Visibility::Public)
            &&& (v.rule == RuleId::ExpectedUnusedButUsed ==> {
                &&& g.symbols@[s].visibility == Some(Visibility::ExpectedUnused)
                &&& g.export_used(g.symbols@[s].file as int, g.symbols@[s].name@)
            })
            &&& (v.rule != RuleId::ExpectedUnusedButUsed ==> {
                let file = g.files@[g.symbols@[s].file as int];
                &&& (v.rule == RuleId::UnusedExport || v.rule == RuleId::UnusedType)
                &&& file.role is Source
                &&& reach.reachable@[g.symbols@[s].file as int]
                &&& !g.export_used(g.symbols@[s].file as int, g.symbols@[s].name@)
                &&& !framework_handler(g, facts, ws, g.symbols@[s])
                &&& (file.is_entry || file.is_implicit_used ==> g.symbols@[s].visibility == Some(Visibility::Internal))
                &&& confidence_rank(v.confidence)
                    <= confidence_rank(dead_conf(g, g.symbols@[s].file as int, Some(g.symbols@[s].name@)))
            })
        }
    } by {
        let (s, j) = lemma_flat_from(g.symbols@.len() as int, f, k);
        assert(f(s).len() > 0);
        assert(exports_out(g, reach, facts, ws)[k] == f(s)[j]);
        assert(g.symbols@[s] == g.symbols@[s]);
    }
}

/// Unused exports/types and stale `@expected-unused` tags, in symbol order.
pub fn run(graph: &Graph, reach: &Reach, facts: &[FileFacts], ws: &Workspace) -> (r: Vec<Finding>)
    requires
        graph.wf(),
        reach.of(graph),
    ensures
        views(r@) == exports_out(*graph, *reach, facts@, *ws),
{
    let mut findings: Vec<Finding> = Vec::new();
    let ghost sf = |s: int| opt(export_finding(*graph, *reach, facts@, *ws, s));
    let mut s: usize = 0;
    while s < graph.symbols.len()
        invariant
            graph.wf(),
            reach.of(graph),
            s <= graph.symbols@.len(),
            sf == (|s: int| opt(export_finding(*graph, *reach, facts@, *ws, s))),
            views(findings@) == flat(s as int, sf),
        decreases graph.symbols@.len() - s,
    {
        let sym = &graph.symbols[s];
        proof {
            reveal_strlit("'");
            reveal_strlit("Exported ");
            reveal_strlit(" '");
        }
        let member = match sym.kind {
            SymbolKind::EnumMember | SymbolKind::Field | SymbolKind::Parameter => true,
            _ => false,
        };
        let (public, expected, internal) = match sym.visibility {
            Some(Visibility::Public) => (true, false, false),
            Some(Visibility::ExpectedUnused) => (false, true, false),
            Some(Visibility::Internal) => (false, false, true),
            None => (false, false, false),
        };
        if sym.exported && !member && !public {
            let file = graph.file(sym.file);
            let used = graph.export_is_used(sym.file, sym.name.as_str());
            if expected {
                if used {
                    let fd = Finding {
                        rule: RuleId::ExpectedUnusedButUsed,
                        severity: Severity::Warn,
                        confidence: Confidence::High,
                        symbol: Some(copy_string(&sym.id)),
                        file: copy_string(&file.path),
                        span: sym.span,
                        message: cat3("'", sym.name.as_str(),
                            "' is marked @expected-unused but is now referenced \u{2014} drop the annotation."),
                        reason: owned("@expected-unused symbol has inbound references"),
                    };
                    proof { lemma_views_push(findings@, fd); }
                    findings.push(fd);
                }
            } else if reach.reachable[sym.file] && !is_framework_handler(sym, graph, facts, ws)
                && !((file.is_entry || file.is_implicit_used) && !internal)
                && file.role.is_source() && !used {
                let is_type = match sym.kind {
                    SymbolKind::Type => true,
                    _ => false,
                };
                let local = is_referenced_in_defining_file(facts, file.path.as_str(), sym.name.as_str());
                let base = dead_confidence(graph, sym.file, Some(sym.name.as_str()));
                let confidence = if local { base.lower_of(Confidence::Medium) } else { base };
                let reason = if local {
                    owned("0 inbound reference edges; file reachable; symbol is referenced inside its defining file")
                } else {
                    owned("0 inbound reference edges; file reachable")
                };
                let fd = Finding {
                    rule: if is_type { RuleId::UnusedType } else { RuleId::UnusedExport },
                    severity: Severity::Warn,
                    confidence,
                    symbol: Some(copy_string(&sym.id)),
                    file: copy_string(&file.path),
                    span: sym.span,
                    message: cat5("Exported ", kind_word(sym.kind), " '", sym.name.as_str(),
                        "' has no references from any live file."),
                    reason,
                };
                proof { lemma_views_push(findings@, fd); }
                findings.push(fd);
            }
        }
        assert(views(findings@) == flat(s as int + 1, sf));
        s += 1;
    }
    findings
}

} // verus!

verus! {

/// An unused-export or unused-type finding names an exported symbol of a file
/// that no file imports by that name and no file imports whole (`*`): a
/// namespace import or `export * from` keeps every export of the file used.
pub proof fn law_wildcard_imports_keep_exports(g: Graph, reach: Reach, facts: Seq<FileFacts>, ws: Workspace)
    requires
        g.wf(),
    ensures
        forall|k: int| 0 <= k < exports_out(g, reach, facts, ws).len()
            && ((#[trigger] exports_out(g, reach, facts, ws)[k]).rule == RuleId::UnusedExport
                || exports_out(g, reach, facts, ws)[k].rule == RuleId::UnusedType) ==> exists|s: int| {
            let file = g.symbols@[s].file as int;
            &&& 0 <= s < g.symbols@.len()
            &&& exports_out(g, reach, facts, ws)[k].symbol == Some((#[trigger] g.symbols@[s]).id@)
            &&& g.symbols@[s].exported
            &&& forall|j: int| 0 <= j < g.imported_names@[file]@.len() ==>
                (#[trigger] g.imported_names@[file]@[j])@ != "*"@ && g.imported_names@[file]@[j]@ != g.symbols@[s].name@
        },
{
    law_export_findings_are_unreferenced(g, reach, facts, ws);
    assert forall|k: int| 0 <= k < exports_out(g, reach, facts, ws).len()
        && ((#[trigger] exports_out(g, reach, facts, ws)[k]).rule == RuleId::UnusedExport
            || exports_out(g, reach, facts, ws)[k].rule == RuleId::UnusedType) implies exists|s: int| {
        let file = g.symbols@[s].file as int;
        &&& 0 <= s < g.symbols@.len()
        &&& exports_out(g, reach, facts, ws)[k].symbol == Some((#[trigger] g.symbols@[s]).id@)
        &&& g.symbols@[s].exported
        &&& forall|j: int| 0 <= j < g.imported_names@[file]@.len() ==>
            (#[trigger] g.imported_names@[file]@[j])@ != "*"@ && g.imported_names@[file]@[j]@ != g.symbols@[s].name@
    } by {
        let v = exports_out(g, reach, facts, ws)[k];
        let s = choose|s: int| {
            &&& 0 <= s < g.symbols@.len()
            &&& v.symbol == Some((#[trigger] g.symbols@[s]).id@)
            &&& g.symbols@[s].exported
            &&& g.symbols@[s].visibility != Some(Visibility::Public)
            &&& (v.rule == RuleId::ExpectedUnusedButUsed ==> {
                &&& g.symbols@[s].visibility == Some(Visibility::ExpectedUnused)
                &&& g.export_used(g.symbols@[s].file as int, g.symbols@[s].name@)
            })
            &&& (v.rule != RuleId::ExpectedUnusedButUsed ==> {
                let file = g.files@[g.symbols@[s].file as int];
                &&& (v.rule == RuleId::UnusedExport || v.rule == RuleId::UnusedType)
                &&& file.role is Source
                &&& reach.reachable@[g.symbols@[s].file as int]
                &&& !g.export_used(g.symbols@[s].file as int, g.symbols@[s].name@)
                &&& !framework_handler(g, facts, ws, g.symbols@[s])
                &&& (file.is_entry || file.is_implicit_used ==> g.symbols@[s].visibility == Some(Visibility::Internal))
                &&& confidence_rank(v.confidence)
                    <= confidence_rank(dead_conf(g, g.symbols@[s].file as int, Some(g.symbols@[s].name@)))
            })
        };
        let file = g.symbols@[s].file as int;
        g.law_export_used_by_name_or_wildcard(file, g.symbols@[s].name@);
        assert forall|j: int| 0 <= j < g.imported_names@[file]@.len() implies
            (#[trigger] g.imported_names@[file]@[j])@ != "*"@ && g.imported_names@[file]@[j]@ != g.symbols@[s].name@ by {
            if g.imported_names@[file]@[j]@ == "*"@ || g.imported_names@[file]@[j]@ == g.symbols@[s].name@ {
                assert(exists|j: int| 0 <= j < g.imported_names@[file]@.len()
                    && (#[trigger] g.imported_names@[file]@[j]@ == "*"@ || g.imported_names@[file]@[j]@ == g.symbols@[s].name@));
            }
        }
    }
}

} // verus!

verus! {

/// An exported function, class, method, value or type of a reachable source
/// file that is no entry point and not implicitly used, that carries no
/// visibility marker, is no framework handler, and that no file imports by
/// name or whole (`*`), is reported as an unused export (an unused type for a
/// type), naming the symbol, its file and its span.
pub proof fn law_unimported_exports_are_reported(g: Graph, reach: Reach, facts: Seq<FileFacts>, ws: Workspace, s: int)
    requires
        g.wf(),
        0 <= s < g.symbols@.len(),
        g.symbols@[s].exported,
        !(g.symbols@[s].kind is EnumMember || g.symbols@[s].kind is Field || g.symbols@[s].kind is Parameter),
        g.symbols@[s].visibility is None,
        reach.reachable@[g.symbols@[s].file as int],
        g.files@[g.symbols@[s].file as int].role is Source,
        !g.files@[g.symbols@[s].file as int].is_entry,
        !g.files@[g.symbols@[s].file as int].is_implicit_used,
        !framework_handler(g, facts, ws, g.symbols@[s]),
        forall|j: int| 0 <= j < g.imported_names@[g.symbols@[s].file as int]@.len() ==>
            (#[trigger] g.imported_names@[g.symbols@[s].file as int]@[j])@ != "*"@
            && g.imported_names@[g.symbols@[s].file as int]@[j]@ != g.symbols@[s].name@,
    ensures
        exists|k: int| {
            let v = #[trigger] exports_out(g, reach, facts, ws)[k];
            &&& 0 <= k < exports_out(g, reach, facts, ws).len()
            &&& v.rule == (if g.symbols@[s].kind is Type { RuleId::UnusedType } else { RuleId::UnusedExport })
            &&& v.symbol == Some(g.symbols@[s].id@)
            &&& v.file == g.files@[g.symbols@[s].file as int].path@
            &&& v.span == g.symbols@[s].span
            &&& v.message == "Exported "@ + kind_name(g.symbols@[s].kind) + " '"@ + g.symbols@[s].name@
                + "' has no references from any live file."@
        },
{
    let sym = g.symbols@[s];
    let file = sym.file as int;
    g.law_export_used_by_name_or_wildcard(file, sym.name@);
    assert(!g.export_used(file, sym.name@));
    let fo = |x: int| opt(export_finding(g, reach, facts, ws, x));
    assert(fo(s).len() == 1);
    let k = lemma_flat_has(g.symbols@.len() as int, fo, s, 0);
    assert(exports_out(g, reach, facts, ws)[k] == fo(s)[0]);
}

} // verus!
