//! Symbol-level dead code: `unused-enum-member`, `unused-class-member`,
//! `unused-parameter`. Members are judged against the repo-wide member-access
//! index; parameters arrive already known to be unused.

use vstd::prelude::*;
use vstd::string::*;
use crate::confidence::{dead_conf, dead_confidence};
use crate::facts::{SymbolKind, Visibility};
use crate::finding::{
    flat, lemma_flat_from, lemma_views_push, opt, views, Confidence, Finding, FindingView, RuleId, Severity,
};
use crate::ir::{Graph, SymbolNode};
use crate::reach::Reach;
use crate::text::{cat, cat3, copy_string, has_str, owned};

verus! {

/// `Parent.name` for members, else the bare name.
pub open spec fn qualified(sym: SymbolNode) -> Seq<char> {
    match sym.parent {
        Some(p) => p@ + "."@ + sym.name@,
        None => sym.name@,
    }
}

pub open spec fn symbol_finding(g: Graph, reach: Reach, s: int) -> Option<FindingView> {
    let sym = g.symbols@[s];
    let file = g.files@[sym.file as int];
    let accessed = has_str(g.accessed_members@, sym.name@);
    if !(file.role is Source) || file.is_test || !reach.reachable@[sym.file as int] {
        None
    } else if sym.visibility == Some(Visibility::Public) {
        None
    } else if sym.kind is Parameter {
        Some(FindingView {
            rule: RuleId::UnusedParameter,
            severity: Severity::Warn,
            confidence: Confidence::High,
            symbol: Some(sym.id@),
            file: file.path@,
            span: sym.span,
            message: "Parameter '"@ + qualified(sym) + "' is never used in its body."@,
            reason: "no reference to the parameter in the function body"@,
        })
    } else if (sym.kind is EnumMember || sym.kind is Method || sym.kind is Field) && !accessed {
        Some(FindingView {
            rule: if sym.kind is EnumMember { RuleId::UnusedEnumMember } else { RuleId::UnusedClassMember },
            severity: Severity::Warn,
            confidence: dead_conf(g, sym.file as int, Some(sym.name@)),
            symbol: Some(sym.id@),
            file: file.path@,
            span: sym.span,
            message: (if sym.kind is EnumMember { "Enum member"@ } else { "Private member"@ })
                + " '"@ + qualified(sym) + "' is never accessed."@,
            reason: "no member access to this name anywhere in the repo"@,
        })
    } else {
        None
    }
}

pub open spec fn symbols_out(g: Graph, reach: Reach) -> Seq<FindingView> {
    flat(g.symbols@.len() as int, |s: int| opt(symbol_finding(g, reach, s)))
}

fn qualified_name(sym: &SymbolNode) -> (r: String)
    ensures
        r@ == qualified(*sym),
{
    match &sym.parent {
        Some(p) => cat3(p.as_str(), ".", sym.name.as_str()),
        None => copy_string(&sym.name),
    }
}

/// Symbol findings never invent a use: each names a symbol of a reachable,
/// non-test source file that is not marked `@public`, and an enum member or
/// class member only when no member access anywhere has its name.
pub proof fn law_symbol_findings_never_invent_a_use(g: Graph, reach: Reach)
    ensures
        forall|k: int| 0 <= k < symbols_out(g, reach).len() ==> {
            let v = #[trigger] symbols_out(g, reach)[k];
            exists|s: int| {
                &&& 0 <= s < g.symbols@.len()
                &&& v.symbol == Some((#[trigger] g.symbols@[s]).id@)
                &&& g.files@[g.symbols@[s].file as int].role is Source
                &&& !g.files@[g.symbols@[s].file as int].is_test
                &&& reach.reachable@[g.symbols@[s].file as int]
                &&& g.symbols@[s].visibility != Some(Visibility::Public)
                &&& (v.rule == RuleId::UnusedEnumMember || v.rule == RuleId::UnusedClassMember
                    ==> !has_str(g.accessed_members@, g.symbols@[s].name@))
            }
        },
{
    let f = |s: int| opt(symbol_finding(g, reach, s));
    assert forall|k: int| 0 <= k < symbols_out(g, reach).len() implies {
        let v = #[trigger] symbols_out(g, reach)[k];
        exists|s: int| {
            &&& 0 <= s < g.symbols@.len()
            &&& v.symbol == Some((#[trigger] g.symbols@[s]).id@)
            &&& g.files@[g.symbols@[s].file as int].role is Source
            &&& !g.files@[g.symbols@[s].file as int].is_test
            &&& reach.reachable@[g.symbols@[s].file as int]
            &&& g.symbols@[s].visibility != Some(Visibility::Public)
            &&& (v.rule == RuleId::UnusedEnumMember || v.rule == RuleId::UnusedClassMember
                ==> !has_str(g.accessed_members@, g.symbols@[s].name@))
        }
    } by {
        let (s, j) = lemma_flat_from(g.symbols@.len() as int, f, k);
        assert(f(s).len() > 0);
        assert(symbols_out(g, reach)[k] == f(s)[j]);
        assert(g.symbols@[s] == g.symbols@[s]);
    }
}

/// Unused enum members, private class members and parameters, in symbol order.
pub fn run(graph: &Graph, reach: &Reach) -> (r: Vec<Finding>)
    requires
        graph.wf(),
        reach.of(graph),
    ensures
        views(r@) == symbols_out(*graph, *reach),
{
    let mut findings: Vec<Finding> = Vec::new();
    let ghost sf = |s: int| opt(symbol_finding(*graph, *reach, s));
    let mut s: usize = 0;
    while s < graph.symbols.len()
        invariant
            graph.wf(),
            reach.of(graph),
            s <= graph.symbols@.len(),
            sf == (|s: int| opt(symbol_finding(*graph, *reach, s))),
            views(findings@) == flat(s as int, sf),
        decreases graph.symbols@.len() - s,
    {
        let sym = &graph.symbols[s];
        let file = graph.file(sym.file);
        let public = match sym.visibility {
            Some(Visibility::Public) => true,
            _ => false,
        };
        proof {
            reveal_strlit("Parameter '");
            reveal_strlit(" '");
        }
        if !file.role.is_source() || file.is_test || !reach.reachable[sym.file] || public {
        } else {
            match sym.kind {
                SymbolKind::Parameter => {
                    let q = qualified_name(sym);
                    let fd = Finding {
                        rule: RuleId::UnusedParameter,
                        severity: Severity::Warn,
                        confidence: Confidence::High,
                        symbol: Some(copy_string(&sym.id)),
                        file: copy_string(&file.path),
                        span: sym.span,
                        message: cat3("Parameter '", q.as_str(), "' is never used in its body."),
                        reason: owned("no reference to the parameter in the function body"),
                    };
                    proof { lemma_views_push(findings@, fd); }
                    findings.push(fd);
                }
                SymbolKind::EnumMember | SymbolKind::Method | SymbolKind::Field => {
                    if !graph.member_is_accessed(sym.name.as_str()) {
                        let enum_member = match sym.kind {
                            SymbolKind::EnumMember => true,
                            _ => false,
                        };
                        let q = qualified_name(sym);
                        let word = if enum_member { "Enum member" } else { "Private member" };
                        let rule = if enum_member { RuleId::UnusedEnumMember } else { RuleId::UnusedClassMember };
                        let head = cat(word, " '");
                        let fd = Finding {
                            rule,
                            severity: Severity::Warn,
                            confidence: dead_confidence(graph, sym.file, Some(sym.name.as_str())),
                            symbol: Some(copy_string(&sym.id)),
                            file: copy_string(&file.path),
                            span: sym.span,
                            message: cat3(head.as_str(), q.as_str(), "' is never accessed."),
                            reason: owned("no member access to this name anywhere in the repo"),
                        };
                        proof { lemma_views_push(findings@, fd); }
                        findings.push(fd);
                    }
                }
                _ => {}
            }
        }
        assert(views(findings@) == flat(s as int + 1, sf));
        s += 1;
    }
    findings
}

} // verus!
