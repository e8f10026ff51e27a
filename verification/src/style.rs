//! Styling liveness: `unused-css-token`, `broken-css-reference`,
//! `unused-css-class`. A token or class is live iff referenced anywhere (a CSS
//! `var()`, a `className`/`class` attribute, or `var(--x)` inside a string).

use vstd::prelude::*;
use vstd::string::*;
use crate::analysis::StyleConfig;
use crate::facts::{CssName, FileFacts};
use crate::finding::{
    flat, lemma_flat_from, lemma_views_push, views, Confidence, Finding, FindingView, RuleId, Severity,
};
use crate::ids::{starts_with, Span};
use crate::order::{contains_view, string_views};
use crate::path::slice_to_string;
use crate::scan::{find_either, find_either_from, find_from, find_sub, lemma_find_from, occurs_at, trim, trim_bounds};
use crate::text::{cat3, chars_of, contains_str, copy_string, owned};

verus! {

/// The opening of a `var()` reference.
pub open spec fn var_open() -> Seq<char> {
    seq!['v', 'a', 'r', '(']
}

/// The `--name`s of every `var(--name[, fallback])` in `s`, scanning from `from`.
pub open spec fn var_names(s: Seq<char>, from: int) -> Seq<Seq<char>>
    decreases s.len() + 1 - from,
{
    if from < 0 {
        Seq::empty()
    } else {
        let pos = find_from(s, var_open(), from);
        if pos < 0 {
            Seq::empty()
        } else {
            proof { lemma_find_from(s, var_open(), from); }
            let start = pos + 4;
            let end = find_either(s, ',', ')', start);
            let name = trim(s.subrange(start, end));
            (if starts_with(name, "--"@) { seq![name] } else { Seq::empty() }) + var_names(s, start)
        }
    }
}

/// Append every `var(--x)` name found in `s` to `out`.
pub fn collect_var_refs(s: &str, out: &mut Vec<String>)
    ensures
        string_views(final(out)@) == string_views(old(out)@) + var_names(s@, 0),
{
    let v = chars_of(s);
    let pat = chars_of("var(");
    proof { reveal_strlit("var("); reveal_strlit("--"); }
    assert(pat@ =~= var_open());
    let mut from: usize = 0;
    let ghost base = string_views(out@);
    assert(string_views(out@) == base + Seq::<Seq<char>>::empty());
    loop
        invariant
            v@ == s@,
            pat@ == var_open(),
            base == string_views(old(out)@),
            from <= v@.len(),
            string_views(out@) + var_names(s@, from as int) == base + var_names(s@, 0),
        decreases v@.len() - from,
    {
        let ghost before = string_views(out@);
        match find_sub(&v, &pat, from) {
            None => {
                assert(var_names(s@, from as int) == Seq::<Seq<char>>::empty());
                assert(string_views(out@) =~= base + var_names(s@, 0));
                return;
            }
            Some(pos) => {
                proof {
                    lemma_find_from(s@, var_open(), from as int);
                    assert(var_open().len() == 4);
                    assert(occurs_at(v@, pat@, pos as int));
                    assert(pos + 4 <= v@.len());
                }
                assert(pos + 4 <= v.len());
                let start = pos + 4;
                let end = find_either_from(&v, ',', ')', start);
                let (a, b) = trim_bounds(&v, start, end);
                let name = slice_to_string(&v, a, b);
                let ghost nm = trim(s@.subrange(start as int, end as int));
                let nv = chars_of(name.as_str());
                if crate::ids::seq_starts_with(&nv, "--") {
                    out.push(name);
                    assert(string_views(out@) =~= before.push(nm));
                    assert(before + var_names(s@, from as int) =~= before + (seq![nm] + var_names(s@, start as int)));
                    assert(before + (seq![nm] + var_names(s@, start as int)) =~= before.push(nm) + var_names(s@, start as int));
                } else {
                    assert(var_names(s@, from as int) =~= var_names(s@, start as int));
                }
                from = start;
            }
        }
    }
}

/// The lists `f(0)`, ..., `f(n - 1)` joined in order.
pub open spec fn joined(n: int, f: spec_fn(int) -> Seq<Seq<char>>) -> Seq<Seq<char>>
    decreases n,
{
    if n <= 0 {
        Seq::empty()
    } else {
        joined(n - 1, f) + f(n - 1)
    }
}

/// Every `var()` target named in CSS, over all files.
pub open spec fn all_var_refs(facts: Seq<FileFacts>) -> Seq<Seq<char>> {
    joined(facts.len() as int, |i: int| string_views(facts[i].style.var_refs@))
}

/// Every `var(--x)` name inside a string literal, over all files.
pub open spec fn all_string_refs(facts: Seq<FileFacts>) -> Seq<Seq<char>> {
    joined(facts.len() as int, |i: int| joined(facts[i].string_literals@.len() as int,
        |k: int| var_names(facts[i].string_literals@[k]@, 0)))
}

pub open spec fn token_names(v: Seq<CssName>) -> Seq<Seq<char>> {
    v.map_values(|t: CssName| t.name@)
}

/// Every declared custom property, over all files.
pub open spec fn all_declared(facts: Seq<FileFacts>) -> Seq<Seq<char>> {
    joined(facts.len() as int, |i: int| token_names(facts[i].style.declared_tokens@))
}

/// Every class named in markup, over all files.
pub open spec fn all_class_refs(facts: Seq<FileFacts>) -> Seq<Seq<char>> {
    joined(facts.len() as int, |i: int| string_views(facts[i].style.class_refs@))
}

/// A `var()` reference to `name` exists in some CSS file or string literal.
pub open spec fn token_used(facts: Seq<FileFacts>, name: Seq<char>) -> bool {
    all_var_refs(facts).contains(name) || all_string_refs(facts).contains(name)
}

pub open spec fn token_declared(facts: Seq<FileFacts>, name: Seq<char>) -> bool {
    all_declared(facts).contains(name)
}

pub open spec fn class_used(facts: Seq<FileFacts>, name: Seq<char>) -> bool {
    all_class_refs(facts).contains(name)
}

pub open spec fn token_finding(facts: Seq<FileFacts>, f: FileFacts, k: int) -> Seq<FindingView> {
    let t = f.style.declared_tokens@[k];
    if token_used(facts, t.name@) {
        Seq::empty()
    } else {
        seq![FindingView {
            rule: RuleId::UnusedCssToken,
            severity: Severity::Warn,
            confidence: Confidence::High,
            symbol: None,
            file: f.path@,
            span: t.span,
            message: "Custom property '"@ + t.name@ + "' is declared but never referenced."@,
            reason: "no var() reference anywhere in the repo"@,
        }]
    }
}

pub open spec fn broken_finding(facts: Seq<FileFacts>, f: FileFacts, k: int) -> Seq<FindingView> {
    let r = f.style.var_refs@[k]@;
    if token_declared(facts, r) {
        Seq::empty()
    } else {
        seq![FindingView {
            rule: RuleId::BrokenCssReference,
            severity: Severity::Warn,
            confidence: Confidence::High,
            symbol: None,
            file: f.path@,
            span: Span { start_line: 1, end_line: 1 },
            message: "var("@ + r + ") references an undeclared custom property."@,
            reason: "no matching custom-property declaration"@,
        }]
    }
}

pub open spec fn class_finding(facts: Seq<FileFacts>, f: FileFacts, k: int) -> Seq<FindingView> {
    let c = f.style.class_selectors@[k];
    if class_used(facts, c.name@) {
        Seq::empty()
    } else {
        seq![FindingView {
            rule: RuleId::UnusedCssClass,
            severity: Severity::Warn,
            confidence: Confidence::Medium,
            symbol: None,
            file: f.path@,
            span: c.span,
            message: "Class selector '."@ + c.name@ + "' is never used in markup."@,
            reason: "no className/class reference to this selector"@,
        }]
    }
}

pub open spec fn file_style_out(facts: Seq<FileFacts>, f: FileFacts) -> Seq<FindingView> {
    flat(f.style.declared_tokens@.len() as int, |k: int| token_finding(facts, f, k))
        + flat(f.style.var_refs@.len() as int, |k: int| broken_finding(facts, f, k))
        + flat(f.style.class_selectors@.len() as int, |k: int| class_finding(facts, f, k))
}

pub open spec fn style_out(facts: Seq<FileFacts>, cfg: StyleConfig) -> Seq<FindingView> {
    if !cfg.enabled {
        Seq::empty()
    } else {
        flat(facts.len() as int, |i: int| file_style_out(facts, facts[i]))
    }
}

/// The pooled reference lists of all files.
struct Pools {
    used_tokens: Vec<String>,
    declared: Vec<String>,
    used_classes: Vec<String>,
    string_refs: Vec<String>,
}

fn append_strings(out: &mut Vec<String>, src: &Vec<String>)
    ensures
        string_views(final(out)@) == string_views(old(out)@) + string_views(src@),
{
    let ghost base = string_views(out@);
    let mut k: usize = 0;
    while k < src.len()
        invariant
            k <= src@.len(),
            string_views(out@) == base + string_views(src@).take(k as int),
        decreases src@.len() - k,
    {
        let ghost before = out@;
        out.push(copy_string(&src[k]));
        assert(string_views(out@) =~= string_views(before).push(src@[k as int]@));
        assert(string_views(src@).take(k as int + 1) =~= string_views(src@).take(k as int).push(src@[k as int]@));
        assert(string_views(out@) =~= base + string_views(src@).take(k as int + 1));
        k += 1;
    }
    assert(string_views(src@).take(src@.len() as int) =~= string_views(src@));
}

fn append_token_names(out: &mut Vec<String>, src: &Vec<CssName>)
    ensures
        string_views(final(out)@) == string_views(old(out)@) + token_names(src@),
{
    let ghost base = string_views(out@);
    let mut k: usize = 0;
    while k < src.len()
        invariant
            k <= src@.len(),
            string_views(out@) == base + token_names(src@).take(k as int),
        decreases src@.len() - k,
    {
        let ghost before = out@;
        out.push(copy_string(&src[k].name));
        assert(string_views(out@) =~= string_views(before).push(src@[k as int].name@));
        assert(token_names(src@).take(k as int + 1) =~= token_names(src@).take(k as int).push(src@[k as int].name@));
        assert(string_views(out@) =~= base + token_names(src@).take(k as int + 1));
        k += 1;
    }
    assert(token_names(src@).take(src@.len() as int) =~= token_names(src@));
}

fn append_string_refs(out: &mut Vec<String>, lits: &Vec<String>)
    ensures
        string_views(final(out)@) == string_views(old(out)@)
            + joined(lits@.len() as int, |k: int| var_names(lits@[k]@, 0)),
{
    let ghost base = string_views(out@);
    let ghost g = |k: int| var_names(lits@[k]@, 0);
    let mut k: usize = 0;
    while k < lits.len()
        invariant
            k <= lits@.len(),
            g == (|k: int| var_names(lits@[k]@, 0)),
            string_views(out@) == base + joined(k as int, g),
        decreases lits@.len() - k,
    {
        collect_var_refs(lits[k].as_str(), out);
        assert(joined(k as int + 1, g) == joined(k as int, g) + g(k as int));
        assert(string_views(out@) =~= base + joined(k as int + 1, g));
        k += 1;
    }
}

fn pools(facts: &[FileFacts]) -> (p: Pools)
    ensures
        string_views(p.used_tokens@) == all_var_refs(facts@),
        string_views(p.string_refs@) == all_string_refs(facts@),
        string_views(p.declared@) == all_declared(facts@),
        string_views(p.used_classes@) == all_class_refs(facts@),
{
    let mut p = Pools { used_tokens: Vec::new(), declared: Vec::new(), used_classes: Vec::new(), string_refs: Vec::new() };
    let ghost fv = |i: int| string_views(facts@[i].style.var_refs@);
    let ghost fs = |i: int| joined(facts@[i].string_literals@.len() as int,
        |k: int| var_names(facts@[i].string_literals@[k]@, 0));
    let ghost fd = |i: int| token_names(facts@[i].style.declared_tokens@);
    let ghost fc = |i: int| string_views(facts@[i].style.class_refs@);
    let mut i: usize = 0;
    while i < facts.len()
        invariant
            i <= facts@.len(),
            fv == (|i: int| string_views(facts@[i].style.var_refs@)),
            fs == (|i: int| joined(facts@[i].string_literals@.len() as int,
                |k: int| var_names(facts@[i].string_literals@[k]@, 0))),
            fd == (|i: int| token_names(facts@[i].style.declared_tokens@)),
            fc == (|i: int| string_views(facts@[i].style.class_refs@)),
            string_views(p.used_tokens@) == joined(i as int, fv),
            string_views(p.string_refs@) == joined(i as int, fs),
            string_views(p.declared@) == joined(i as int, fd),
            string_views(p.used_classes@) == joined(i as int, fc),
        decreases facts@.len() - i,
    {
        let f = &facts[i];
        append_strings(&mut p.used_tokens, &f.style.var_refs);
        append_string_refs(&mut p.string_refs, &f.string_literals);
        append_token_names(&mut p.declared, &f.style.declared_tokens);
        append_strings(&mut p.used_classes, &f.style.class_refs);
        assert(joined(i as int + 1, fv) == joined(i as int, fv) + fv(i as int));
        assert(joined(i as int + 1, fs) == joined(i as int, fs) + fs(i as int));
        assert(joined(i as int + 1, fd) == joined(i as int, fd) + fd(i as int));
        assert(joined(i as int + 1, fc) == joined(i as int, fc) + fc(i as int));
        i += 1;
    }
    p
}

/// Styling findings never invent a use: an unused token or class is one that
/// nothing anywhere references, a broken reference names a custom property
/// that nothing declares, and unused classes are capped at `Medium`.
pub proof fn law_style_findings_never_invent_a_use(facts: Seq<FileFacts>, cfg: StyleConfig)
    ensures
        forall|k: int| 0 <= k < style_out(facts, cfg).len() ==> {
            let v = #[trigger] style_out(facts, cfg)[k];
            exists|i: int| 0 <= i < facts.len() && v.file == (#[trigger] facts[i]).path@ && {
                ||| exists|j: int| 0 <= j < facts[i].style.declared_tokens@.len() && {
                        let t = #[trigger] facts[i].style.declared_tokens@[j];
                        &&& v.rule == RuleId::UnusedCssToken
                        &&& v.span == t.span
                        &&& !token_used(facts, t.name@)
                    }
                ||| exists|j: int| 0 <= j < facts[i].style.var_refs@.len() && {
                        &&& v.rule == RuleId::BrokenCssReference
                        &&& !token_declared(facts, (#[trigger] facts[i].style.var_refs@[j])@)
                    }
                ||| exists|j: int| 0 <= j < facts[i].style.class_selectors@.len() && {
                        let c = #[trigger] facts[i].style.class_selectors@[j];
                        &&& v.rule == RuleId::UnusedCssClass
                        &&& v.confidence == Confidence::Medium
                        &&& v.span == c.span
                        &&& !class_used(facts, c.name@)
                    }
            }
        },
{
    if cfg.enabled {
        let ff = |i: int| file_style_out(facts, facts[i]);
        assert forall|k: int| 0 <= k < style_out(facts, cfg).len() implies {
            let v = #[trigger] style_out(facts, cfg)[k];
            exists|i: int| 0 <= i < facts.len() && v.file == (#[trigger] facts[i]).path@ && {
                ||| exists|j: int| 0 <= j < facts[i].style.declared_tokens@.len() && {
                        let t = #[trigger] facts[i].style.declared_tokens@[j];
                        &&& v.rule == RuleId::UnusedCssToken
                        &&& v.span == t.span
                        &&& !token_used(facts, t.name@)
                    }
                ||| exists|j: int| 0 <= j < facts[i].style.var_refs@.len() && {
                        &&& v.rule == RuleId::BrokenCssReference
                        &&& !token_declared(facts, (#[trigger] facts[i].style.var_refs@[j])@)
                    }
                ||| exists|j: int| 0 <= j < facts[i].style.class_selectors@.len() && {
                        let c = #[trigger] facts[i].style.class_selectors@[j];
                        &&& v.rule == RuleId::UnusedCssClass
                        &&& v.confidence == Confidence::Medium
                        &&& v.span == c.span
                        &&& !class_used(facts, c.name@)
                    }
            }
        } by {
            let (i, k1) = lemma_flat_from(facts.len() as int, ff, k);
            let f = facts[i];
            let ft = |j: int| token_finding(facts, f, j);
            let fb = |j: int| broken_finding(facts, f, j);
            let fc = |j: int| class_finding(facts, f, j);
            let a = flat(f.style.declared_tokens@.len() as int, ft);
            let b = flat(f.style.var_refs@.len() as int, fb);
            let c = flat(f.style.class_selectors@.len() as int, fc);
            assert(ff(i) == a + b + c);
            let v = style_out(facts, cfg)[k];
            assert(v == ff(i)[k1]);
            if k1 < a.len() {
                let (j, k2) = lemma_flat_from(f.style.declared_tokens@.len() as int, ft, k1);
                assert(ft(j).len() > 0);
                assert(v == ft(j)[k2]);
            } else if k1 < a.len() + b.len() {
                let (j, k2) = lemma_flat_from(f.style.var_refs@.len() as int, fb, k1 - a.len());
                assert(fb(j).len() > 0);
                assert(v == fb(j)[k2]);
            } else {
                let (j, k2) = lemma_flat_from(f.style.class_selectors@.len() as int, fc, k1 - a.len() - b.len());
                assert(fc(j).len() > 0);
                assert(v == fc(j)[k2]);
            }
        }
    }
}

/// Unused tokens, broken `var()` references and unused class selectors.
pub fn run(facts: &[FileFacts], cfg: &StyleConfig) -> (r: Vec<Finding>)
    ensures
        views(r@) == style_out(facts@, *cfg),
{
    if !cfg.enabled {
        return Vec::new();
    }
    let p = pools(facts);
    let mut findings: Vec<Finding> = Vec::new();
    let ghost ff = |i: int| file_style_out(facts@, facts@[i]);
    let mut i: usize = 0;
    proof {
        reveal_strlit("Custom property '");
        reveal_strlit("var(");
        reveal_strlit("Class selector '.");
    }
    while i < facts.len()
        invariant
            i <= facts@.len(),
            ff == (|i: int| file_style_out(facts@, facts@[i])),
            views(findings@) == flat(i as int, ff),
            string_views(p.used_tokens@) == all_var_refs(facts@),
            string_views(p.string_refs@) == all_string_refs(facts@),
            string_views(p.declared@) == all_declared(facts@),
            string_views(p.used_classes@) == all_class_refs(facts@),
        decreases facts@.len() - i,
    {
        let f = &facts[i];
        let ghost start = views(findings@);
        let ghost tf = |k: int| token_finding(facts@, *f, k);
        let mut k: usize = 0;
        while k < f.style.declared_tokens.len()
            invariant
                k <= f.style.declared_tokens@.len(),
                tf == (|k: int| token_finding(facts@, *f, k)),
                views(findings@) == start + flat(k as int, tf),
                string_views(p.used_tokens@) == all_var_refs(facts@),
                string_views(p.string_refs@) == all_string_refs(facts@),
            decreases f.style.declared_tokens@.len() - k,
        {
            let t = &f.style.declared_tokens[k];
            let name = t.name.as_str();
            if !(contains_view(&p.used_tokens, name) || contains_view(&p.string_refs, name)) {
                let fd = Finding {
                    rule: RuleId::UnusedCssToken,
                    severity: Severity::Warn,
                    confidence: Confidence::High,
                    symbol: None,
                    file: copy_string(&f.path),
                    span: t.span,
                    message: cat3("Custom property '", name, "' is declared but never referenced."),
                    reason: owned("no var() reference anywhere in the repo"),
                };
                proof { lemma_views_push(findings@, fd); }
                findings.push(fd);
            }
            assert(views(findings@) == start + flat(k as int + 1, tf));
            k += 1;
        }
        let ghost mid = views(findings@);
        let ghost bf = |k: int| broken_finding(facts@, *f, k);
        let mut k: usize = 0;
        while k < f.style.var_refs.len()
            invariant
                k <= f.style.var_refs@.len(),
                bf == (|k: int| broken_finding(facts@, *f, k)),
                views(findings@) == mid + flat(k as int, bf),
                string_views(p.declared@) == all_declared(facts@),
            decreases f.style.var_refs@.len() - k,
        {
            let r = f.style.var_refs[k].as_str();
            if !contains_view(&p.declared, r) {
                let fd = Finding {
                    rule: RuleId::BrokenCssReference,
                    severity: Severity::Warn,
                    confidence: Confidence::High,
                    symbol: None,
                    file: copy_string(&f.path),
                    span: Span::new(1, 1),
                    message: cat3("var(", r, ") references an undeclared custom property."),
                    reason: owned("no matching custom-property declaration"),
                };
                proof { lemma_views_push(findings@, fd); }
                findings.push(fd);
            }
            assert(views(findings@) == mid + flat(k as int + 1, bf));
            k += 1;
        }
        let ghost mid2 = views(findings@);
        let ghost cf = |k: int| class_finding(facts@, *f, k);
        let mut k: usize = 0;
        while k < f.style.class_selectors.len()
            invariant
                k <= f.style.class_selectors@.len(),
                cf == (|k: int| class_finding(facts@, *f, k)),
                views(findings@) == mid2 + flat(k as int, cf),
                string_views(p.used_classes@) == all_class_refs(facts@),
            decreases f.style.class_selectors@.len() - k,
        {
            let c = &f.style.class_selectors[k];
            let name = c.name.as_str();
            if !contains_view(&p.used_classes, name) {
                let fd = Finding {
                    rule: RuleId::UnusedCssClass,
                    severity: Severity::Warn,
                    confidence: Confidence::Medium,
                    symbol: None,
                    file: copy_string(&f.path),
                    span: c.span,
                    message: cat3("Class selector '.", name, "' is never used in markup."),
                    reason: owned("no className/class reference to this selector"),
                };
                proof { lemma_views_push(findings@, fd); }
                findings.push(fd);
            }
            assert(views(findings@) == mid2 + flat(k as int + 1, cf));
            k += 1;
        }
        assert(views(findings@) == flat(i as int + 1, ff));
        i += 1;
    }
    findings
}

} // verus!
