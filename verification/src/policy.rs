//! Declarative policy: `banned-import`, `banned-call`, `banned-effect` and
//! `boundary-violation`. An import edge or call site either exists or it does
//! not, so every finding is of high confidence; the policy's own rule id
//! travels in the finding's reason.

use vstd::prelude::*;
use vstd::string::*;
use crate::analysis::{Layer, PolicyConfig, PolicyKind, PolicyRule};
use crate::discover::globs::{glob_set_matches, match_globs};
use crate::facts::FileFacts;
use crate::finding::{
    flat, lemma_flat_from, lemma_views_push, views, Confidence, Finding, FindingView, RuleId, Severity,
};
use crate::ids::Span;
use crate::ir::Graph;
use crate::order::{contains_view, string_views};
use crate::text::{copy_string, owned, push_str, str_is, string_from};

verus! {

/// The import specifiers and callees that constitute an effect.
pub open spec fn effect_list(name: Seq<char>) -> Seq<Seq<char>> {
    if name == "network"@ {
        seq!["fetch"@, "axios"@, "axios.*"@, "http"@, "https"@, "http.request"@, "https.request"@,
            "node:http"@, "node:https"@, "requests"@, "requests.*"@, "urllib"@, "urllib.*"@, "httpx"@,
            "httpx.*"@, "aiohttp"@, "aiohttp.*"@]
    } else if name == "process"@ {
        seq!["child_process"@, "child_process.*"@, "node:child_process"@, "subprocess"@, "subprocess.*"@,
            "os.system"@, "os.popen"@]
    } else if name == "fs"@ {
        seq!["fs"@, "fs.*"@, "node:fs"@, "shutil"@, "shutil.*"@, "os.remove"@, "os.rmdir"@]
    } else {
        Seq::empty()
    }
}

/// The effect patterns of a list of effect names, in order.
pub open spec fn effects_of(names: Seq<Seq<char>>) -> Seq<Seq<char>>
    decreases names.len(),
{
    if names.len() == 0 { Seq::empty() } else { effects_of(names.drop_last()) + effect_list(names.last()) }
}

/// The globs a rule matches subjects against (a `banned-effect` rule's effect
/// names expanded to their patterns).
pub open spec fn rule_patterns(r: PolicyRule) -> Seq<Seq<char>> {
    if r.kind == PolicyKind::BannedEffect { effects_of(string_views(r.patterns@)) } else { string_views(r.patterns@) }
}

/// The rule is scoped to the file (no path scope means every file).
pub open spec fn rule_applies(r: PolicyRule, path: Seq<char>) -> bool {
    r.paths@.len() == 0 || glob_set_matches(string_views(r.paths@), path)
}

/// The finding of a rule on something it forbids.
pub open spec fn policy_finding(r: PolicyRule, id: RuleId, path: Seq<char>, span: Span, what: Seq<char>) -> FindingView {
    FindingView {
        rule: id,
        severity: r.severity,
        confidence: Confidence::High,
        symbol: None,
        file: path,
        span,
        message: "Policy '"@ + r.id@ + "' forbids this "@ + what
            + (match r.hint { Some(h) => " — "@ + h@, None => Seq::empty() }) + "."@,
        reason: "matched policy rule '"@ + r.id@ + "'"@,
    }
}

/// Findings on the banned imports of a file, in order.
pub open spec fn import_hits(r: PolicyRule, id: RuleId, f: FileFacts, n: int) -> Seq<FindingView>
    decreases n,
{
    if n <= 0 || n > f.imports@.len() {
        Seq::empty()
    } else {
        let imp = f.imports@[n - 1];
        import_hits(r, id, f, n - 1) + if glob_set_matches(rule_patterns(r), imp.specifier@) {
            seq![policy_finding(r, id, f.path@, imp.span, "import of '"@ + imp.specifier@ + "'"@)]
        } else {
            Seq::empty()
        }
    }
}

/// Findings on the banned calls of a file, in order.
pub open spec fn call_hits(r: PolicyRule, id: RuleId, f: FileFacts, n: int) -> Seq<FindingView>
    decreases n,
{
    if n <= 0 || n > f.calls@.len() {
        Seq::empty()
    } else {
        let c = f.calls@[n - 1];
        call_hits(r, id, f, n - 1) + if glob_set_matches(rule_patterns(r), c.callee@) {
            seq![policy_finding(r, id, f.path@, c.span, "call to '"@ + c.callee@ + "'"@)]
        } else {
            Seq::empty()
        }
    }
}

/// The findings of one rule on one file.
pub open spec fn rule_hits(r: PolicyRule, f: FileFacts) -> Seq<FindingView> {
    if !rule_applies(r, f.path@) {
        Seq::empty()
    } else {
        match r.kind {
            PolicyKind::BannedImport => import_hits(r, RuleId::BannedImport, f, f.imports@.len() as int),
            PolicyKind::BannedCall => call_hits(r, RuleId::BannedCall, f, f.calls@.len() as int),
            PolicyKind::BannedEffect => import_hits(r, RuleId::BannedEffect, f, f.imports@.len() as int)
                + call_hits(r, RuleId::BannedEffect, f, f.calls@.len() as int),
        }
    }
}

/// The rule findings, file by file, rule by rule.
pub open spec fn rules_out(facts: Seq<FileFacts>, rules: Seq<PolicyRule>) -> Seq<FindingView> {
    flat(facts.len() as int, |i: int| flat(rules.len() as int, |k: int| rule_hits(rules[k], facts[i])))
}

/// Index of the first layer from `i` on whose globs match `path`, or -1.
pub open spec fn layer_index(layers: Seq<Layer>, path: Seq<char>, i: int) -> int
    decreases layers.len() - i,
{
    if i < 0 || i >= layers.len() {
        -1
    } else if glob_set_matches(string_views(layers[i].paths@), path) {
        i
    } else {
        layer_index(layers, path, i + 1)
    }
}

/// The finding of one forbidden cross-layer import.
pub open spec fn boundary_finding(from: Layer, to: Layer, from_path: Seq<char>, to_path: Seq<char>) -> FindingView {
    FindingView {
        rule: RuleId::BoundaryViolation,
        severity: Severity::Error,
        confidence: Confidence::High,
        symbol: None,
        file: from_path,
        span: Span { start_line: 1, end_line: 1 },
        message: "Layer '"@ + from.name@ + "' must not import layer '"@ + to.name@ + "' ("@ + from_path + " → "@
            + to_path + ")."@,
        reason: "'"@ + to.name@ + "' is not in the allow-list of layer '"@ + from.name@ + "'"@,
    }
}

/// The boundary finding of the `k`-th import of file `i`, if it crosses into
/// a layer that is neither the file's own nor allowed by it.
pub open spec fn edge_violation(g: Graph, layers: Seq<Layer>, i: int, k: int) -> Seq<FindingView> {
    let from = g.files@[i];
    let fl = layer_index(layers, from.path@, 0);
    let to = g.files@[g.imports@[from.id as int]@[k] as int];
    let tl = layer_index(layers, to.path@, 0);
    if fl < 0 || tl < 0 || layers[tl].name@ == layers[fl].name@ || string_views(layers[fl].allow@).contains(layers[tl].name@) {
        Seq::empty()
    } else {
        seq![boundary_finding(layers[fl], layers[tl], from.path@, to.path@)]
    }
}

/// Every forbidden cross-layer import, file by file, import by import.
pub open spec fn boundary_out(g: Graph, layers: Seq<Layer>) -> Seq<FindingView> {
    if layers.len() == 0 {
        Seq::empty()
    } else {
        flat(g.files@.len() as int, |i: int| flat(g.imports@[g.files@[i].id as int]@.len() as int, |k: int| edge_violation(g, layers, i, k)))
    }
}

/// What the pass reports: nothing for an empty policy, else the rule findings
/// then the boundary findings.
pub open spec fn policy_out(g: Graph, facts: Seq<FileFacts>, p: PolicyConfig) -> Seq<FindingView> {
    if p.rules@.len() == 0 && p.layers@.len() == 0 {
        Seq::empty()
    } else {
        rules_out(facts, p.rules@) + boundary_out(g, p.layers@)
    }
}

/// The patterns of an effect (none for an unknown effect).
fn effect_patterns(name: &str) -> (r: Vec<String>)
    ensures
        string_views(r@) == effect_list(name@),
{
    let mut out: Vec<String> = Vec::new();
    if str_is(name, "network") {
        out.push(owned("fetch"));
        out.push(owned("axios"));
        out.push(owned("axios.*"));
        out.push(owned("http"));
        out.push(owned("https"));
        out.push(owned("http.request"));
        out.push(owned("https.request"));
        out.push(owned("node:http"));
        out.push(owned("node:https"));
        out.push(owned("requests"));
        out.push(owned("requests.*"));
        out.push(owned("urllib"));
        out.push(owned("urllib.*"));
        out.push(owned("httpx"));
        out.push(owned("httpx.*"));
        out.push(owned("aiohttp"));
        out.push(owned("aiohttp.*"));
        assert(string_views(out@) =~= seq!["fetch"@, "axios"@, "axios.*"@, "http"@, "https"@, "http.request"@, "https.request"@, "node:http"@, "node:https"@, "requests"@, "requests.*"@, "urllib"@, "urllib.*"@, "httpx"@, "httpx.*"@, "aiohttp"@, "aiohttp.*"@]);
    } else if str_is(name, "process") {
        out.push(owned("child_process"));
        out.push(owned("child_process.*"));
        out.push(owned("node:child_process"));
        out.push(owned("subprocess"));
        out.push(owned("subprocess.*"));
        out.push(owned("os.system"));
        out.push(owned("os.popen"));
        assert(string_views(out@) =~= seq!["child_process"@, "child_process.*"@, "node:child_process"@, "subprocess"@, "subprocess.*"@, "os.system"@, "os.popen"@]);
    } else if str_is(name, "fs") {
        out.push(owned("fs"));
        out.push(owned("fs.*"));
        out.push(owned("node:fs"));
        out.push(owned("shutil"));
        out.push(owned("shutil.*"));
        out.push(owned("os.remove"));
        out.push(owned("os.rmdir"));
        assert(string_views(out@) =~= seq!["fs"@, "fs.*"@, "node:fs"@, "shutil"@, "shutil.*"@, "os.remove"@, "os.rmdir"@]);
    } else {
        assert(string_views(out@) =~= Seq::<Seq<char>>::empty());
    }
    out
}

fn append_all(out: &mut Vec<String>, src: &Vec<String>)
    ensures
        string_views(final(out)@) == string_views(old(out)@) + string_views(src@),
{
    let ghost base = string_views(out@);
    let mut k: usize = 0;
    while k < src.len()
        invariant
            k <= src@.len(),
            base == string_views(old(out)@),
            string_views(out@) == base + string_views(src@).take(k as int),
        decreases src@.len() - k,
    {
        let ghost before = out@;
        out.push(copy_string(&src[k]));
        assert(string_views(out@) =~= string_views(before).push(src@[k as int]@));
        assert(string_views(src@).take(k as int + 1) =~= string_views(src@).take(k as int).push(src@[k as int]@));
        k += 1;
    }
    assert(string_views(src@).take(src@.len() as int) =~= string_views(src@));
}

/// The globs a rule matches subjects against.
fn compiled_patterns(rule: &PolicyRule) -> (r: Vec<String>)
    ensures
        string_views(r@) == rule_patterns(*rule),
{
    let mut out: Vec<String> = Vec::new();
    if rule.kind == PolicyKind::BannedEffect {
        let ghost names = string_views(rule.patterns@);
        let mut k: usize = 0;
        while k < rule.patterns.len()
            invariant
                k <= rule.patterns@.len(),
                names == string_views(rule.patterns@),
                string_views(out@) == effects_of(names.take(k as int)),
            decreases rule.patterns@.len() - k,
        {
            proof {
                assert(names.take(k as int + 1).drop_last() =~= names.take(k as int));
                assert(names.take(k as int + 1).last() == rule.patterns@[k as int]@);
            }
            let e = effect_patterns(rule.patterns[k].as_str());
            append_all(&mut out, &e);
            k += 1;
        }
        assert(names.take(names.len() as int) =~= names);
    } else {
        append_all(&mut out, &rule.patterns);
        assert(string_views(out@) =~= string_views(rule.patterns@));
    }
    out
}

/// Does one of the globs match `path`?
fn matches_one(patterns: &Vec<String>, path: &str) -> (r: bool)
    ensures
        r == glob_set_matches(string_views(patterns@), path@),
{
    let mut v: Vec<String> = Vec::new();
    v.push(owned(path));
    let m = match_globs(patterns, &v);
    assert(v@[0]@ == path@);
    m[0]
}

fn policy_finding_of(rule: &PolicyRule, id: RuleId, path: &String, span: Span, what: &Vec<char>) -> (r: Finding)
    ensures
        r@ == policy_finding(*rule, id, path@, span, what@),
{
    let mut m: Vec<char> = Vec::new();
    push_str(&mut m, "Policy '");
    push_str(&mut m, rule.id.as_str());
    push_str(&mut m, "' forbids this ");
    let mut k: usize = 0;
    let ghost base = m@;
    while k < what.len()
        invariant
            k <= what@.len(),
            m@ == base + what@.take(k as int),
        decreases what@.len() - k,
    {
        m.push(what[k]);
        assert(what@.take(k as int + 1) =~= what@.take(k as int).push(what@[k as int]));
        k += 1;
    }
    assert(what@.take(what@.len() as int) =~= what@);
    match &rule.hint {
        Some(h) => {
            push_str(&mut m, " — ");
            push_str(&mut m, h.as_str());
        },
        None => {},
    }
    push_str(&mut m, ".");
    let mut rs: Vec<char> = Vec::new();
    push_str(&mut rs, "matched policy rule '");
    push_str(&mut rs, rule.id.as_str());
    push_str(&mut rs, "'");
    let r = Finding {
        rule: id,
        severity: rule.severity,
        confidence: Confidence::High,
        symbol: None,
        file: copy_string(path),
        span,
        message: string_from(m.as_slice()),
        reason: string_from(rs.as_slice()),
    };
    proof {
        let h = match &rule.hint { Some(h) => " — "@ + h@, None => Seq::<char>::empty() };
        assert(r.message@ =~= "Policy '"@ + rule.id@ + "' forbids this "@ + what@ + h + "."@);
    }
    r
}

fn quoted_what(prefix: &str, subject: &str) -> (r: Vec<char>)
    ensures
        r@ == prefix@ + subject@ + "'"@,
{
    let mut w: Vec<char> = Vec::new();
    push_str(&mut w, prefix);
    push_str(&mut w, subject);
    push_str(&mut w, "'");
    w
}

fn import_findings(rule: &PolicyRule, pats: &Vec<String>, id: RuleId, f: &FileFacts, out: &mut Vec<Finding>)
    requires
        string_views(pats@) == rule_patterns(*rule),
    ensures
        views(final(out)@) == views(old(out)@) + import_hits(*rule, id, *f, f.imports@.len() as int),
{
    let mut specs: Vec<String> = Vec::new();
    let mut k: usize = 0;
    while k < f.imports.len()
        invariant
            k <= f.imports@.len(),
            specs@.len() == k,
            forall|j: int| 0 <= j < k ==> #[trigger] specs@[j]@ == f.imports@[j].specifier@,
        decreases f.imports@.len() - k,
    {
        specs.push(copy_string(&f.imports[k].specifier));
        k += 1;
    }
    let hits = match_globs(pats, &specs);
    let ghost base = views(out@);
    let mut k: usize = 0;
    while k < f.imports.len()
        invariant
            k <= f.imports@.len(),
            specs@.len() == f.imports@.len(),
            hits@.len() == specs@.len(),
            string_views(pats@) == rule_patterns(*rule),
            forall|j: int| 0 <= j < f.imports@.len() ==> #[trigger] specs@[j]@ == f.imports@[j].specifier@,
            forall|j: int| 0 <= j < specs@.len() ==> hits@[j] == glob_set_matches(string_views(pats@), #[trigger] specs@[j]@),
            base == views(old(out)@),
            views(out@) == base + import_hits(*rule, id, *f, k as int),
        decreases f.imports@.len() - k,
    {
        let imp = &f.imports[k];
        assert(specs@[k as int]@ == imp.specifier@);
        if hits[k] {
            let what = quoted_what("import of '", imp.specifier.as_str());
            let fd = policy_finding_of(rule, id, &f.path, imp.span, &what);
            proof { lemma_views_push(out@, fd); }
            out.push(fd);
        }
        k += 1;
    }
}

fn call_findings(rule: &PolicyRule, pats: &Vec<String>, id: RuleId, f: &FileFacts, out: &mut Vec<Finding>)
    requires
        string_views(pats@) == rule_patterns(*rule),
    ensures
        views(final(out)@) == views(old(out)@) + call_hits(*rule, id, *f, f.calls@.len() as int),
{
    let mut subs: Vec<String> = Vec::new();
    let mut k: usize = 0;
    while k < f.calls.len()
        invariant
            k <= f.calls@.len(),
            subs@.len() == k,
            forall|j: int| 0 <= j < k ==> #[trigger] subs@[j]@ == f.calls@[j].callee@,
        decreases f.calls@.len() - k,
    {
        subs.push(copy_string(&f.calls[k].callee));
        k += 1;
    }
    let hits = match_globs(pats, &subs);
    let ghost base = views(out@);
    let mut k: usize = 0;
    while k < f.calls.len()
        invariant
            k <= f.calls@.len(),
            subs@.len() == f.calls@.len(),
            hits@.len() == subs@.len(),
            string_views(pats@) == rule_patterns(*rule),
            forall|j: int| 0 <= j < f.calls@.len() ==> #[trigger] subs@[j]@ == f.calls@[j].callee@,
            forall|j: int| 0 <= j < subs@.len() ==> hits@[j] == glob_set_matches(string_views(pats@), #[trigger] subs@[j]@),
            base == views(old(out)@),
            views(out@) == base + call_hits(*rule, id, *f, k as int),
        decreases f.calls@.len() - k,
    {
        let c = &f.calls[k];
        assert(subs@[k as int]@ == c.callee@);
        if hits[k] {
            let what = quoted_what("call to '", c.callee.as_str());
            let fd = policy_finding_of(rule, id, &f.path, c.span, &what);
            proof { lemma_views_push(out@, fd); }
            out.push(fd);
        }
        k += 1;
    }
}

fn rule_file_findings(rule: &PolicyRule, pats: &Vec<String>, f: &FileFacts, out: &mut Vec<Finding>)
    requires
        string_views(pats@) == rule_patterns(*rule),
    ensures
        views(final(out)@) == views(old(out)@) + rule_hits(*rule, *f),
{
    let applies = rule.paths.len() == 0 || matches_one(&rule.paths, f.path.as_str());
    if !applies {
        assert(views(out@) =~= views(out@) + Seq::<FindingView>::empty());
        return;
    }
    match rule.kind {
        PolicyKind::BannedImport => import_findings(rule, pats, RuleId::BannedImport, f, out),
        PolicyKind::BannedCall => call_findings(rule, pats, RuleId::BannedCall, f, out),
        PolicyKind::BannedEffect => {
            import_findings(rule, pats, RuleId::BannedEffect, f, out);
            call_findings(rule, pats, RuleId::BannedEffect, f, out);
        },
    }
}

fn boundary_finding_of(from: &Layer, to: &Layer, from_path: &String, to_path: &String) -> (r: Finding)
    ensures
        r@ == boundary_finding(*from, *to, from_path@, to_path@),
{
    let mut m: Vec<char> = Vec::new();
    push_str(&mut m, "Layer '");
    push_str(&mut m, from.name.as_str());
    push_str(&mut m, "' must not import layer '");
    push_str(&mut m, to.name.as_str());
    push_str(&mut m, "' (");
    push_str(&mut m, from_path.as_str());
    push_str(&mut m, " → ");
    push_str(&mut m, to_path.as_str());
    push_str(&mut m, ").");
    let mut rs: Vec<char> = Vec::new();
    push_str(&mut rs, "'");
    push_str(&mut rs, to.name.as_str());
    push_str(&mut rs, "' is not in the allow-list of layer '");
    push_str(&mut rs, from.name.as_str());
    push_str(&mut rs, "'");
    Finding {
        rule: RuleId::BoundaryViolation,
        severity: Severity::Error,
        confidence: Confidence::High,
        symbol: None,
        file: copy_string(from_path),
        span: Span::new(1, 1),
        message: string_from(m.as_slice()),
        reason: string_from(rs.as_slice()),
    }
}

/// For each layer, which files' paths its globs match.
fn layer_hits(graph: &Graph, layers: &Vec<Layer>) -> (r: Vec<Vec<bool>>)
    ensures
        r@.len() == layers@.len(),
        forall|l: int| 0 <= l < layers@.len() ==> (#[trigger] r@[l])@.len() == graph.files@.len(),
        forall|l: int, i: int| 0 <= l < layers@.len() && 0 <= i < graph.files@.len()
            ==> #[trigger] r@[l]@[i] == glob_set_matches(string_views(layers@[l].paths@), graph.files@[i].path@),
{
    let mut paths: Vec<String> = Vec::new();
    let mut i: usize = 0;
    while i < graph.files.len()
        invariant
            i <= graph.files@.len(),
            paths@.len() == i,
            forall|j: int| 0 <= j < i ==> #[trigger] paths@[j]@ == graph.files@[j].path@,
        decreases graph.files@.len() - i,
    {
        paths.push(copy_string(&graph.files[i].path));
        i += 1;
    }
    let mut out: Vec<Vec<bool>> = Vec::new();
    let mut l: usize = 0;
    while l < layers.len()
        invariant
            l <= layers@.len(),
            out@.len() == l,
            paths@.len() == graph.files@.len(),
            forall|j: int| 0 <= j < graph.files@.len() ==> #[trigger] paths@[j]@ == graph.files@[j].path@,
            forall|m: int| 0 <= m < l ==> (#[trigger] out@[m])@.len() == graph.files@.len(),
            forall|m: int, j: int| 0 <= m < l && 0 <= j < graph.files@.len()
                ==> #[trigger] out@[m]@[j] == glob_set_matches(string_views(layers@[m].paths@), graph.files@[j].path@),
        decreases layers@.len() - l,
    {
        let h = match_globs(&layers[l].paths, &paths);
        proof {
            assert forall|j: int| 0 <= j < graph.files@.len() implies h@[j] == glob_set_matches(string_views(layers@[l as int].paths@), graph.files@[j].path@) by {
                assert(paths@[j]@ == graph.files@[j].path@);
            }
        }
        out.push(h);
        l += 1;
    }
    out
}

/// The first layer whose globs match file `i`.
fn layer_of(hits: &Vec<Vec<bool>>, i: usize, graph: &Graph, layers: &Vec<Layer>) -> (r: Option<usize>)
    requires
        i < graph.files@.len(),
        hits@.len() == layers@.len(),
        forall|l: int| 0 <= l < layers@.len() ==> (#[trigger] hits@[l])@.len() == graph.files@.len(),
        forall|l: int, j: int| 0 <= l < layers@.len() && 0 <= j < graph.files@.len()
            ==> #[trigger] hits@[l]@[j] == glob_set_matches(string_views(layers@[l].paths@), graph.files@[j].path@),
    ensures
        match r {
            Some(l) => layer_index(layers@, graph.files@[i as int].path@, 0) == l && l < layers@.len(),
            None => layer_index(layers@, graph.files@[i as int].path@, 0) == -1,
        },
{
    let ghost p = graph.files@[i as int].path@;
    let mut l: usize = 0;
    while l < hits.len()
        invariant
            l <= hits@.len(),
            hits@.len() == layers@.len(),
            i < graph.files@.len(),
            p == graph.files@[i as int].path@,
            forall|m: int| 0 <= m < layers@.len() ==> (#[trigger] hits@[m])@.len() == graph.files@.len(),
            forall|m: int, j: int| 0 <= m < layers@.len() && 0 <= j < graph.files@.len()
                ==> #[trigger] hits@[m]@[j] == glob_set_matches(string_views(layers@[m].paths@), graph.files@[j].path@),
            layer_index(layers@, p, 0) == layer_index(layers@, p, l as int),
        decreases hits@.len() - l,
    {
        assert(hits@[l as int]@[i as int] == glob_set_matches(string_views(layers@[l as int].paths@), p));
        if hits[l][i] {
            return Some(l);
        }
        l += 1;
    }
    None
}

/// Forbidden cross-layer imports: a file may import its own layer and the
/// layers its layer allows; a file of no layer, or an import of one, is free.
fn boundary_findings(graph: &Graph, layers: &Vec<Layer>) -> (r: Vec<Finding>)
    requires
        graph.wf(),
    ensures
        views(r@) == boundary_out(*graph, layers@),
{
    if layers.len() == 0 {
        return Vec::new();
    }
    let hits = layer_hits(graph, layers);
    let ghost ff = |i: int| flat(graph.imports@[graph.files@[i].id as int]@.len() as int, |k: int| edge_violation(*graph, layers@, i, k));
    let mut out: Vec<Finding> = Vec::new();
    let mut i: usize = 0;
    while i < graph.files.len()
        invariant
            graph.wf(),
            i <= graph.files@.len(),
            layers@.len() > 0,
            hits@.len() == layers@.len(),
            forall|l: int| 0 <= l < layers@.len() ==> (#[trigger] hits@[l])@.len() == graph.files@.len(),
            forall|l: int, j: int| 0 <= l < layers@.len() && 0 <= j < graph.files@.len()
                ==> #[trigger] hits@[l]@[j] == glob_set_matches(string_views(layers@[l].paths@), graph.files@[j].path@),
            ff == (|i: int| flat(graph.imports@[graph.files@[i].id as int]@.len() as int, |k: int| edge_violation(*graph, layers@, i, k))),
            views(out@) == flat(i as int, ff),
        decreases graph.files@.len() - i,
    {
        let from = &graph.files[i];
        assert(from.id == i);
        let ghost start = views(out@);
        let ghost ef = |k: int| edge_violation(*graph, layers@, i as int, k);
        match layer_of(&hits, i, graph, layers) {
            None => {
                proof {
                    assert forall|k: int| 0 <= k < graph.imports@[i as int]@.len() implies #[trigger] ef(k) == Seq::<FindingView>::empty() by {}
                    lemma_flat_empty(graph.imports@[i as int]@.len() as int, ef);
                }
            },
            Some(fl) => {
                let targets = &graph.imports[i];
                let mut k: usize = 0;
                while k < targets.len()
                    invariant
                        graph.wf(),
                        i < graph.files@.len(),
                        from.id == i,
                        *from == graph.files@[i as int],
                        *targets == graph.imports@[i as int],
                        fl < layers@.len(),
                        layer_index(layers@, from.path@, 0) == fl,
                        k <= targets@.len(),
                        hits@.len() == layers@.len(),
                        forall|l: int| 0 <= l < layers@.len() ==> (#[trigger] hits@[l])@.len() == graph.files@.len(),
                        forall|l: int, j: int| 0 <= l < layers@.len() && 0 <= j < graph.files@.len()
                            ==> #[trigger] hits@[l]@[j] == glob_set_matches(string_views(layers@[l].paths@), graph.files@[j].path@),
                        ef == (|k: int| edge_violation(*graph, layers@, i as int, k)),
                        views(out@) == start + flat(k as int, ef),
                    decreases targets@.len() - k,
                {
                    let to_id = targets[k];
                    assert(to_id < graph.files@.len());
                    let to = &graph.files[to_id];
                    match layer_of(&hits, to_id, graph, layers) {
                        None => {},
                        Some(tl) => {
                            let fname = &layers[fl].name;
                            let tname = &layers[tl].name;
                            if !(str_is(tname.as_str(), fname.as_str()) || contains_view(&layers[fl].allow, tname.as_str())) {
                                let fd = boundary_finding_of(&layers[fl], &layers[tl], &from.path, &to.path);
                                proof { lemma_views_push(out@, fd); }
                                out.push(fd);
                            }
                        },
                    }
                    assert(views(out@) == start + flat(k as int + 1, ef));
                    k += 1;
                }
            },
        }
        assert(views(out@) == flat(i as int + 1, ff));
        i += 1;
    }
    out
}

/// Every hit of a rule on a file is a `High` finding on that file at the
/// rule's severity, under the rule id given.
proof fn lemma_hits_shape(r: PolicyRule, id: RuleId, f: FileFacts, n: int)
    ensures
        forall|k: int| 0 <= k < import_hits(r, id, f, n).len() ==> {
            let v = #[trigger] import_hits(r, id, f, n)[k];
            &&& v.rule == id
            &&& v.confidence == Confidence::High
            &&& v.severity == r.severity
            &&& v.file == f.path@
        },
        forall|k: int| 0 <= k < call_hits(r, id, f, n).len() ==> {
            let v = #[trigger] call_hits(r, id, f, n)[k];
            &&& v.rule == id
            &&& v.confidence == Confidence::High
            &&& v.severity == r.severity
            &&& v.file == f.path@
        },
    decreases n,
{
    if n > 0 {
        lemma_hits_shape(r, id, f, n - 1);
    }
}

/// Policy findings are all `High`. A banned import, call or effect is
/// reported only on a file inside the scope of a rule of that kind, at that
/// rule's severity; a boundary violation is an error.
pub proof fn law_policy_findings_in_scope(g: Graph, facts: Seq<FileFacts>, p: PolicyConfig)
    ensures
        forall|k: int| 0 <= k < policy_out(g, facts, p).len() ==> {
            let v = #[trigger] policy_out(g, facts, p)[k];
            &&& v.confidence == Confidence::High
            &&& (v.rule == RuleId::BoundaryViolation ==> v.severity == Severity::Error)
            &&& (v.rule != RuleId::BoundaryViolation ==> exists|i: int, j: int| {
                &&& 0 <= i < facts.len()
                &&& 0 <= j < p.rules@.len()
                &&& v.file == facts[i].path@
                &&& rule_applies(#[trigger] p.rules@[j], #[trigger] facts[i].path@)
                &&& v.severity == p.rules@[j].severity
                &&& v.rule == match p.rules@[j].kind {
                    PolicyKind::BannedImport => RuleId::BannedImport,
                    PolicyKind::BannedCall => RuleId::BannedCall,
                    PolicyKind::BannedEffect => RuleId::BannedEffect,
                }
            })
        },
{
    if !(p.rules@.len() == 0 && p.layers@.len() == 0) {
        let ro = rules_out(facts, p.rules@);
        let bo = boundary_out(g, p.layers@);
        assert forall|k: int| 0 <= k < policy_out(g, facts, p).len() implies {
            let v = #[trigger] policy_out(g, facts, p)[k];
            &&& v.confidence == Confidence::High
            &&& (v.rule == RuleId::BoundaryViolation ==> v.severity == Severity::Error)
            &&& (v.rule != RuleId::BoundaryViolation ==> exists|i: int, j: int| {
                &&& 0 <= i < facts.len()
                &&& 0 <= j < p.rules@.len()
                &&& v.file == facts[i].path@
                &&& rule_applies(#[trigger] p.rules@[j], #[trigger] facts[i].path@)
                &&& v.severity == p.rules@[j].severity
                &&& v.rule == match p.rules@[j].kind {
                    PolicyKind::BannedImport => RuleId::BannedImport,
                    PolicyKind::BannedCall => RuleId::BannedCall,
                    PolicyKind::BannedEffect => RuleId::BannedEffect,
                }
            })
        } by {
            let v = policy_out(g, facts, p)[k];
            if k < ro.len() {
                let fi = |i: int| flat(p.rules@.len() as int, |j: int| rule_hits(p.rules@[j], facts[i]));
                assert(v == ro[k]);
                let (i, k1) = lemma_flat_from(facts.len() as int, fi, k);
                let fj = |j: int| rule_hits(p.rules@[j], facts[i]);
                assert(fi(i) == flat(p.rules@.len() as int, fj));
                let (j, k2) = lemma_flat_from(p.rules@.len() as int, fj, k1);
                let r = p.rules@[j];
                let f = facts[i];
                assert(v == fj(j)[k2]);
                assert(rule_applies(r, f.path@));
                match r.kind {
                    PolicyKind::BannedImport => {
                        lemma_hits_shape(r, RuleId::BannedImport, f, f.imports@.len() as int);
                    },
                    PolicyKind::BannedCall => {
                        lemma_hits_shape(r, RuleId::BannedCall, f, f.calls@.len() as int);
                    },
                    PolicyKind::BannedEffect => {
                        let a = import_hits(r, RuleId::BannedEffect, f, f.imports@.len() as int);
                        lemma_hits_shape(r, RuleId::BannedEffect, f, f.imports@.len() as int);
                        lemma_hits_shape(r, RuleId::BannedEffect, f, f.calls@.len() as int);
                        if k2 < a.len() {
                            assert(v == a[k2]);
                        } else {
                            assert(v == call_hits(r, RuleId::BannedEffect, f, f.calls@.len() as int)[k2 - a.len()]);
                        }
                    },
                }
            } else {
                assert(v == bo[k - ro.len()]);
                assert(p.layers@.len() > 0);
                let ls = p.layers@;
                let fi = |i: int| flat(g.imports@[g.files@[i].id as int]@.len() as int, |e: int| edge_violation(g, ls, i, e));
                let (i, k1) = lemma_flat_from(g.files@.len() as int, fi, k - ro.len());
                let fe = |e: int| edge_violation(g, ls, i, e);
                assert(fi(i) == flat(g.imports@[g.files@[i].id as int]@.len() as int, fe));
                let (e, k2) = lemma_flat_from(g.imports@[g.files@[i].id as int]@.len() as int, fe, k1);
                assert(fe(e).len() > 0);
                assert(v == fe(e)[k2]);
            }
        }
    }
}

proof fn lemma_flat_empty(n: int, f: spec_fn(int) -> Seq<FindingView>)
    requires
        forall|k: int| 0 <= k < n ==> #[trigger] f(k) == Seq::<FindingView>::empty(),
    ensures
        flat(n, f) == Seq::<FindingView>::empty(),
    decreases n,
{
    if n > 0 {
        lemma_flat_empty(n - 1, f);
        assert(f(n - 1) == Seq::<FindingView>::empty());
        assert(flat(n - 1, f) + f(n - 1) =~= Seq::<FindingView>::empty());
    }
}

/// The policy findings: banned imports, calls and effects, rule by rule for
/// each file, then the boundary violations.
pub fn run(graph: &Graph, facts: &[FileFacts], policy: &PolicyConfig) -> (r: Vec<Finding>)
    requires
        graph.wf(),
    ensures
        views(r@) == policy_out(*graph, facts@, *policy),
{
    if policy.is_empty() {
        return Vec::new();
    }
    let mut pats: Vec<Vec<String>> = Vec::new();
    let mut k: usize = 0;
    while k < policy.rules.len()
        invariant
            k <= policy.rules@.len(),
            pats@.len() == k,
            forall|j: int| 0 <= j < k ==> string_views((#[trigger] pats@[j])@) == rule_patterns(policy.rules@[j]),
        decreases policy.rules@.len() - k,
    {
        pats.push(compiled_patterns(&policy.rules[k]));
        k += 1;
    }
    let ghost outer = |i: int| flat(policy.rules@.len() as int, |k: int| rule_hits(policy.rules@[k], facts@[i]));
    let mut out: Vec<Finding> = Vec::new();
    let mut i: usize = 0;
    while i < facts.len()
        invariant
            i <= facts@.len(),
            pats@.len() == policy.rules@.len(),
            forall|j: int| 0 <= j < policy.rules@.len() ==> string_views((#[trigger] pats@[j])@) == rule_patterns(policy.rules@[j]),
            outer == (|i: int| flat(policy.rules@.len() as int, |k: int| rule_hits(policy.rules@[k], facts@[i]))),
            views(out@) == flat(i as int, outer),
        decreases facts@.len() - i,
    {
        let f = &facts[i];
        let ghost start = views(out@);
        let ghost inner = |k: int| rule_hits(policy.rules@[k], facts@[i as int]);
        let mut k: usize = 0;
        while k < policy.rules.len()
            invariant
                k <= policy.rules@.len(),
                i < facts@.len(),
                *f == facts@[i as int],
                pats@.len() == policy.rules@.len(),
                forall|j: int| 0 <= j < policy.rules@.len() ==> string_views((#[trigger] pats@[j])@) == rule_patterns(policy.rules@[j]),
                inner == (|k: int| rule_hits(policy.rules@[k], facts@[i as int])),
                views(out@) == start + flat(k as int, inner),
            decreases policy.rules@.len() - k,
        {
            rule_file_findings(&policy.rules[k], &pats[k], f, &mut out);
            assert(views(out@) == start + flat(k as int + 1, inner));
            k += 1;
        }
        assert(views(out@) == flat(i as int + 1, outer));
        i += 1;
    }
    let b = boundary_findings(graph, &policy.layers);
    proof { crate::finding::lemma_views_append(out@, b@); }
    let mut b = b;
    out.append(&mut b);
    out
}

} // verus!

verus! {

proof fn lemma_effects_of_has(names: Seq<Seq<char>>, j: int, x: Seq<char>)
    requires
        0 <= j < names.len(),
        effect_list(names[j]).contains(x),
    ensures
        effects_of(names).contains(x),
    decreases names.len(),
{
    let e = effects_of(names.drop_last());
    let l = effect_list(names.last());
    assert(effects_of(names) == e + l);
    if j == names.len() - 1 {
        let k = choose|k: int| 0 <= k < l.len() && l[k] == x;
        assert((e + l)[e.len() + k] == x);
    } else {
        lemma_effects_of_has(names.drop_last(), j, x);
        let k = choose|k: int| 0 <= k < e.len() && e[k] == x;
        assert((e + l)[k] == x);
    }
}

proof fn lemma_effects_of_unknown(names: Seq<Seq<char>>)
    requires
        forall|j: int| 0 <= j < names.len() ==> #[trigger] names[j] != "network"@ && names[j] != "process"@ && names[j] != "fs"@,
    ensures
        effects_of(names).len() == 0,
    decreases names.len(),
{
    if names.len() > 0 {
        lemma_effects_of_unknown(names.drop_last());
        assert(names.last() == names[names.len() - 1]);
    }
}

/// A `banned-effect` rule bans every API of each effect it names: `process`
/// covers Node's `child_process` and Python's `subprocess`, `os.system` and
/// `os.popen`; `network` covers `fetch`, `axios`, `http(s)`, `requests`,
/// `urllib`, `httpx` and `aiohttp`; `fs` covers Node's `fs` and Python's
/// `shutil`, `os.remove` and `os.rmdir`. A rule that names no known effect
/// bans nothing.
pub proof fn law_effects_cover_their_apis(r: PolicyRule, j: int)
    requires
        r.kind == PolicyKind::BannedEffect,
        0 <= j < r.patterns@.len(),
    ensures
        r.patterns@[j]@ == "process"@ ==> {
            &&& rule_patterns(r).contains("child_process"@)
            &&& rule_patterns(r).contains("child_process.*"@)
            &&& rule_patterns(r).contains("node:child_process"@)
            &&& rule_patterns(r).contains("subprocess"@)
            &&& rule_patterns(r).contains("subprocess.*"@)
            &&& rule_patterns(r).contains("os.system"@)
            &&& rule_patterns(r).contains("os.popen"@)
        },
        r.patterns@[j]@ == "network"@ ==> {
            &&& rule_patterns(r).contains("fetch"@)
            &&& rule_patterns(r).contains("axios"@)
            &&& rule_patterns(r).contains("axios.*"@)
            &&& rule_patterns(r).contains("http"@)
            &&& rule_patterns(r).contains("https"@)
            &&& rule_patterns(r).contains("http.request"@)
            &&& rule_patterns(r).contains("https.request"@)
            &&& rule_patterns(r).contains("node:http"@)
            &&& rule_patterns(r).contains("node:https"@)
            &&& rule_patterns(r).contains("requests"@)
            &&& rule_patterns(r).contains("requests.*"@)
            &&& rule_patterns(r).contains("urllib"@)
            &&& rule_patterns(r).contains("urllib.*"@)
            &&& rule_patterns(r).contains("httpx"@)
            &&& rule_patterns(r).contains("httpx.*"@)
            &&& rule_patterns(r).contains("aiohttp"@)
            &&& rule_patterns(r).contains("aiohttp.*"@)
        },
        r.patterns@[j]@ == "fs"@ ==> {
            &&& rule_patterns(r).contains("fs"@)
            &&& rule_patterns(r).contains("fs.*"@)
            &&& rule_patterns(r).contains("node:fs"@)
            &&& rule_patterns(r).contains("shutil"@)
            &&& rule_patterns(r).contains("shutil.*"@)
            &&& rule_patterns(r).contains("os.remove"@)
            &&& rule_patterns(r).contains("os.rmdir"@)
        },
        (forall|i: int| 0 <= i < r.patterns@.len() ==> #[trigger] r.patterns@[i]@ != "network"@
            && r.patterns@[i]@ != "process"@ && r.patterns@[i]@ != "fs"@) ==> rule_patterns(r).len() == 0,
{
    let names = string_views(r.patterns@);
    assert(names[j] == r.patterns@[j]@);
    reveal_strlit("network");
    reveal_strlit("process");
    reveal_strlit("fs");
    assert("process"@ != "network"@ && "fs"@ != "network"@ && "fs"@ != "process"@) by {
        assert("process"@[0] != "network"@[0]);
        assert("fs"@.len() != "network"@.len());
        assert("fs"@.len() != "process"@.len());
    }
    let l = effect_list(names[j]);
    assert forall|x: Seq<char>| l.contains(x) implies #[trigger] rule_patterns(r).contains(x) by {
        lemma_effects_of_has(names, j, x);
    }
    if r.patterns@[j]@ == "process"@ {
        assert(l[0] == "child_process"@ && l[1] == "child_process.*"@ && l[2] == "node:child_process"@
            && l[3] == "subprocess"@ && l[4] == "subprocess.*"@ && l[5] == "os.system"@ && l[6] == "os.popen"@);
        assert(l.contains(l[0]) && l.contains(l[1]) && l.contains(l[2]) && l.contains(l[3]) && l.contains(l[4])
            && l.contains(l[5]) && l.contains(l[6]));
    }
    if r.patterns@[j]@ == "network"@ {
        assert(l.contains(l[0]) && l.contains(l[1]) && l.contains(l[2]) && l.contains(l[3]) && l.contains(l[4])
            && l.contains(l[5]) && l.contains(l[6]) && l.contains(l[7]) && l.contains(l[8]) && l.contains(l[9])
            && l.contains(l[10]) && l.contains(l[11]) && l.contains(l[12]) && l.contains(l[13]) && l.contains(l[14])
            && l.contains(l[15]) && l.contains(l[16]));
    }
    if r.patterns@[j]@ == "fs"@ {
        assert(l.contains(l[0]) && l.contains(l[1]) && l.contains(l[2]) && l.contains(l[3]) && l.contains(l[4])
            && l.contains(l[5]) && l.contains(l[6]));
    }
    if forall|i: int| 0 <= i < r.patterns@.len() ==> #[trigger] r.patterns@[i]@ != "network"@
        && r.patterns@[i]@ != "process"@ && r.patterns@[i]@ != "fs"@ {
        assert forall|i: int| 0 <= i < names.len() implies #[trigger] names[i] != "network"@ && names[i] != "process"@ && names[i] != "fs"@ by {
            assert(names[i] == r.patterns@[i]@);
        }
        lemma_effects_of_unknown(names);
    }
}

} // verus!
