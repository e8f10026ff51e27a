//! Building a fix plan from scan findings: which files to delete, which
//! import bindings, line ranges and dependencies to remove, in a stable order.

use vstd::prelude::*;
use crate::facts::{FileFacts, RawImport};
use crate::finding::{confidence_rank, Confidence, Finding, RuleId};
use crate::ids::Span;
use crate::order::{contains_view, seq_lt, sort_dedup, sorted_set, str_less, string_views};
use crate::scan::{find_either, find_either_from, lemma_find_either};
use crate::text::{chars_of, copy_string, str_is, string_from};

verus! {

/// How a fix runs.
#[derive(Debug, Clone, Copy)]
pub struct FixOptions {
    pub dry_run: bool,
    pub min_confidence: Confidence,
    pub include_deps: bool,
}

impl Default for FixOptions {
    /// A dry run of high-confidence fixes, dependencies left alone.
    fn default() -> (r: Self)
        ensures
            r.dry_run,
            r.min_confidence == Confidence::High,
            !r.include_deps,
    {
        FixOptions { dry_run: true, min_confidence: Confidence::High, include_deps: false }
    }
}

/// One edit of the plan.
#[derive(Debug)]
pub enum FixAction {
    DeleteFile { path: String },
    RemoveImportNames { path: String, span: Span, locals: Vec<String> },
    RemoveLines { path: String, start: u32, end: u32 },
    RemoveDependency { manifest: String, dep: String },
}

/// A fix action with its strings as character sequences.
pub enum FixActionView {
    DeleteFile { path: Seq<char> },
    RemoveImportNames { path: Seq<char>, span: Span, locals: Seq<Seq<char>> },
    RemoveLines { path: Seq<char>, start: u32, end: u32 },
    RemoveDependency { manifest: Seq<char>, dep: Seq<char> },
}

impl View for FixAction {
    type V = FixActionView;

    open spec fn view(&self) -> FixActionView {
        match self {
            FixAction::DeleteFile { path } => FixActionView::DeleteFile { path: path@ },
            FixAction::RemoveImportNames { path, span, locals } =>
                FixActionView::RemoveImportNames { path: path@, span: *span, locals: string_views(locals@) },
            FixAction::RemoveLines { path, start, end } =>
                FixActionView::RemoveLines { path: path@, start: *start, end: *end },
            FixAction::RemoveDependency { manifest, dep } =>
                FixActionView::RemoveDependency { manifest: manifest@, dep: dep@ },
        }
    }
}

pub open spec fn action_views(v: Seq<FixAction>) -> Seq<FixActionView> {
    v.map_values(|a: FixAction| a@)
}

/// The ordered edits, and how many findings could not be turned into one.
#[derive(Debug)]
pub struct FixPlan {
    pub actions: Vec<FixAction>,
    pub skipped: usize,
}

/// The finding is confident enough and of a kind that can be fixed.
pub open spec fn fixable(f: Finding, opts: FixOptions) -> bool {
    confidence_rank(f.confidence) >= confidence_rank(opts.min_confidence) && match f.rule {
        RuleId::UnusedFile | RuleId::UnusedImport | RuleId::UnusedExport | RuleId::UnusedType => true,
        RuleId::UnusedDependency => opts.include_deps && confidence_rank(f.confidence) >= 1,
        _ => false,
    }
}

/// The text between the first two single quotes.
pub open spec fn quoted(m: Seq<char>) -> Option<Seq<char>> {
    let i = find_either(m, '\'', '\'', 0);
    if i >= m.len() {
        None
    } else {
        let j = find_either(m, '\'', '\'', i + 1);
        if j >= m.len() { None } else { Some(m.subrange(i + 1, j)) }
    }
}

/// Index of the last facts record among the first `n` with path `path`, or -1.
pub open spec fn facts_for(facts: Seq<FileFacts>, path: Seq<char>, n: int) -> int
    decreases n,
{
    if n <= 0 {
        -1
    } else if facts[n - 1].path@ == path {
        n - 1
    } else {
        facts_for(facts, path, n - 1)
    }
}

pub open spec fn overlaps(a: Span, b: Span) -> bool {
    a.start_line <= b.end_line && b.start_line <= a.end_line
}

pub open spec fn binds_local(imp: RawImport, local: Seq<char>) -> bool {
    exists|k: int| 0 <= k < imp.names@.len() && #[trigger] imp.names@[k].local@ == local
}

/// Index of the first import from `i` on that overlaps `span` and binds
/// `local`, or -1.
pub open spec fn import_for(imports: Seq<RawImport>, span: Span, local: Seq<char>, i: int) -> int
    decreases imports.len() - i,
{
    if i < 0 || i >= imports.len() {
        -1
    } else if overlaps(imports[i].span, span) && binds_local(imports[i], local) {
        i
    } else {
        import_for(imports, span, local, i + 1)
    }
}

/// The bindings to drop from one import statement.
pub struct ImportGroup {
    pub path: Seq<char>,
    pub span: Span,
    pub locals: Seq<Seq<char>>,
}

/// Index of the group for `path` and `span`, or -1.
pub open spec fn group_index(g: Seq<ImportGroup>, path: Seq<char>, span: Span, i: int) -> int
    decreases g.len() - i,
{
    if i < 0 || i >= g.len() {
        -1
    } else if g[i].path == path && g[i].span == span {
        i
    } else {
        group_index(g, path, span, i + 1)
    }
}

/// The groups with `local` added to the one for `path` and `span`.
pub open spec fn add_local(g: Seq<ImportGroup>, path: Seq<char>, span: Span, local: Seq<char>) -> Seq<ImportGroup> {
    let k = group_index(g, path, span, 0);
    if k < 0 {
        g.push(ImportGroup { path, span, locals: seq![local] })
    } else {
        let ls = if g[k].locals.contains(local) { g[k].locals } else { g[k].locals.push(local) };
        g.update(k, ImportGroup { path, span, locals: ls })
    }
}

/// What the plan has gathered so far.
pub struct PlanAcc {
    pub skipped: nat,
    pub deletes: Seq<Seq<char>>,
    pub imports: Seq<ImportGroup>,
    pub lines: Seq<(Seq<char>, u32, u32)>,
    pub deps: Seq<(Seq<char>, Seq<char>)>,
}

pub open spec fn skip(a: PlanAcc) -> PlanAcc {
    PlanAcc { skipped: a.skipped + 1, deletes: a.deletes, imports: a.imports, lines: a.lines, deps: a.deps }
}

/// The plan after one more finding.
pub open spec fn plan_step(a: PlanAcc, f: Finding, facts: Seq<FileFacts>, opts: FixOptions) -> PlanAcc {
    if !fixable(f, opts) {
        skip(a)
    } else {
        match f.rule {
            RuleId::UnusedFile => PlanAcc {
                skipped: a.skipped,
                deletes: if a.deletes.contains(f.file@) { a.deletes } else { a.deletes.push(f.file@) },
                imports: a.imports,
                lines: a.lines,
                deps: a.deps,
            },
            RuleId::UnusedImport => match quoted(f.message@) {
                None => skip(a),
                Some(local) => {
                    let fi = facts_for(facts, f.file@, facts.len() as int);
                    if fi < 0 {
                        skip(a)
                    } else {
                        let ii = import_for(facts[fi].imports@, f.span, local, 0);
                        if ii < 0 {
                            skip(a)
                        } else {
                            PlanAcc {
                                skipped: a.skipped,
                                deletes: a.deletes,
                                imports: add_local(a.imports, f.file@, facts[fi].imports@[ii].span, local),
                                lines: a.lines,
                                deps: a.deps,
                            }
                        }
                    }
                },
            },
            RuleId::UnusedExport | RuleId::UnusedType => PlanAcc {
                skipped: a.skipped,
                deletes: a.deletes,
                imports: a.imports,
                lines: a.lines.push((f.file@, f.span.start_line, f.span.end_line)),
                deps: a.deps,
            },
            RuleId::UnusedDependency => match quoted(f.message@) {
                None => skip(a),
                Some(dep) => PlanAcc {
                    skipped: a.skipped,
                    deletes: a.deletes,
                    imports: a.imports,
                    lines: a.lines,
                    deps: a.deps.push((f.file@, dep)),
                },
            },
            _ => skip(a),
        }
    }
}

/// What the plan gathers from the findings, in order.
pub open spec fn plan_acc(findings: Seq<Finding>, facts: Seq<FileFacts>, opts: FixOptions) -> PlanAcc
    decreases findings.len(),
{
    if findings.len() == 0 {
        PlanAcc { skipped: 0, deletes: Seq::empty(), imports: Seq::empty(), lines: Seq::empty(), deps: Seq::empty() }
    } else {
        plan_step(plan_acc(findings.drop_last(), facts, opts), findings.last(), facts, opts)
    }
}

pub open spec fn delete_actions(d: Seq<Seq<char>>) -> Seq<FixActionView> {
    d.map_values(|p: Seq<char>| FixActionView::DeleteFile { path: p })
}

pub open spec fn import_actions(g: Seq<ImportGroup>) -> Seq<FixActionView> {
    g.map_values(|x: ImportGroup| FixActionView::RemoveImportNames { path: x.path, span: x.span, locals: x.locals })
}

pub open spec fn line_actions(l: Seq<(Seq<char>, u32, u32)>) -> Seq<FixActionView> {
    l.map_values(|x: (Seq<char>, u32, u32)| FixActionView::RemoveLines { path: x.0, start: x.1, end: x.2 })
}

pub open spec fn dep_actions(d: Seq<(Seq<char>, Seq<char>)>) -> Seq<FixActionView> {
    d.map_values(|x: (Seq<char>, Seq<char>)| FixActionView::RemoveDependency { manifest: x.0, dep: x.1 })
}

/// The gathered edits as actions, before ordering.
pub open spec fn gathered(a: PlanAcc) -> Seq<FixActionView> {
    delete_actions(a.deletes) + import_actions(a.imports) + line_actions(a.lines) + dep_actions(a.deps)
}

/// The sort key of an action: kind, path, first line.
pub open spec fn action_tag(a: FixActionView) -> int {
    match a {
        FixActionView::DeleteFile { .. } => 0,
        FixActionView::RemoveImportNames { .. } => 1,
        FixActionView::RemoveLines { .. } => 2,
        FixActionView::RemoveDependency { .. } => 3,
    }
}

pub open spec fn action_path(a: FixActionView) -> Seq<char> {
    match a {
        FixActionView::DeleteFile { path } => path,
        FixActionView::RemoveImportNames { path, .. } => path,
        FixActionView::RemoveLines { path, .. } => path,
        FixActionView::RemoveDependency { manifest, .. } => manifest,
    }
}

pub open spec fn action_line(a: FixActionView) -> int {
    match a {
        FixActionView::DeleteFile { .. } => 0,
        FixActionView::RemoveImportNames { span, .. } => span.start_line as int,
        FixActionView::RemoveLines { start, .. } => start as int,
        FixActionView::RemoveDependency { .. } => 0,
    }
}

/// `a` sorts strictly before `b` by (kind, path, line).
pub open spec fn action_lt(a: FixActionView, b: FixActionView) -> bool {
    action_tag(a) < action_tag(b) || (action_tag(a) == action_tag(b) && (seq_lt(action_path(a), action_path(b), true)
        || (action_path(a) == action_path(b) && action_line(a) < action_line(b))))
}

/// The first index from `i` whose action sorts strictly after `x`, else the length.
pub open spec fn first_above(s: Seq<FixActionView>, x: FixActionView, i: int) -> int
    decreases s.len() - i,
{
    if i < 0 || i >= s.len() {
        s.len() as int
    } else if action_lt(x, s[i]) {
        i
    } else {
        first_above(s, x, i + 1)
    }
}

/// The stable sort of actions by key: each one placed after every action
/// that does not sort after it.
pub open spec fn sort_actions(s: Seq<FixActionView>) -> Seq<FixActionView>
    decreases s.len(),
{
    if s.len() == 0 {
        s
    } else {
        let t = sort_actions(s.drop_last());
        t.insert(first_above(t, s.last(), 0), s.last())
    }
}

/// No action of `s` sorts before an earlier one.
pub open spec fn actions_ordered(s: Seq<FixActionView>) -> bool {
    forall|i: int, j: int| 0 <= i < j < s.len() ==> !action_lt(#[trigger] s[j], #[trigger] s[i])
}

proof fn lemma_action_lt_trans(a: FixActionView, b: FixActionView, c: FixActionView)
    requires
        action_lt(a, b),
        action_lt(b, c),
    ensures
        action_lt(a, c),
{
    if action_tag(a) == action_tag(b) && action_tag(b) == action_tag(c)
        && seq_lt(action_path(a), action_path(b), true) && seq_lt(action_path(b), action_path(c), true) {
        crate::order::lemma_seq_lt_trans(action_path(a), action_path(b), action_path(c), true);
    }
}

proof fn lemma_first_above_bounds(s: Seq<FixActionView>, x: FixActionView, i: int)
    requires
        0 <= i <= s.len(),
    ensures
        i <= first_above(s, x, i) <= s.len(),
        forall|k: int| i <= k < first_above(s, x, i) ==> !action_lt(x, #[trigger] s[k]),
        first_above(s, x, i) < s.len() ==> action_lt(x, s[first_above(s, x, i)]),
    decreases s.len() - i,
{
    if i < s.len() && !action_lt(x, s[i]) {
        lemma_first_above_bounds(s, x, i + 1);
    }
}

/// A plan lists its actions ordered by kind (deletions, import edits, line
/// removals, dependency removals), then path, then first line: sorting
/// reorders the gathered actions (as a multiset they are unchanged) so that
/// none sorts before an earlier one.
pub proof fn law_plan_actions_ordered(s: Seq<FixActionView>)
    ensures
        actions_ordered(sort_actions(s)),
        sort_actions(s).to_multiset() == s.to_multiset(),
    decreases s.len(),
{
    broadcast use vstd::seq_lib::group_to_multiset_ensures;

    if s.len() > 0 {
        let t = sort_actions(s.drop_last());
        law_plan_actions_ordered(s.drop_last());
        let x = s.last();
        lemma_first_above_bounds(t, x, 0);
        let p = first_above(t, x, 0);
        let r = t.insert(p, x);
        assert(r == sort_actions(s));
        assert forall|i: int, j: int| 0 <= i < j < r.len() implies !action_lt(#[trigger] r[j], #[trigger] r[i]) by {
            if j < p {
                assert(r[i] == t[i] && r[j] == t[j]);
            } else if i > p {
                assert(r[i] == t[i - 1] && r[j] == t[j - 1]);
            } else if i < p && j > p {
                assert(r[i] == t[i] && r[j] == t[j - 1]);
            } else if j == p {
                assert(r[i] == t[i] && r[j] == x);
            } else {
                assert(r[i] == x && r[j] == t[j - 1]);
                if action_lt(t[j - 1], x) {
                    lemma_action_lt_trans(t[j - 1], x, t[p]);
                    if j - 1 == p {
                        crate::order::lemma_seq_lt_irrefl(action_path(t[p]), true);
                    }
                }
            }
        }
        assert(s =~= s.drop_last().push(x));
    }
}

proof fn lemma_facts_for(facts: Seq<FileFacts>, path: Seq<char>, n: int)
    requires
        0 <= n <= facts.len(),
    ensures
        -1 <= facts_for(facts, path, n) < n,
        facts_for(facts, path, n) >= 0 ==> facts_for(facts, path, n) < facts.len(),
    decreases n,
{
    if n > 0 && facts[n - 1].path@ != path {
        lemma_facts_for(facts, path, n - 1);
    }
}

proof fn lemma_import_for(imports: Seq<RawImport>, span: Span, local: Seq<char>, i: int)
    requires
        0 <= i,
    ensures
        -1 <= import_for(imports, span, local, i) < imports.len(),
    decreases imports.len() - i,
{
    if i < imports.len() && !(overlaps(imports[i].span, span) && binds_local(imports[i], local)) {
        lemma_import_for(imports, span, local, i + 1);
    }
}

proof fn lemma_sort_push(p: Seq<FixActionView>, x: FixActionView)
    ensures
        sort_actions(p.push(x)) == sort_actions(p).insert(first_above(sort_actions(p), x, 0), x),
{
    assert(p.push(x).drop_last() =~= p);
}

proof fn lemma_first_above(s: Seq<FixActionView>, x: FixActionView, i: int)
    requires
        0 <= i <= s.len(),
    ensures
        i <= first_above(s, x, i) <= s.len(),
    decreases s.len() - i,
{
    if i < s.len() && !action_lt(x, s[i]) {
        lemma_first_above(s, x, i + 1);
    }
}

/// The strings of `v`, copied.
fn copy_strings(v: &Vec<String>) -> (r: Vec<String>)
    ensures
        string_views(r@) == string_views(v@),
{
    let mut r: Vec<String> = Vec::new();
    let mut k: usize = 0;
    while k < v.len()
        invariant
            k <= v@.len(),
            string_views(r@) == string_views(v@).take(k as int),
        decreases v@.len() - k,
    {
        let ghost before = r@;
        r.push(copy_string(&v[k]));
        assert(string_views(r@) =~= string_views(before).push(v@[k as int]@));
        assert(string_views(v@).take(k as int + 1) =~= string_views(v@).take(k as int).push(v@[k as int]@));
        k += 1;
    }
    assert(string_views(v@).take(v@.len() as int) =~= string_views(v@));
    r
}

/// Is the finding confident enough and of a kind that can be fixed?
fn is_fixable(finding: &Finding, opts: &FixOptions) -> (r: bool)
    ensures
        r == fixable(*finding, *opts),
{
    if finding.confidence.rank() < opts.min_confidence.rank() {
        return false;
    }
    match finding.rule {
        RuleId::UnusedFile | RuleId::UnusedImport | RuleId::UnusedExport | RuleId::UnusedType => true,
        RuleId::UnusedDependency => opts.include_deps && finding.confidence.rank() >= 1,
        _ => false,
    }
}

/// The name between the first two single quotes of a finding message.
fn parse_quoted(message: &str) -> (r: Option<String>)
    ensures
        match r {
            Some(t) => quoted(message@) == Some(t@),
            None => quoted(message@) is None,
        },
{
    let v = chars_of(message);
    let i = find_either_from(&v, '\'', '\'', 0);
    if i == v.len() {
        return None;
    }
    let j = find_either_from(&v, '\'', '\'', i + 1);
    if j == v.len() {
        return None;
    }
    let t = string_from(&v.as_slice()[i + 1..j]);
    assert(t@ =~= v@.subrange(i + 1, j as int));
    Some(t)
}

/// Index of the last facts record of `path`.
fn find_facts(facts: &[FileFacts], path: &str) -> (r: Option<usize>)
    ensures
        match r {
            Some(i) => facts_for(facts@, path@, facts@.len() as int) == i,
            None => facts_for(facts@, path@, facts@.len() as int) == -1,
        },
{
    let mut n = facts.len();
    while n > 0
        invariant
            n <= facts@.len(),
            facts_for(facts@, path@, facts@.len() as int) == facts_for(facts@, path@, n as int),
        decreases n,
    {
        if str_is(facts[n - 1].path.as_str(), path) {
            return Some(n - 1);
        }
        n -= 1;
    }
    None
}

fn binds(imp: &RawImport, local: &str) -> (r: bool)
    ensures
        r == binds_local(*imp, local@),
{
    let mut k: usize = 0;
    while k < imp.names.len()
        invariant
            k <= imp.names@.len(),
            forall|j: int| 0 <= j < k ==> #[trigger] imp.names@[j].local@ != local@,
        decreases imp.names@.len() - k,
    {
        if str_is(imp.names[k].local.as_str(), local) {
            return true;
        }
        k += 1;
    }
    false
}

/// Index of the first import of the file overlapping `span` that binds `local`.
fn find_import(facts: &FileFacts, span: Span, local: &str) -> (r: Option<usize>)
    ensures
        match r {
            Some(i) => import_for(facts.imports@, span, local@, 0) == i,
            None => import_for(facts.imports@, span, local@, 0) == -1,
        },
{
    let mut i: usize = 0;
    while i < facts.imports.len()
        invariant
            i <= facts.imports@.len(),
            import_for(facts.imports@, span, local@, 0) == import_for(facts.imports@, span, local@, i as int),
        decreases facts.imports@.len() - i,
    {
        let imp = &facts.imports[i];
        if imp.span.start_line <= span.end_line && span.start_line <= imp.span.end_line && binds(imp, local) {
            return Some(i);
        }
        i += 1;
    }
    None
}

/// The bindings gathered for one import statement.
struct ImportEdit {
    path: String,
    span: Span,
    locals: Vec<String>,
}

spec fn edit_views(v: Seq<ImportEdit>) -> Seq<ImportGroup> {
    v.map_values(|e: ImportEdit| ImportGroup { path: e.path@, span: e.span, locals: string_views(e.locals@) })
}

spec fn line_views(v: Seq<(String, u32, u32)>) -> Seq<(Seq<char>, u32, u32)> {
    v.map_values(|e: (String, u32, u32)| (e.0@, e.1, e.2))
}

spec fn dep_views(v: Seq<(String, String)>) -> Seq<(Seq<char>, Seq<char>)> {
    v.map_values(|e: (String, String)| (e.0@, e.1@))
}

fn add_import_local(edits: &mut Vec<ImportEdit>, path: &str, span: Span, local: &str)
    ensures
        edit_views(final(edits)@) == add_local(edit_views(old(edits)@), path@, span, local@),
{
    let ghost g = edit_views(edits@);
    let mut k: usize = 0;
    while k < edits.len()
        invariant
            k <= edits@.len(),
            g == edit_views(edits@),
            edits@ == old(edits)@,
            group_index(g, path@, span, 0) == group_index(g, path@, span, k as int),
        decreases edits@.len() - k,
    {
        if str_is(edits[k].path.as_str(), path) && edits[k].span == span {
            let mut locals = copy_strings(&edits[k].locals);
            if !contains_view(&edits[k].locals, local) {
                locals.push(String::from_str(local));
                assert(string_views(locals@) =~= string_views(edits@[k as int].locals@).push(local@));
            }
            let e = ImportEdit { path: String::from_str(path), span, locals };
            edits.set(k, e);
            assert(edit_views(edits@) =~= add_local(g, path@, span, local@));
            return;
        }
        k += 1;
    }
    let mut locals: Vec<String> = Vec::new();
    locals.push(String::from_str(local));
    assert(string_views(locals@) =~= seq![local@]);
    edits.push(ImportEdit { path: String::from_str(path), span, locals });
    assert(edit_views(edits@) =~= add_local(g, path@, span, local@));
}

/// `a` sorts strictly before `b` by (kind, path, line).
fn action_less(a: &FixAction, b: &FixAction) -> (r: bool)
    ensures
        r == action_lt(a@, b@),
{
    let (ta, pa, la): (u8, &String, u32) = match a {
        FixAction::DeleteFile { path } => (0, path, 0),
        FixAction::RemoveImportNames { path, span, .. } => (1, path, span.start_line),
        FixAction::RemoveLines { path, start, .. } => (2, path, *start),
        FixAction::RemoveDependency { manifest, .. } => (3, manifest, 0),
    };
    let (tb, pb, lb): (u8, &String, u32) = match b {
        FixAction::DeleteFile { path } => (0, path, 0),
        FixAction::RemoveImportNames { path, span, .. } => (1, path, span.start_line),
        FixAction::RemoveLines { path, start, .. } => (2, path, *start),
        FixAction::RemoveDependency { manifest, .. } => (3, manifest, 0),
    };
    ta < tb || (ta == tb && (str_less(pa.as_str(), pb.as_str(), true) || (str_is(pa.as_str(), pb.as_str()) && la < lb)))
}

/// Places `x` after every action that does not sort after it.
fn insert_action(out: &mut Vec<FixAction>, x: FixAction)
    ensures
        action_views(final(out)@) == action_views(old(out)@).insert(first_above(action_views(old(out)@), x@, 0), x@),
{
    let ghost t = action_views(out@);
    let mut p: usize = 0;
    while p < out.len() && !action_less(&x, &out[p])
        invariant
            p <= out@.len(),
            t == action_views(out@),
            first_above(t, x@, 0) == first_above(t, x@, p as int),
        decreases out@.len() - p,
    {
        p += 1;
    }
    assert(first_above(t, x@, 0) == p);
    let ghost xv = x@;
    out.insert(p, x);
    assert(action_views(out@) =~= t.insert(p as int, xv));
}

/// Turns findings into a fix plan: deletions of unused files, removal of
/// unused import bindings (grouped by statement), of unused exports and types
/// (as line ranges) and, when asked for, of unused dependencies. The actions
/// come ordered by kind, path and first line.
pub fn plan(findings: &[Finding], facts: &[FileFacts], opts: &FixOptions) -> (r: FixPlan)
    ensures
        action_views(r.actions@) == sort_actions(gathered(plan_acc(findings@, facts@, *opts))),
        r.skipped == plan_acc(findings@, facts@, *opts).skipped,
{
    let mut skipped: usize = 0;
    let mut deletes: Vec<String> = Vec::new();
    let mut edits: Vec<ImportEdit> = Vec::new();
    let mut lines: Vec<(String, u32, u32)> = Vec::new();
    let mut deps: Vec<(String, String)> = Vec::new();
    let mut i: usize = 0;
    while i < findings.len()
        invariant
            i <= findings@.len(),
            skipped <= i,
            ({
                let a = plan_acc(findings@.take(i as int), facts@, *opts);
                &&& a.skipped == skipped
                &&& a.deletes == string_views(deletes@)
                &&& a.imports == edit_views(edits@)
                &&& a.lines == line_views(lines@)
                &&& a.deps == dep_views(deps@)
            }),
        decreases findings@.len() - i,
    {
        let f = &findings[i];
        proof {
            assert(findings@.take(i as int + 1).drop_last() =~= findings@.take(i as int));
        }
        let ghost a = plan_acc(findings@.take(i as int), facts@, *opts);
        if !is_fixable(f, opts) {
            skipped += 1;
        } else {
            match f.rule {
                RuleId::UnusedFile => {
                    if !contains_view(&deletes, f.file.as_str()) {
                        let ghost before = deletes@;
                        deletes.push(copy_string(&f.file));
                        assert(string_views(deletes@) =~= string_views(before).push(f.file@));
                    }
                },
                RuleId::UnusedImport => {
                    match parse_quoted(f.message.as_str()) {
                        None => { skipped += 1; },
                        Some(local) => {
                            match find_facts(facts, f.file.as_str()) {
                                None => { skipped += 1; },
                                Some(fi) => {
                                    proof { lemma_facts_for(facts@, f.file@, facts@.len() as int); }
                                    match find_import(&facts[fi], f.span, local.as_str()) {
                                        None => { skipped += 1; },
                                        Some(ii) => {
                                            proof { lemma_import_for(facts@[fi as int].imports@, f.span, local@, 0); }
                                            add_import_local(&mut edits, f.file.as_str(), facts[fi].imports[ii].span, local.as_str());
                                        },
                                    }
                                },
                            }
                        },
                    }
                },
                RuleId::UnusedExport | RuleId::UnusedType => {
                    let ghost before = lines@;
                    lines.push((copy_string(&f.file), f.span.start_line, f.span.end_line));
                    assert(line_views(lines@) =~= line_views(before).push((f.file@, f.span.start_line, f.span.end_line)));
                },
                RuleId::UnusedDependency => {
                    match parse_quoted(f.message.as_str()) {
                        None => { skipped += 1; },
                        Some(dep) => {
                            let ghost before = deps@;
                            let ghost dv = dep@;
                            deps.push((copy_string(&f.file), dep));
                            assert(dep_views(deps@) =~= dep_views(before).push((f.file@, dv)));
                        },
                    }
                },
                _ => { skipped += 1; },
            }
        }
        i += 1;
    }
    assert(findings@.take(findings@.len() as int) =~= findings@);
    let ghost acc = plan_acc(findings@, facts@, *opts);
    let ghost c1 = delete_actions(acc.deletes);
    let ghost c2 = import_actions(acc.imports);
    let ghost c3 = line_actions(acc.lines);
    let ghost c4 = dep_actions(acc.deps);
    let mut out: Vec<FixAction> = Vec::new();
    let mut k: usize = 0;
    while k < deletes.len()
        invariant
            k <= deletes@.len(),
            c1 == delete_actions(string_views(deletes@)),
            action_views(out@) == sort_actions(c1.take(k as int)),
        decreases deletes@.len() - k,
    {
        let x = FixAction::DeleteFile { path: copy_string(&deletes[k]) };
        proof { lemma_sort_push(c1.take(k as int), x@); }
        assert(c1.take(k as int + 1) =~= c1.take(k as int).push(x@));
        insert_action(&mut out, x);
        k += 1;
    }
    assert(c1.take(c1.len() as int) =~= c1);
    let mut k: usize = 0;
    while k < edits.len()
        invariant
            k <= edits@.len(),
            c2 == import_actions(edit_views(edits@)),
            action_views(out@) == sort_actions(c1 + c2.take(k as int)),
        decreases edits@.len() - k,
    {
        let e = &edits[k];
        let x = FixAction::RemoveImportNames { path: copy_string(&e.path), span: e.span, locals: copy_strings(&e.locals) };
        proof { lemma_sort_push(c1 + c2.take(k as int), x@); }
        assert(c1 + c2.take(k as int + 1) =~= (c1 + c2.take(k as int)).push(x@));
        insert_action(&mut out, x);
        k += 1;
    }
    assert(c1 + c2.take(c2.len() as int) =~= c1 + c2);
    let mut k: usize = 0;
    while k < lines.len()
        invariant
            k <= lines@.len(),
            c3 == line_actions(line_views(lines@)),
            action_views(out@) == sort_actions(c1 + c2 + c3.take(k as int)),
        decreases lines@.len() - k,
    {
        let x = FixAction::RemoveLines { path: copy_string(&lines[k].0), start: lines[k].1, end: lines[k].2 };
        proof { lemma_sort_push(c1 + c2 + c3.take(k as int), x@); }
        assert(c1 + c2 + c3.take(k as int + 1) =~= (c1 + c2 + c3.take(k as int)).push(x@));
        insert_action(&mut out, x);
        k += 1;
    }
    assert(c1 + c2 + c3.take(c3.len() as int) =~= c1 + c2 + c3);
    let mut k: usize = 0;
    while k < deps.len()
        invariant
            k <= deps@.len(),
            c4 == dep_actions(dep_views(deps@)),
            action_views(out@) == sort_actions(c1 + c2 + c3 + c4.take(k as int)),
        decreases deps@.len() - k,
    {
        let x = FixAction::RemoveDependency { manifest: copy_string(&deps[k].0), dep: copy_string(&deps[k].1) };
        proof { lemma_sort_push(c1 + c2 + c3 + c4.take(k as int), x@); }
        assert(c1 + c2 + c3 + c4.take(k as int + 1) =~= (c1 + c2 + c3 + c4.take(k as int)).push(x@));
        insert_action(&mut out, x);
        k += 1;
    }
    assert(c1 + c2 + c3 + c4.take(c4.len() as int) =~= gathered(acc));
    FixPlan { actions: out, skipped }
}

/// The path an action edits or deletes.
fn action_target(a: &FixAction) -> (r: String)
    ensures
        r@ == action_path(a@),
{
    match a {
        FixAction::DeleteFile { path } => copy_string(path),
        FixAction::RemoveImportNames { path, .. } => copy_string(path),
        FixAction::RemoveLines { path, .. } => copy_string(path),
        FixAction::RemoveDependency { manifest, .. } => copy_string(manifest),
    }
}

/// The repo-relative paths a plan modifies or deletes, each once, in path order.
pub fn affected_paths(plan: &FixPlan) -> (r: Vec<String>)
    ensures
        string_views(r@) == sorted_set(action_views(plan.actions@).map_values(|a: FixActionView| action_path(a)), true),
{
    let ghost targets = action_views(plan.actions@).map_values(|a: FixActionView| action_path(a));
    let mut paths: Vec<String> = Vec::new();
    let mut k: usize = 0;
    while k < plan.actions.len()
        invariant
            k <= plan.actions@.len(),
            targets == action_views(plan.actions@).map_values(|a: FixActionView| action_path(a)),
            string_views(paths@) == targets.take(k as int),
        decreases plan.actions@.len() - k,
    {
        let ghost before = paths@;
        paths.push(action_target(&plan.actions[k]));
        assert(string_views(paths@) =~= string_views(before).push(targets[k as int]));
        assert(targets.take(k as int + 1) =~= targets.take(k as int).push(targets[k as int]));
        k += 1;
    }
    assert(targets.take(targets.len() as int) =~= targets);
    sort_dedup(&paths, true)
}

} // verus!
