//! Applying a fix plan: the actions grouped per file, and the edits of one
//! file carried out on its text. Reading and writing the files is left to the
//! caller.

use vstd::prelude::*;
use crate::facts::{FileFacts, RawImport};
use crate::fix::import::{import_patch, import_patch_defined, patch_import};
use crate::fix::lines::{remove_line_range, removed_lines};
use crate::fix::plan::{action_views, FixAction, FixActionView, FixPlan};
use crate::ids::Span;
use crate::order::{contains_view, string_views};
use crate::text::{cat, copy_string, owned, str_is, u64_to_string, decimal};

verus! {

/// What applying a plan did.
#[derive(Debug)]
pub struct FixOutcome {
    pub applied: usize,
    pub diffs: Vec<String>,
    pub errors: Vec<String>,
}

impl FixOutcome {
    /// Nothing applied, no diff, no error.
    pub fn empty() -> (r: FixOutcome)
        ensures
            r.applied == 0,
            r.diffs@.len() == 0,
            r.errors@.len() == 0,
    {
        FixOutcome { applied: 0, diffs: Vec::new(), errors: Vec::new() }
    }
}

/// The edits of one file: import bindings per statement, and line ranges.
#[derive(Debug)]
pub struct FileEditBatch {
    pub imports: Vec<(Span, Vec<String>)>,
    pub lines: Vec<(u32, u32)>,
}

/// The actions of a plan by target: files to delete, per-file edits, and
/// dependencies to remove from manifests.
#[derive(Debug)]
pub struct GroupedActions {
    pub deletes: Vec<String>,
    pub files: Vec<(String, FileEditBatch)>,
    pub manifests: Vec<(String, String)>,
}

pub struct BatchView {
    pub imports: Seq<(Span, Seq<Seq<char>>)>,
    pub lines: Seq<(u32, u32)>,
}

pub open spec fn batch_view(b: FileEditBatch) -> BatchView {
    BatchView {
        imports: b.imports@.map_values(|e: (Span, Vec<String>)| (e.0, string_views(e.1@))),
        lines: b.lines@,
    }
}

pub struct GroupedView {
    pub deletes: Seq<Seq<char>>,
    pub files: Seq<(Seq<char>, BatchView)>,
    pub manifests: Seq<(Seq<char>, Seq<char>)>,
}

pub open spec fn grouped_view(g: GroupedActions) -> GroupedView {
    GroupedView {
        deletes: string_views(g.deletes@),
        files: g.files@.map_values(|e: (String, FileEditBatch)| (e.0@, batch_view(e.1))),
        manifests: g.manifests@.map_values(|e: (String, String)| (e.0@, e.1@)),
    }
}

/// `xs` with the strings of `ys` that it lacks appended, in order.
pub open spec fn union_in_order(xs: Seq<Seq<char>>, ys: Seq<Seq<char>>) -> Seq<Seq<char>>
    decreases ys.len(),
{
    if ys.len() == 0 {
        xs
    } else {
        let u = union_in_order(xs, ys.drop_last());
        if u.contains(ys.last()) { u } else { u.push(ys.last()) }
    }
}

/// Index of the entry for `span`, or -1.
pub open spec fn span_slot(imports: Seq<(Span, Seq<Seq<char>>)>, span: Span, i: int) -> int
    decreases imports.len() - i,
{
    if i < 0 || i >= imports.len() {
        -1
    } else if imports[i].0 == span {
        i
    } else {
        span_slot(imports, span, i + 1)
    }
}

/// Index of the batch for `path`, or -1.
pub open spec fn path_slot(files: Seq<(Seq<char>, BatchView)>, path: Seq<char>, i: int) -> int
    decreases files.len() - i,
{
    if i < 0 || i >= files.len() {
        -1
    } else if files[i].0 == path {
        i
    } else {
        path_slot(files, path, i + 1)
    }
}

pub open spec fn batch_add_import(b: BatchView, span: Span, locals: Seq<Seq<char>>) -> BatchView {
    let k = span_slot(b.imports, span, 0);
    if k < 0 {
        BatchView { imports: b.imports.push((span, union_in_order(Seq::empty(), locals))), lines: b.lines }
    } else {
        BatchView { imports: b.imports.update(k, (span, union_in_order(b.imports[k].1, locals))), lines: b.lines }
    }
}

pub open spec fn batch_add_lines(b: BatchView, start: u32, end: u32) -> BatchView {
    BatchView { imports: b.imports, lines: b.lines.push((start, end)) }
}

pub open spec fn empty_batch() -> BatchView {
    BatchView { imports: Seq::empty(), lines: Seq::empty() }
}

/// The batches with the one for `path` (created when missing) changed by `f`.
pub open spec fn files_update(files: Seq<(Seq<char>, BatchView)>, path: Seq<char>, f: spec_fn(BatchView) -> BatchView)
    -> Seq<(Seq<char>, BatchView)>
{
    let k = path_slot(files, path, 0);
    if k < 0 { files.push((path, f(empty_batch()))) } else { files.update(k, (path, f(files[k].1))) }
}

/// The grouping after one more action.
pub open spec fn group_step(g: GroupedView, a: FixActionView) -> GroupedView {
    match a {
        FixActionView::DeleteFile { path } => GroupedView { deletes: g.deletes.push(path), files: g.files, manifests: g.manifests },
        FixActionView::RemoveImportNames { path, span, locals } => GroupedView {
            deletes: g.deletes,
            files: files_update(g.files, path, |b: BatchView| batch_add_import(b, span, locals)),
            manifests: g.manifests,
        },
        FixActionView::RemoveLines { path, start, end } => GroupedView {
            deletes: g.deletes,
            files: files_update(g.files, path, |b: BatchView| batch_add_lines(b, start, end)),
            manifests: g.manifests,
        },
        FixActionView::RemoveDependency { manifest, dep } =>
            GroupedView { deletes: g.deletes, files: g.files, manifests: g.manifests.push((manifest, dep)) },
    }
}

/// The grouping of a list of actions, in order.
pub open spec fn grouped(actions: Seq<FixActionView>) -> GroupedView
    decreases actions.len(),
{
    if actions.len() == 0 {
        GroupedView { deletes: Seq::empty(), files: Seq::empty(), manifests: Seq::empty() }
    } else {
        group_step(grouped(actions.drop_last()), actions.last())
    }
}

proof fn lemma_path_slot(files: Seq<(Seq<char>, BatchView)>, path: Seq<char>, i: int)
    requires
        0 <= i,
    ensures
        path_slot(files, path, i) >= 0 ==> i <= path_slot(files, path, i) < files.len()
            && files[path_slot(files, path, i)].0 == path,
        path_slot(files, path, i) >= -1,
    decreases files.len() - i,
{
    if i < files.len() && files[i].0 != path {
        lemma_path_slot(files, path, i + 1);
    }
}

pub fn union_into(xs: &mut Vec<String>, ys: &Vec<String>)
    ensures
        string_views(final(xs)@) == union_in_order(string_views(old(xs)@), string_views(ys@)),
{
    let ghost x0 = string_views(xs@);
    let mut k: usize = 0;
    while k < ys.len()
        invariant
            k <= ys@.len(),
            x0 == string_views(old(xs)@),
            string_views(xs@) == union_in_order(x0, string_views(ys@).take(k as int)),
        decreases ys@.len() - k,
    {
        proof {
            let t = string_views(ys@).take(k as int + 1);
            assert(t.drop_last() =~= string_views(ys@).take(k as int));
            assert(t.last() == ys@[k as int]@);
        }
        if !contains_view(xs, ys[k].as_str()) {
            let ghost before = xs@;
            xs.push(copy_string(&ys[k]));
            assert(string_views(xs@) =~= string_views(before).push(ys@[k as int]@));
        }
        k += 1;
    }
    assert(string_views(ys@).take(ys@.len() as int) =~= string_views(ys@));
}

fn batch_push_import(b: &mut FileEditBatch, span: Span, locals: &Vec<String>)
    ensures
        batch_view(*final(b)) == batch_add_import(batch_view(*old(b)), span, string_views(locals@)),
{
    let ghost bv = batch_view(*b);
    let mut k: usize = 0;
    while k < b.imports.len()
        invariant
            k <= b.imports@.len(),
            bv == batch_view(*b),
            *b == *old(b),
            span_slot(bv.imports, span, 0) == span_slot(bv.imports, span, k as int),
        decreases b.imports@.len() - k,
    {
        if b.imports[k].0 == span {
            let (sp, mut ls) = b.imports.remove(k);
            union_into(&mut ls, locals);
            let ghost lv = string_views(ls@);
            b.imports.insert(k, (sp, ls));
            assert(batch_view(*b).imports =~= bv.imports.update(k as int, (span, lv)));
            return;
        }
        k += 1;
    }
    let mut ls: Vec<String> = Vec::new();
    union_into(&mut ls, locals);
    assert(string_views(Seq::<String>::empty()) =~= Seq::<Seq<char>>::empty());
    let ghost lv = string_views(ls@);
    b.imports.push((span, ls));
    assert(batch_view(*b).imports =~= bv.imports.push((span, lv)));
}

fn new_batch() -> (r: FileEditBatch)
    ensures
        batch_view(r) == empty_batch(),
{
    let r = FileEditBatch { imports: Vec::new(), lines: Vec::new() };
    assert(batch_view(r).imports =~= Seq::<(Span, Seq<Seq<char>>)>::empty());
    r
}

/// The index of the batch for `path`, created at the end when missing.
fn file_slot(files: &mut Vec<(String, FileEditBatch)>, path: &String) -> (k: usize)
    ensures
        ({
            let fv = old(files)@.map_values(|e: (String, FileEditBatch)| (e.0@, batch_view(e.1)));
            let j = path_slot(fv, path@, 0);
            &&& k < final(files)@.len()
            &&& j >= 0 ==> k == j && final(files)@ == old(files)@
            &&& j < 0 ==> k == old(files)@.len() && final(files)@.len() == old(files)@.len() + 1
                && final(files)@.take(k as int) == old(files)@
                && final(files)@[k as int].0@ == path@ && batch_view(final(files)@[k as int].1) == empty_batch()
        }),
{
    let ghost fv = files@.map_values(|e: (String, FileEditBatch)| (e.0@, batch_view(e.1)));
    let mut k: usize = 0;
    while k < files.len()
        invariant
            k <= files@.len(),
            files@ == old(files)@,
            fv == files@.map_values(|e: (String, FileEditBatch)| (e.0@, batch_view(e.1))),
            path_slot(fv, path@, 0) == path_slot(fv, path@, k as int),
        decreases files@.len() - k,
    {
        if str_is(files[k].0.as_str(), path.as_str()) {
            return k;
        }
        k += 1;
    }
    files.push((copy_string(path), new_batch()));
    assert(files@.take(k as int) =~= old(files)@);
    k
}

spec fn files_view(v: Seq<(String, FileEditBatch)>) -> Seq<(Seq<char>, BatchView)> {
    v.map_values(|e: (String, FileEditBatch)| (e.0@, batch_view(e.1)))
}

/// Replacing the batch at the slot `file_slot` gave is the update `files_update` describes.
proof fn lemma_group_files(
    fv0: Seq<(Seq<char>, BatchView)>,
    files1: Seq<(String, FileEditBatch)>,
    files2: Seq<(String, FileEditBatch)>,
    k: int,
    path: Seq<char>,
    f: spec_fn(BatchView) -> BatchView,
    b0: BatchView,
    b1: BatchView,
)
    requires
        0 <= k < files1.len(),
        files2.len() == files1.len(),
        forall|j: int| 0 <= j < files1.len() && j != k ==> files2[j] == files1[j],
        files2[k].0@ == files1[k].0@,
        b0 == batch_view(files1[k].1),
        b1 == f(b0),
        batch_view(files2[k].1) == b1,
        ({
            let j = path_slot(fv0, path, 0);
            &&& j >= 0 ==> k == j && files_view(files1) == fv0
            &&& j < 0 ==> k == fv0.len() && files1.len() == fv0.len() + 1
                && files_view(files1.take(k)) == fv0
                && files1[k].0@ == path && batch_view(files1[k].1) == empty_batch()
        }),
    ensures
        files_view(files2) == files_update(fv0, path, f),
{
    lemma_path_slot(fv0, path, 0);
    let j = path_slot(fv0, path, 0);
    if j >= 0 {
        assert(files_view(files2) =~= fv0.update(k, (path, f(fv0[k].1))));
    } else {
        assert forall|i: int| 0 <= i < fv0.len() implies files_view(files2)[i] == fv0[i] by {
            assert(files_view(files1.take(k))[i] == fv0[i]);
        }
        assert(files_view(files2) =~= fv0.push((path, f(empty_batch()))));
    }
}

/// Groups the actions of a plan by what they touch.
pub fn group_actions(plan: &FixPlan) -> (r: GroupedActions)
    ensures
        grouped_view(r) == grouped(action_views(plan.actions@)),
{
    let mut g = GroupedActions { deletes: Vec::new(), files: Vec::new(), manifests: Vec::new() };
    let ghost acts = action_views(plan.actions@);
    proof {
        assert(grouped_view(g).deletes =~= Seq::<Seq<char>>::empty());
        assert(grouped_view(g).files =~= Seq::<(Seq<char>, BatchView)>::empty());
        assert(grouped_view(g).manifests =~= Seq::<(Seq<char>, Seq<char>)>::empty());
    }
    let mut i: usize = 0;
    while i < plan.actions.len()
        invariant
            i <= plan.actions@.len(),
            acts == action_views(plan.actions@),
            grouped_view(g) == grouped(acts.take(i as int)),
        decreases plan.actions@.len() - i,
    {
        let ghost before = grouped_view(g);
        let ghost a = acts[i as int];
        proof {
            assert(acts.take(i as int + 1).drop_last() =~= acts.take(i as int));
            assert(acts.take(i as int + 1).last() == a);
        }
        match &plan.actions[i] {
            FixAction::DeleteFile { path } => {
                g.deletes.push(copy_string(path));
                assert(grouped_view(g).deletes =~= before.deletes.push(path@));
                assert(grouped_view(g).files =~= before.files);
                assert(grouped_view(g).manifests =~= before.manifests);
            },
            FixAction::RemoveImportNames { path, span, locals } => {
                let ghost fv0 = before.files;
                let k = file_slot(&mut g.files, path);
                let ghost files1 = g.files@;
                let (p, mut b) = g.files.remove(k);
                let ghost b0 = batch_view(b);
                batch_push_import(&mut b, *span, locals);
                let ghost pv = p@;
                let ghost b1 = batch_view(b);
                g.files.insert(k, (p, b));
                proof {
                    let f = |b: BatchView| batch_add_import(b, *span, string_views(locals@));
                    assert(b1 == f(b0));
                    lemma_group_files(fv0, files1, g.files@, k as int, path@, f, b0, b1);
                }
                assert(grouped_view(g).deletes =~= before.deletes);
                assert(grouped_view(g).manifests =~= before.manifests);
            },
            FixAction::RemoveLines { path, start, end } => {
                let ghost fv0 = before.files;
                let k = file_slot(&mut g.files, path);
                let ghost files1 = g.files@;
                let (p, mut b) = g.files.remove(k);
                let ghost b0 = batch_view(b);
                b.lines.push((*start, *end));
                let ghost b1 = batch_view(b);
                g.files.insert(k, (p, b));
                proof {
                    let f = |b: BatchView| batch_add_lines(b, *start, *end);
                    assert(b1.imports =~= f(b0).imports);
                    assert(b1 == f(b0));
                    lemma_group_files(fv0, files1, g.files@, k as int, path@, f, b0, b1);
                }
                assert(grouped_view(g).deletes =~= before.deletes);
                assert(grouped_view(g).manifests =~= before.manifests);
            },
            FixAction::RemoveDependency { manifest, dep } => {
                g.manifests.push((copy_string(manifest), copy_string(dep)));
                assert(grouped_view(g).manifests =~= before.manifests.push((manifest@, dep@)));
                assert(grouped_view(g).files =~= before.files);
                assert(grouped_view(g).deletes =~= before.deletes);
            },
        }
        i += 1;
    }
    assert(acts.take(acts.len() as int) =~= acts);
    g
}

/// Why the edits of a file could not be carried out.
#[derive(Debug, Clone, Copy, PartialEq, Eq, Structural)]
pub enum EditFailure {
    /// No import of the file has the span the plan recorded.
    MissingImport,
    /// An emptied import statement could not be removed.
    ImportRemoval { start: u32, end: u32 },
    /// A line range could not be removed.
    LineRemoval { start: u32, end: u32 },
}

impl EditFailure {
    /// The human-readable message.
    pub fn message(&self) -> (r: String)
        ensures
            r@ == match *self {
                EditFailure::MissingImport => "import span missing after replan"@,
                EditFailure::ImportRemoval { start, end } =>
                    "remove import at lines "@ + decimal(start as nat) + "-"@ + decimal(end as nat),
                EditFailure::LineRemoval { start, end } =>
                    "line removal "@ + decimal(start as nat) + "-"@ + decimal(end as nat) + " failed"@,
            },
    {
        match self {
            EditFailure::MissingImport => owned("import span missing after replan"),
            EditFailure::ImportRemoval { start, end } => {
                let a = u64_to_string(*start as u64);
                let b = u64_to_string(*end as u64);
                let t = crate::text::cat3("remove import at lines ", a.as_str(), "-");
                cat(t.as_str(), b.as_str())
            },
            EditFailure::LineRemoval { start, end } => {
                let a = u64_to_string(*start as u64);
                let b = u64_to_string(*end as u64);
                let t = crate::text::cat3("line removal ", a.as_str(), "-");
                crate::text::cat3(t.as_str(), b.as_str(), " failed")
            },
        }
    }
}

/// Index of the first import whose span is `span`, or -1.
pub open spec fn span_import(imports: Seq<RawImport>, span: Span, i: int) -> int
    decreases imports.len() - i,
{
    if i < 0 || i >= imports.len() {
        -1
    } else if imports[i].span == span {
        i
    } else {
        span_import(imports, span, i + 1)
    }
}

/// One import statement patched, or removed when no binding is left.
pub open spec fn import_edit(content: Seq<char>, facts: FileFacts, span: Span, locals: Seq<Seq<char>>)
    -> Result<Seq<char>, EditFailure>
{
    let ii = span_import(facts.imports@, span, 0);
    if ii < 0 {
        Err(EditFailure::MissingImport)
    } else {
        let imp = facts.imports@[ii];
        match import_patch(content, imp, locals) {
            Some(n) => Ok(n),
            None => match removed_lines(content, imp.span.start_line as int, imp.span.end_line as int) {
                Some(n) => Ok(n),
                None => Err(EditFailure::ImportRemoval { start: imp.span.start_line, end: imp.span.end_line }),
            },
        }
    }
}

pub open spec fn import_edit_defined(content: Seq<char>, facts: FileFacts, span: Span) -> bool {
    let ii = span_import(facts.imports@, span, 0);
    ii < 0 || import_patch_defined(content, facts.imports@[ii])
}

/// The text after the first `n` import edits.
pub open spec fn after_imports(source: Seq<char>, facts: FileFacts, groups: Seq<(Span, Seq<Seq<char>>)>, n: int)
    -> Result<Seq<char>, EditFailure>
    decreases n,
{
    if n <= 0 {
        Ok(source)
    } else {
        match after_imports(source, facts, groups, n - 1) {
            Err(e) => Err(e),
            Ok(c) => import_edit(c, facts, groups[n - 1].0, groups[n - 1].1),
        }
    }
}

/// Every import edit is reached with a text on which it is defined.
pub open spec fn imports_defined(source: Seq<char>, facts: FileFacts, groups: Seq<(Span, Seq<Seq<char>>)>) -> bool {
    forall|k: int| 0 <= k < groups.len() ==> match #[trigger] after_imports(source, facts, groups, k) {
        Err(_) => true,
        Ok(c) => import_edit_defined(c, facts, groups[k].0),
    }
}

/// The first index from `i` whose range starts strictly before `x`, else the length.
pub open spec fn first_below(s: Seq<(u32, u32)>, x: (u32, u32), i: int) -> int
    decreases s.len() - i,
{
    if i < 0 || i >= s.len() {
        s.len() as int
    } else if s[i].0 < x.0 {
        i
    } else {
        first_below(s, x, i + 1)
    }
}

/// The ranges stably sorted by descending start line.
pub open spec fn sort_desc(s: Seq<(u32, u32)>) -> Seq<(u32, u32)>
    decreases s.len(),
{
    if s.len() == 0 {
        s
    } else {
        let t = sort_desc(s.drop_last());
        t.insert(first_below(t, s.last(), 0), s.last())
    }
}

/// The text after removing the first `n` ranges, in order.
pub open spec fn after_lines(c: Result<Seq<char>, EditFailure>, ls: Seq<(u32, u32)>, n: int) -> Result<Seq<char>, EditFailure>
    decreases n,
{
    if n <= 0 {
        c
    } else {
        match after_lines(c, ls, n - 1) {
            Err(e) => Err(e),
            Ok(t) => match removed_lines(t, ls[n - 1].0 as int, ls[n - 1].1 as int) {
                Some(u) => Ok(u),
                None => Err(EditFailure::LineRemoval { start: ls[n - 1].0, end: ls[n - 1].1 }),
            },
        }
    }
}

/// The file after its import edits, then its line removals from the bottom up.
pub open spec fn file_edited(source: Seq<char>, facts: FileFacts, b: BatchView) -> Result<Seq<char>, EditFailure> {
    let ls = sort_desc(b.lines);
    after_lines(after_imports(source, facts, b.imports, b.imports.len() as int), ls, ls.len() as int)
}

proof fn lemma_first_below(s: Seq<(u32, u32)>, x: (u32, u32), i: int)
    requires
        0 <= i <= s.len(),
    ensures
        i <= first_below(s, x, i) <= s.len(),
    decreases s.len() - i,
{
    if i < s.len() && s[i].0 >= x.0 {
        lemma_first_below(s, x, i + 1);
    }
}

proof fn lemma_span_import(imports: Seq<RawImport>, span: Span, i: int)
    requires
        0 <= i,
    ensures
        -1 <= span_import(imports, span, i) < imports.len(),
    decreases imports.len() - i,
{
    if i < imports.len() && imports[i].span != span {
        lemma_span_import(imports, span, i + 1);
    }
}

proof fn lemma_imports_stay_failed(source: Seq<char>, facts: FileFacts, groups: Seq<(Span, Seq<Seq<char>>)>, n: int, m: int, e: EditFailure)
    requires
        0 <= n <= m,
        after_imports(source, facts, groups, n) == Err::<Seq<char>, EditFailure>(e),
    ensures
        after_imports(source, facts, groups, m) == Err::<Seq<char>, EditFailure>(e),
    decreases m - n,
{
    if m > n {
        lemma_imports_stay_failed(source, facts, groups, n, m - 1, e);
    }
}

proof fn lemma_lines_stay_failed(c: Result<Seq<char>, EditFailure>, ls: Seq<(u32, u32)>, n: int, m: int, e: EditFailure)
    requires
        n <= m,
        after_lines(c, ls, n) == Err::<Seq<char>, EditFailure>(e),
    ensures
        after_lines(c, ls, m) == Err::<Seq<char>, EditFailure>(e),
    decreases m - n,
{
    if m > n {
        lemma_lines_stay_failed(c, ls, n, m - 1, e);
    }
}

fn sorted_desc(v: &Vec<(u32, u32)>) -> (r: Vec<(u32, u32)>)
    ensures
        r@ == sort_desc(v@),
{
    let mut out: Vec<(u32, u32)> = Vec::new();
    let mut k: usize = 0;
    while k < v.len()
        invariant
            k <= v@.len(),
            out@ == sort_desc(v@.take(k as int)),
        decreases v@.len() - k,
    {
        let x = v[k];
        proof {
            assert(v@.take(k as int + 1).drop_last() =~= v@.take(k as int));
        }
        let mut p: usize = 0;
        while p < out.len() && out[p].0 >= x.0
            invariant
                p <= out@.len(),
                first_below(out@, x, 0) == first_below(out@, x, p as int),
            decreases out@.len() - p,
        {
            p += 1;
        }
        out.insert(p, x);
        k += 1;
    }
    assert(v@.take(v@.len() as int) =~= v@);
    out
}

/// The import statement of the file with the given span.
fn import_with_span(facts: &FileFacts, span: Span) -> (r: Option<usize>)
    ensures
        match r {
            Some(i) => span_import(facts.imports@, span, 0) == i && i < facts.imports@.len(),
            None => span_import(facts.imports@, span, 0) == -1,
        },
{
    let mut i: usize = 0;
    while i < facts.imports.len()
        invariant
            i <= facts.imports@.len(),
            span_import(facts.imports@, span, 0) == span_import(facts.imports@, span, i as int),
        decreases facts.imports@.len() - i,
    {
        if facts.imports[i].span == span {
            return Some(i);
        }
        i += 1;
    }
    None
}

/// Carries out the edits of one file on its text: each import statement
/// patched (or removed when emptied), then the line ranges removed from the
/// bottom up.
pub fn apply_file_edits(source: &str, facts: &FileFacts, batch: &FileEditBatch) -> (r: Result<String, EditFailure>)
    requires
        imports_defined(source@, *facts, batch_view(*batch).imports),
    ensures
        match r {
            Ok(t) => file_edited(source@, *facts, batch_view(*batch)) == Ok::<Seq<char>, EditFailure>(t@),
            Err(e) => file_edited(source@, *facts, batch_view(*batch)) == Err::<Seq<char>, EditFailure>(e),
        },
{
    let ghost groups = batch_view(*batch).imports;
    let mut content = owned(source);
    let mut k: usize = 0;
    while k < batch.imports.len()
        invariant
            k <= batch.imports@.len(),
            groups == batch_view(*batch).imports,
            imports_defined(source@, *facts, groups),
            after_imports(source@, *facts, groups, k as int) == Ok::<Seq<char>, EditFailure>(content@),
        decreases batch.imports@.len() - k,
    {
        let span = batch.imports[k].0;
        let locals = &batch.imports[k].1;
        assert(groups[k as int] == (span, string_views(locals@)));
        assert(match after_imports(source@, *facts, groups, k as int) {
            Err(_) => true,
            Ok(c) => import_edit_defined(c, *facts, groups[k as int].0),
        });
        let ii = match import_with_span(facts, span) {
            None => {
                proof {
                    let e = EditFailure::MissingImport;
                    lemma_imports_stay_failed(source@, *facts, groups, k + 1, groups.len() as int, e);
                    let ls = sort_desc(batch_view(*batch).lines);
                    lemma_lines_stay_failed(Err(e), ls, 0, ls.len() as int, e);
                }
                return Err(EditFailure::MissingImport);
            }
            Some(ii) => ii,
        };
        let imp = &facts.imports[ii];
        content = match patch_import(content.as_str(), imp, locals) {
            Some(next) => next,
            None => match remove_line_range(content.as_str(), imp.span.start_line, imp.span.end_line) {
                Some(next) => next,
                None => {
                    proof {
                        let e = EditFailure::ImportRemoval { start: imp.span.start_line, end: imp.span.end_line };
                        lemma_imports_stay_failed(source@, *facts, groups, k + 1, groups.len() as int, e);
                        let ls = sort_desc(batch_view(*batch).lines);
                        lemma_lines_stay_failed(Err(e), ls, 0, ls.len() as int, e);
                    }
                    return Err(EditFailure::ImportRemoval { start: imp.span.start_line, end: imp.span.end_line });
                }
            },
        };
        k += 1;
    }
    let ls = sorted_desc(&batch.lines);
    let mut k: usize = 0;
    while k < ls.len()
        invariant
            k <= ls@.len(),
            ls@ == sort_desc(batch_view(*batch).lines),
            groups == batch_view(*batch).imports,
            after_lines(after_imports(source@, *facts, groups, groups.len() as int), ls@, k as int)
                == Ok::<Seq<char>, EditFailure>(content@),
        decreases ls@.len() - k,
    {
        let (start, end) = ls[k];
        content = match remove_line_range(content.as_str(), start, end) {
            Some(next) => next,
            None => {
                proof {
                    let e = EditFailure::LineRemoval { start, end };
                    let base = after_imports(source@, *facts, groups, groups.len() as int);
                    assert(ls@[k as int] == (start, end));
                    assert(after_lines(base, ls@, k + 1) == Err::<Seq<char>, EditFailure>(e));
                    lemma_lines_stay_failed(after_imports(source@, *facts, groups, groups.len() as int), ls@, k + 1, ls@.len() as int, e);
                    assert(file_edited(source@, *facts, batch_view(*batch)) == Err::<Seq<char>, EditFailure>(e));
                }
                return Err(EditFailure::LineRemoval { start, end });
            }
        };
        k += 1;
    }
    Ok(content)
}

/// Are all import edits of the batch defined on the text they reach?
/// (`apply_file_edits` asks it of its input.)
pub fn edits_defined(source: &str, facts: &FileFacts, batch: &FileEditBatch) -> (r: bool)
    ensures
        r == imports_defined(source@, *facts, batch_view(*batch).imports),
{
    let ghost groups = batch_view(*batch).imports;
    let mut content = owned(source);
    let mut k: usize = 0;
    while k < batch.imports.len()
        invariant
            k <= batch.imports@.len(),
            groups == batch_view(*batch).imports,
            after_imports(source@, *facts, groups, k as int) == Ok::<Seq<char>, EditFailure>(content@),
            forall|j: int| 0 <= j < k ==> match #[trigger] after_imports(source@, *facts, groups, j) {
                Err(_) => true,
                Ok(c) => import_edit_defined(c, *facts, groups[j].0),
            },
        decreases batch.imports@.len() - k,
    {
        let span = batch.imports[k].0;
        let locals = &batch.imports[k].1;
        assert(groups[k as int] == (span, string_views(locals@)));
        let ii = match import_with_span(facts, span) {
            None => {
                proof {
                    let e = EditFailure::MissingImport;
                    assert forall|j: int| 0 <= j < groups.len() implies match #[trigger] after_imports(source@, *facts, groups, j) {
                        Err(_) => true,
                        Ok(c) => import_edit_defined(c, *facts, groups[j].0),
                    } by {
                        if j > k {
                            lemma_imports_stay_failed(source@, *facts, groups, k + 1, j, e);
                        }
                    }
                }
                return true;
            }
            Some(ii) => ii,
        };
        let imp = &facts.imports[ii];
        if !crate::fix::import::import_patchable(content.as_str(), imp) {
            return false;
        }
        content = match patch_import(content.as_str(), imp, locals) {
            Some(next) => next,
            None => match remove_line_range(content.as_str(), imp.span.start_line, imp.span.end_line) {
                Some(next) => next,
                None => {
                    proof {
                        let e = EditFailure::ImportRemoval { start: imp.span.start_line, end: imp.span.end_line };
                        assert forall|j: int| 0 <= j < groups.len() implies match #[trigger] after_imports(source@, *facts, groups, j) {
                            Err(_) => true,
                            Ok(c) => import_edit_defined(c, *facts, groups[j].0),
                        } by {
                            if j > k {
                                lemma_imports_stay_failed(source@, *facts, groups, k + 1, j, e);
                            }
                        }
                    }
                    return true;
                }
            },
        };
        k += 1;
    }
    true
}

} // verus!
