//! What a walk over one file's syntax tree records, node by node, and how
//! those records become the file's facts.

use vstd::prelude::*;
use crate::comments::SuppressionView;
use crate::facts::{
    reconcile_symbols, with_annotations, with_exports, Annotation, CallSite, CssName, ExportKind, FileFacts,
    FileMetrics, FunctionMetrics, ImportKind, ImportedName, Marker, RawExport, RawImport, RawRef, RawSymbol,
    StyleFacts, Suppression, SymbolKind, Visibility,
};
use crate::ids::{Language, Span};
use crate::order::string_views;

verus! {

pub open spec fn opt_str(o: Option<String>) -> Option<Seq<char>> {
    match o {
        Some(s) => Some(s@),
        None => None,
    }
}

pub struct SymbolView {
    pub name: Seq<char>,
    pub kind: SymbolKind,
    pub span: Span,
    pub exported: bool,
    pub is_type_only: bool,
    pub parent: Option<Seq<char>>,
    pub visibility: Option<Visibility>,
}

pub open spec fn symbol_view(s: RawSymbol) -> SymbolView {
    SymbolView {
        name: s.name@,
        kind: s.kind,
        span: s.span,
        exported: s.exported,
        is_type_only: s.is_type_only,
        parent: opt_str(s.parent),
        visibility: s.visibility,
    }
}

pub open spec fn symbol_views(v: Seq<RawSymbol>) -> Seq<SymbolView> {
    v.map_values(|s: RawSymbol| symbol_view(s))
}

/// An imported name as (imported, local).
pub open spec fn names_view(v: Seq<ImportedName>) -> Seq<(Seq<char>, Seq<char>)> {
    v.map_values(|n: ImportedName| (n.imported@, n.local@))
}

pub struct ImportView {
    pub specifier: Seq<char>,
    pub names: Seq<(Seq<char>, Seq<char>)>,
    pub kind: ImportKind,
    pub is_namespace: bool,
    pub is_type_only: bool,
    pub is_reexport: bool,
    pub span: Span,
}

pub open spec fn import_view(i: RawImport) -> ImportView {
    ImportView {
        specifier: i.specifier@,
        names: names_view(i.names@),
        kind: i.kind,
        is_namespace: i.is_namespace,
        is_type_only: i.is_type_only,
        is_reexport: i.is_reexport,
        span: i.span,
    }
}

pub struct ExportView {
    pub name: Seq<char>,
    pub kind: ExportKind,
    pub source: Option<Seq<char>>,
    pub is_type_only: bool,
    pub span: Span,
}

pub open spec fn export_view(e: RawExport) -> ExportView {
    ExportView { name: e.name@, kind: e.kind, source: opt_str(e.source), is_type_only: e.is_type_only, span: e.span }
}

pub enum MarkerView {
    Decorator { dotted: Seq<char>, on_symbol: Seq<char> },
    UnresolvableDynamicImport,
    ModuleStringLiteral { value: Seq<char> },
}

pub open spec fn marker_view(m: Marker) -> MarkerView {
    match m {
        Marker::Decorator { dotted, on_symbol } => MarkerView::Decorator { dotted: dotted@, on_symbol: on_symbol@ },
        Marker::UnresolvableDynamicImport => MarkerView::UnresolvableDynamicImport,
        Marker::ModuleStringLiteral { value } => MarkerView::ModuleStringLiteral { value: value@ },
    }
}

pub open spec fn suppression_view(s: Suppression) -> SuppressionView {
    SuppressionView { rule: s.rule@, file_scoped: s.file_scoped, line: s.line as int, reason: opt_str(s.reason) }
}

pub struct AnnotationView {
    pub visibility: Visibility,
    pub line: u32,
    pub reason: Option<Seq<char>>,
}

pub open spec fn annotation_view(a: Annotation) -> AnnotationView {
    AnnotationView { visibility: a.visibility, line: a.line, reason: opt_str(a.reason) }
}

/// One record of a walk.
pub enum Fact {
    Symbol(RawSymbol),
    Import(RawImport),
    Export(RawExport),
    Ref(String),
    Member(String),
    Mark(Marker),
    Suppress(Suppression),
    Annotate(Annotation),
    Str(String),
    Call(CallSite),
    ClassRef(String),
}

pub enum FactView {
    Symbol(SymbolView),
    Import(ImportView),
    Export(ExportView),
    Ref(Seq<char>),
    Member(Seq<char>),
    Mark(MarkerView),
    Suppress(SuppressionView),
    Annotate(AnnotationView),
    Str(Seq<char>),
    Call(Seq<char>, Span),
    ClassRef(Seq<char>),
}

impl View for Fact {
    type V = FactView;

    open spec fn view(&self) -> FactView {
        match self {
            Fact::Symbol(s) => FactView::Symbol(symbol_view(*s)),
            Fact::Import(i) => FactView::Import(import_view(*i)),
            Fact::Export(e) => FactView::Export(export_view(*e)),
            Fact::Ref(s) => FactView::Ref(s@),
            Fact::Member(s) => FactView::Member(s@),
            Fact::Mark(m) => FactView::Mark(marker_view(*m)),
            Fact::Suppress(s) => FactView::Suppress(suppression_view(*s)),
            Fact::Annotate(a) => FactView::Annotate(annotation_view(*a)),
            Fact::Str(s) => FactView::Str(s@),
            Fact::Call(c) => FactView::Call(c.callee@, c.span),
            Fact::ClassRef(s) => FactView::ClassRef(s@),
        }
    }
}

pub open spec fn fact_views(v: Seq<Fact>) -> Seq<FactView> {
    v.map_values(|f: Fact| f@)
}

/// Appends `v` to `out`.
pub fn append_facts(out: &mut Vec<Fact>, v: Vec<Fact>)
    ensures
        fact_views(final(out)@) == fact_views(old(out)@) + fact_views(v@),
{
    let ghost base = fact_views(out@);
    let mut rest = v;
    let mut rev: Vec<Fact> = Vec::new();
    let ghost all = v@;
    while rest.len() > 0
        invariant
            rest@ == all.subrange(0, rest@.len() as int),
            rest@.len() <= all.len(),
            rev@.len() + rest@.len() == all.len(),
            forall|j: int| 0 <= j < rev@.len() ==> #[trigger] rev@[j]@ == all[all.len() - 1 - j]@,
        decreases rest@.len(),
    {
        let f = rest.pop().unwrap();
        rev.push(f);
    }
    let ghost start = out@.len();
    while rev.len() > 0
        invariant
            rev@.len() + out@.len() == start + all.len(),
            out@.len() >= start,
            fact_views(out@).subrange(0, start as int) == base,
            forall|j: int| 0 <= j < rev@.len() ==> #[trigger] rev@[j]@ == all[all.len() - 1 - j]@,
            forall|j: int| start <= j < out@.len() ==> #[trigger] out@[j]@ == all[j - start]@,
        decreases rev@.len(),
    {
        let x = rev.pop().unwrap();
        out.push(x);
        assert(fact_views(out@).subrange(0, start as int) =~= fact_views(out@.drop_last()).subrange(0, start as int));
    }
    assert(fact_views(out@) =~= base + fact_views(all));
}


pub open spec fn import_views(v: Seq<RawImport>) -> Seq<ImportView> {
    v.map_values(|i: RawImport| import_view(i))
}

pub open spec fn export_views(v: Seq<RawExport>) -> Seq<ExportView> {
    v.map_values(|e: RawExport| export_view(e))
}

pub open spec fn marker_views(v: Seq<Marker>) -> Seq<MarkerView> {
    v.map_values(|m: Marker| marker_view(m))
}

pub open spec fn suppression_views(v: Seq<Suppression>) -> Seq<SuppressionView> {
    v.map_values(|s: Suppression| suppression_view(s))
}

pub open spec fn annotation_views(v: Seq<Annotation>) -> Seq<AnnotationView> {
    v.map_values(|a: Annotation| annotation_view(a))
}

pub open spec fn call_views(v: Seq<CallSite>) -> Seq<(Seq<char>, Span)> {
    v.map_values(|c: CallSite| (c.callee@, c.span))
}

pub open spec fn ref_views(v: Seq<RawRef>) -> Seq<Seq<char>> {
    v.map_values(|r: RawRef| r.name@)
}

// What a walk recorded, by kind, in the order recorded.

pub open spec fn symbols_of(f: Seq<FactView>) -> Seq<SymbolView>
    decreases f.len(),
{
    if f.len() == 0 {
        Seq::empty()
    } else {
        symbols_of(f.drop_last()) + match f.last() {
            FactView::Symbol(s) => seq![s],
            _ => Seq::empty(),
        }
    }
}

pub open spec fn imports_of(f: Seq<FactView>) -> Seq<ImportView>
    decreases f.len(),
{
    if f.len() == 0 {
        Seq::empty()
    } else {
        imports_of(f.drop_last()) + match f.last() {
            FactView::Import(i) => seq![i],
            _ => Seq::empty(),
        }
    }
}

pub open spec fn exports_of(f: Seq<FactView>) -> Seq<ExportView>
    decreases f.len(),
{
    if f.len() == 0 {
        Seq::empty()
    } else {
        exports_of(f.drop_last()) + match f.last() {
            FactView::Export(e) => seq![e],
            _ => Seq::empty(),
        }
    }
}

pub open spec fn export_names_of(f: Seq<FactView>) -> Seq<Seq<char>>
    decreases f.len(),
{
    if f.len() == 0 {
        Seq::empty()
    } else {
        export_names_of(f.drop_last()) + match f.last() {
            FactView::Export(e) => seq![e.name],
            _ => Seq::empty(),
        }
    }
}

pub open spec fn refs_of(f: Seq<FactView>) -> Seq<Seq<char>>
    decreases f.len(),
{
    if f.len() == 0 {
        Seq::empty()
    } else {
        refs_of(f.drop_last()) + match f.last() {
            FactView::Ref(s) => seq![s],
            _ => Seq::empty(),
        }
    }
}

pub open spec fn members_of(f: Seq<FactView>) -> Seq<Seq<char>>
    decreases f.len(),
{
    if f.len() == 0 {
        Seq::empty()
    } else {
        members_of(f.drop_last()) + match f.last() {
            FactView::Member(s) => seq![s],
            _ => Seq::empty(),
        }
    }
}

pub open spec fn markers_of(f: Seq<FactView>) -> Seq<MarkerView>
    decreases f.len(),
{
    if f.len() == 0 {
        Seq::empty()
    } else {
        markers_of(f.drop_last()) + match f.last() {
            FactView::Mark(m) => seq![m],
            _ => Seq::empty(),
        }
    }
}

pub open spec fn suppressions_of(f: Seq<FactView>) -> Seq<SuppressionView>
    decreases f.len(),
{
    if f.len() == 0 {
        Seq::empty()
    } else {
        suppressions_of(f.drop_last()) + match f.last() {
            FactView::Suppress(s) => seq![s],
            _ => Seq::empty(),
        }
    }
}

pub open spec fn annotations_of(f: Seq<FactView>) -> Seq<AnnotationView>
    decreases f.len(),
{
    if f.len() == 0 {
        Seq::empty()
    } else {
        annotations_of(f.drop_last()) + match f.last() {
            FactView::Annotate(a) => seq![a],
            _ => Seq::empty(),
        }
    }
}

pub open spec fn strings_of(f: Seq<FactView>) -> Seq<Seq<char>>
    decreases f.len(),
{
    if f.len() == 0 {
        Seq::empty()
    } else {
        strings_of(f.drop_last()) + match f.last() {
            FactView::Str(s) => seq![s],
            _ => Seq::empty(),
        }
    }
}

pub open spec fn calls_of(f: Seq<FactView>) -> Seq<(Seq<char>, Span)>
    decreases f.len(),
{
    if f.len() == 0 {
        Seq::empty()
    } else {
        calls_of(f.drop_last()) + match f.last() {
            FactView::Call(c, sp) => seq![(c, sp)],
            _ => Seq::empty(),
        }
    }
}

pub open spec fn class_refs_of(f: Seq<FactView>) -> Seq<Seq<char>>
    decreases f.len(),
{
    if f.len() == 0 {
        Seq::empty()
    } else {
        class_refs_of(f.drop_last()) + match f.last() {
            FactView::ClassRef(s) => seq![s],
            _ => Seq::empty(),
        }
    }
}

/// The file's facts from what a walk recorded: each kind of record in the
/// order recorded; symbols marked exported where an export names them and
/// given the visibility an annotation on their first line states.
pub fn facts_from_walk(
    path: String,
    file: usize,
    language: Language,
    content_hash: u64,
    loc: u32,
    walk: Vec<Fact>,
    functions: Vec<FunctionMetrics>,
    css: (Vec<CssName>, Vec<String>, Vec<CssName>),
) -> (r: FileFacts)
    ensures
        r.file == file,
        r.path@ == path@,
        r.language == language,
        r.content_hash == content_hash,
        r.metrics.loc == loc,
        r.functions@ == functions@,
        r.style.declared_tokens@ == css.0@,
        r.style.var_refs@ == css.1@,
        r.style.class_selectors@ == css.2@,
        string_views(r.style.class_refs@) == class_refs_of(fact_views(walk@)),
        import_views(r.imports@) == imports_of(fact_views(walk@)),
        export_views(r.exports@) == exports_of(fact_views(walk@)),
        ref_views(r.refs@) == refs_of(fact_views(walk@)),
        string_views(r.member_accesses@) == members_of(fact_views(walk@)),
        marker_views(r.markers@) == markers_of(fact_views(walk@)),
        suppression_views(r.suppressions@) == suppressions_of(fact_views(walk@)),
        annotation_views(r.annotations@) == annotations_of(fact_views(walk@)),
        string_views(r.string_literals@) == strings_of(fact_views(walk@)),
        call_views(r.calls@) == calls_of(fact_views(walk@)),
        exists|s: Seq<RawSymbol>, n: Seq<String>| #[trigger] symbol_views(s) == symbols_of(fact_views(walk@))
            && #[trigger] string_views(n) == export_names_of(fact_views(walk@))
            && r.symbols@ == with_annotations(with_exports(s, n), r.annotations@),
{
    let ghost all = walk@;
    let ghost fv = fact_views(walk@);
    assert(all.len() == walk.len());
    let mut rest = walk;
    let mut rev: Vec<Fact> = Vec::new();
    while rest.len() > 0
        invariant
            rest@ == all.subrange(0, rest@.len() as int),
            rest@.len() <= all.len(),
            rev@.len() + rest@.len() == all.len(),
            forall|j: int| 0 <= j < rev@.len() ==> #[trigger] rev@[j]@ == all[all.len() - 1 - j]@,
        decreases rest@.len(),
    {
        let f = rest.pop().unwrap();
        rev.push(f);
    }
    let mut symbols: Vec<RawSymbol> = Vec::new();
    let mut imports: Vec<RawImport> = Vec::new();
    let mut exports: Vec<RawExport> = Vec::new();
    let mut names: Vec<String> = Vec::new();
    let mut refs: Vec<RawRef> = Vec::new();
    let mut members: Vec<String> = Vec::new();
    let mut markers: Vec<Marker> = Vec::new();
    let mut suppressions: Vec<Suppression> = Vec::new();
    let mut annotations: Vec<Annotation> = Vec::new();
    let mut strings: Vec<String> = Vec::new();
    let mut calls: Vec<CallSite> = Vec::new();
    let mut class_refs: Vec<String> = Vec::new();
    let mut k: usize = 0;
    assert(fv.take(0) =~= Seq::<FactView>::empty());
    while rev.len() > 0
        invariant
            rev@.len() + k == all.len(),
            all.len() <= usize::MAX,
            fv == fact_views(all),
            forall|j: int| 0 <= j < rev@.len() ==> #[trigger] rev@[j]@ == all[all.len() - 1 - j]@,
            symbol_views(symbols@) == symbols_of(fv.take(k as int)),
            import_views(imports@) == imports_of(fv.take(k as int)),
            export_views(exports@) == exports_of(fv.take(k as int)),
            string_views(names@) == export_names_of(fv.take(k as int)),
            ref_views(refs@) == refs_of(fv.take(k as int)),
            string_views(members@) == members_of(fv.take(k as int)),
            marker_views(markers@) == markers_of(fv.take(k as int)),
            suppression_views(suppressions@) == suppressions_of(fv.take(k as int)),
            annotation_views(annotations@) == annotations_of(fv.take(k as int)),
            string_views(strings@) == strings_of(fv.take(k as int)),
            call_views(calls@) == calls_of(fv.take(k as int)),
            string_views(class_refs@) == class_refs_of(fv.take(k as int)),
        decreases rev@.len(),
    {
        let f = rev.pop().unwrap();
        proof {
            let t = fv.take(k + 1);
            assert(t.drop_last() =~= fv.take(k as int));
            assert(t.last() == f@);
        }
        let ghost (s0, i0, e0, n0, r0, m0, k0, p0, a0, t0, c0, l0) =
            (symbols@, imports@, exports@, names@, refs@, members@, markers@, suppressions@, annotations@, strings@, calls@, class_refs@);
        match f {
            Fact::Symbol(x) => { symbols.push(x); assert(symbol_views(symbols@) =~= symbol_views(s0).push(symbol_view(x))); },
            Fact::Import(x) => { imports.push(x); assert(import_views(imports@) =~= import_views(i0).push(import_view(x))); },
            Fact::Export(x) => {
                names.push(crate::text::copy_string(&x.name));
                assert(string_views(names@) =~= string_views(n0).push(x.name@));
                exports.push(x);
                assert(export_views(exports@) =~= export_views(e0).push(export_view(x)));
            },
            Fact::Ref(x) => { refs.push(RawRef { name: x }); assert(ref_views(refs@) =~= ref_views(r0).push(x@)); },
            Fact::Member(x) => { members.push(x); assert(string_views(members@) =~= string_views(m0).push(x@)); },
            Fact::Mark(x) => { markers.push(x); assert(marker_views(markers@) =~= marker_views(k0).push(marker_view(x))); },
            Fact::Suppress(x) => { suppressions.push(x); assert(suppression_views(suppressions@) =~= suppression_views(p0).push(suppression_view(x))); },
            Fact::Annotate(x) => { annotations.push(x); assert(annotation_views(annotations@) =~= annotation_views(a0).push(annotation_view(x))); },
            Fact::Str(x) => { strings.push(x); assert(string_views(strings@) =~= string_views(t0).push(x@)); },
            Fact::Call(x) => { calls.push(x); assert(call_views(calls@) =~= call_views(c0).push((x.callee@, x.span))); },
            Fact::ClassRef(x) => { class_refs.push(x); assert(string_views(class_refs@) =~= string_views(l0).push(x@)); },
        }
        k += 1;
    }
    assert(fv.take(k as int) =~= fv);
    let ghost s_before = symbols@;
    reconcile_symbols(&mut symbols, &names, &annotations);
    assert(symbol_views(s_before) == symbols_of(fv) && string_views(names@) == export_names_of(fv)
        && symbols@ == with_annotations(with_exports(s_before, names@), annotations@));
    let (declared_tokens, var_refs, class_selectors) = css;
    FileFacts {
        file,
        path,
        language,
        content_hash,
        symbols,
        imports,
        exports,
        refs,
        member_accesses: members,
        markers,
        suppressions,
        annotations,
        string_literals: strings,
        metrics: FileMetrics { loc },
        functions,
        calls,
        style: StyleFacts { declared_tokens, var_refs, class_selectors, class_refs },
    }
}

} // verus!
