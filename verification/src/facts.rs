//! Facts — the language-neutral contract emitted by the extract stage.

use vstd::prelude::*;
use crate::ids::{FileId, Language, Span};
use crate::text::{contains_str, has_str};

verus! {

/// What kind of definition a symbol is.
#[derive(Debug, Clone, Copy, PartialEq, Eq, Structural)]
pub enum SymbolKind {
    Function,
    Class,
    Method,
    Variable,
    /// TS `type`/`interface`/`enum` — feeds `unused-type`.
    Type,
    /// A member of a TS `enum` — feeds `unused-enum-member`.
    EnumMember,
    /// A class field / property — feeds `unused-class-member`.
    Field,
    /// An unused trailing parameter — feeds `unused-parameter`.
    Parameter,
}

/// A definition found in a file.
#[derive(Debug, Clone)]
pub struct RawSymbol {
    pub name: String,
    pub kind: SymbolKind,
    pub span: Span,
    pub exported: bool,
    pub is_type_only: bool,
    pub parent: Option<String>,
    pub visibility: Option<Visibility>,
}

/// A declared visibility intent, from an annotation comment.
#[derive(Debug, Clone, Copy, PartialEq, Eq, Structural)]
pub enum Visibility {
    /// Intentional public API — never report it as unused.
    Public,
    /// Internal-only — re-enable unused analysis even inside an entry file.
    Internal,
    /// Expected to be unused for now; report if it becomes used.
    ExpectedUnused,
}

/// An `@public` / `@internal` / `@expected-unused` annotation.
#[derive(Debug, Clone)]
pub struct Annotation {
    pub visibility: Visibility,
    /// 1-based line the annotation applies to.
    pub line: u32,
    pub reason: Option<String>,
}

/// How an import reaches a module.
#[derive(Debug, Clone, Copy, PartialEq, Eq, Structural)]
pub enum ImportKind {
    Static,
    Dynamic,
    Require,
}

/// A single name pulled in by an import.
#[derive(Debug, Clone)]
pub struct ImportedName {
    /// The name as exported by the source module.
    pub imported: String,
    /// The local binding in this file.
    pub local: String,
}

/// An unresolved import: the specifier string plus the names it binds.
#[derive(Debug, Clone)]
pub struct RawImport {
    pub specifier: String,
    pub names: Vec<ImportedName>,
    pub kind: ImportKind,
    pub is_namespace: bool,
    pub is_type_only: bool,
    /// Synthesized from an `export ... from` re-export.
    pub is_reexport: bool,
    pub span: Span,
}

#[derive(Debug, Clone, Copy, PartialEq, Eq, Structural)]
pub enum ExportKind {
    Named,
    Default,
    ReExportAll,
    ReExportNamed,
}

/// An exported name (or re-export) declared in a file.
#[derive(Debug, Clone)]
pub struct RawExport {
    pub name: String,
    pub kind: ExportKind,
    pub source: Option<String>,
    pub is_type_only: bool,
    pub span: Span,
}

/// A named CSS entity with its declaration span.
#[derive(Debug, Clone)]
pub struct CssName {
    pub name: String,
    pub span: Span,
}

/// Styling facts for the token/class-liveness passes.
#[derive(Debug, Clone)]
pub struct StyleFacts {
    pub declared_tokens: Vec<CssName>,
    pub var_refs: Vec<String>,
    pub class_selectors: Vec<CssName>,
    pub class_refs: Vec<String>,
}

/// The lexical class of a duplication token.
#[derive(Debug, Clone, Copy, PartialEq, Eq, Structural)]
pub enum TokKind {
    Ident,
    Num,
    Str,
    /// Keywords, operators, punctuation — always compared by exact text.
    Punct,
}

/// One duplication token: hash of its text, class, line, statement end.
#[derive(Debug, Clone, Copy)]
pub struct Tok {
    pub hash: u64,
    pub kind: TokKind,
    pub line: u32,
    pub stmt_end: bool,
}

/// A call site, recorded as its dotted callee path.
#[derive(Debug, Clone)]
pub struct CallSite {
    pub callee: String,
    pub span: Span,
}

/// An identifier used somewhere in the file.
#[derive(Debug, Clone)]
pub struct RawRef {
    pub name: String,
}

/// Facts the plugin engine consumes.
#[derive(Debug, Clone)]
pub enum Marker {
    /// A decorator applied to a symbol, as its full dotted name.
    Decorator { dotted: String, on_symbol: String },
    /// A non-literal dynamic import.
    UnresolvableDynamicImport,
    /// A string literal that looks like a dotted module path.
    ModuleStringLiteral { value: String },
}

/// A `noslop-ignore` suppression parsed from a comment.
#[derive(Debug, Clone)]
pub struct Suppression {
    pub rule: String,
    pub file_scoped: bool,
    pub line: u32,
    pub reason: Option<String>,
}

/// Cheap per-file metrics.
#[derive(Debug, Clone, Copy)]
pub struct FileMetrics {
    pub loc: u32,
}

/// Per-function complexity.
#[derive(Debug, Clone)]
pub struct FunctionMetrics {
    pub name: String,
    pub parent: Option<String>,
    pub span: Span,
    pub cyclomatic: u32,
    pub cognitive: u32,
    pub loc: u32,
}

/// Everything one file contributes to the graph.
#[derive(Debug, Clone)]
pub struct FileFacts {
    pub file: FileId,
    pub path: String,
    pub language: Language,
    pub content_hash: u64,
    pub symbols: Vec<RawSymbol>,
    pub imports: Vec<RawImport>,
    pub exports: Vec<RawExport>,
    pub refs: Vec<RawRef>,
    pub member_accesses: Vec<String>,
    pub markers: Vec<Marker>,
    pub suppressions: Vec<Suppression>,
    pub annotations: Vec<Annotation>,
    pub string_literals: Vec<String>,
    pub metrics: FileMetrics,
    pub functions: Vec<FunctionMetrics>,
    pub calls: Vec<CallSite>,
    pub style: StyleFacts,
}

impl FileFacts {
    pub open spec fn dynamic(&self) -> bool {
        exists|i: int| 0 <= i < self.markers@.len() && (#[trigger] self.markers@[i]) is UnresolvableDynamicImport
    }

    /// True if any marker should cap dead-code confidence for the package.
    pub fn has_unresolvable_dynamism(&self) -> (r: bool)
        ensures
            r == self.dynamic(),
    {
        let mut i: usize = 0;
        while i < self.markers.len()
            invariant
                i <= self.markers@.len(),
                forall|j: int| 0 <= j < i ==> !(#[trigger] self.markers@[j] is UnresolvableDynamicImport),
            decreases self.markers@.len() - i,
        {
            if let Marker::UnresolvableDynamicImport = &self.markers[i] {
                return true;
            }
            i += 1;
        }
        false
    }
}


// ── reconciling what a walk of one file collected ───────────────────────────

/// The symbols with those named in an export list marked exported.
pub open spec fn with_exports(s: Seq<RawSymbol>, names: Seq<String>) -> Seq<RawSymbol> {
    s.map_values(|x: RawSymbol| RawSymbol { exported: x.exported || has_str(names, x.name@), ..x })
}

/// The first symbol from `i` on that starts on `line` and has no declared
/// visibility yet, or -1.
pub open spec fn open_at(s: Seq<RawSymbol>, line: u32, i: int) -> int
    decreases s.len() - i,
{
    if i < 0 || i >= s.len() {
        -1
    } else if s[i].span.start_line == line && s[i].visibility is None {
        i
    } else {
        open_at(s, line, i + 1)
    }
}

/// The symbols with each annotation, in order, attached to the first symbol
/// starting on its line that has none yet (a floating tag attaches to
/// nothing).
pub open spec fn with_annotations(s: Seq<RawSymbol>, anns: Seq<Annotation>) -> Seq<RawSymbol>
    decreases anns.len(),
{
    if anns.len() == 0 {
        s
    } else {
        let t = with_annotations(s, anns.drop_last());
        let a = anns.last();
        let k = open_at(t, a.line, 0);
        if k < 0 {
            t
        } else {
            t.update(k, RawSymbol { visibility: Some(a.visibility), ..t[k] })
        }
    }
}

/// Marks the symbols named in an export list as exported, then attaches each
/// visibility annotation to the declaration directly below it.
pub fn reconcile_symbols(symbols: &mut Vec<RawSymbol>, exported_names: &Vec<String>, annotations: &Vec<Annotation>)
    ensures
        final(symbols)@ == with_annotations(with_exports(old(symbols)@, exported_names@), annotations@),
{
    let ghost base = with_exports(old(symbols)@, exported_names@);
    let mut i: usize = 0;
    while i < symbols.len()
        invariant
            i <= symbols@.len(),
            symbols@.len() == old(symbols)@.len(),
            base == with_exports(old(symbols)@, exported_names@),
            forall|j: int| 0 <= j < i ==> symbols@[j] == base[j],
            forall|j: int| i <= j < symbols@.len() ==> symbols@[j] == old(symbols)@[j],
        decreases symbols@.len() - i,
    {
        let mut x = symbols.remove(i);
        if contains_str(exported_names, x.name.as_str()) {
            x.exported = true;
        }
        symbols.insert(i, x);
        i += 1;
    }
    assert(symbols@ =~= base);
    let mut a: usize = 0;
    while a < annotations.len()
        invariant
            a <= annotations@.len(),
            symbols@ == with_annotations(base, annotations@.take(a as int)),
        decreases annotations@.len() - a,
    {
        let ann = &annotations[a];
        assert(annotations@.take(a + 1).drop_last() =~= annotations@.take(a as int));
        let ghost t = symbols@;
        let mut k: usize = 0;
        while k < symbols.len() && !(symbols[k].span.start_line == ann.line && symbols[k].visibility.is_none())
            invariant
                k <= symbols@.len(),
                t == symbols@,
                open_at(t, ann.line, 0) == open_at(t, ann.line, k as int),
            decreases symbols@.len() - k,
        {
            k += 1;
        }
        if k < symbols.len() {
            let mut x = symbols.remove(k);
            x.visibility = Some(ann.visibility);
            symbols.insert(k, x);
            assert(symbols@ =~= t.update(k as int, RawSymbol { visibility: Some(ann.visibility), ..t[k as int] }));
        }
        a += 1;
    }
    assert(annotations@.take(annotations@.len() as int) =~= annotations@);
}

} // verus!
