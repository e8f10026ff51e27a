//! What a walk of a TypeScript / JavaScript / TSX tree records: ESM imports
//! and exports in all their shapes, `export * from` chains (kept as namespace
//! imports so liveness passes through), `require` and `import()` (a literal
//! specifier is an import, any other caps confidence), declarations, private
//! class members, enum members, trailing unused parameters, member accesses,
//! JSX element names and class attributes, string literals, calls, and
//! suppression and annotation comments. Every identifier counts as a use.

use vstd::prelude::*;
use crate::comments::{annotation_in, suppression_of};
use crate::extract::nodes::{
    child_of_kind, child_of_kind_of, idents_below, idents_below_of, parent_kind, parent_kind_of, strip_hashes,
    strip_hashes_of, unquote, unquote_of, words, words_of,
};
use crate::extract::walk::{
    refs_of, append_facts, fact_views, names_view, opt_str, AnnotationView, ExportView, Fact, FactView, ImportView, MarkerView, SymbolView,
};
use crate::facts::{CallSite, ImportedName, Marker, RawExport, RawImport, RawSymbol};
use crate::ids::seq_starts_with;
use crate::order::string_views;
use crate::text::{chars_of, copy_string, owned, str_is};
use crate::facts::{ExportKind, ImportKind, SymbolKind};
use crate::fix::lines::lines;
use crate::ids::{starts_with, Span};
use crate::params::unused_trailing;
use crate::scan::{trim, trim_start};
use crate::syntax::{
    after_subtree, after_subtree_of, children, children_of, events_view, field_child, field_child_of, index_view,
    is_open_at, kind_at, kind_is, named_at, named_of, rows_fit, span_at, span_of, text_at, text_of, EventView,
    SyntaxEvent,
};

verus! {

pub open spec fn field_text(ev: Seq<EventView>, i: int, f: Seq<char>) -> Option<Seq<char>> {
    match field_child(ev, i, f) {
        Some(c) => Some(text_at(ev, c)),
        None => None,
    }
}

/// The (imported, local) names of the `kind` children (import or export
/// specifiers) among the first `n` of `cs`.
pub open spec fn specifier_names(ev: Seq<EventView>, cs: Seq<int>, kind: Seq<char>, n: int) -> Seq<(Seq<char>, Seq<char>)>
    decreases n,
{
    if n <= 0 {
        Seq::empty()
    } else {
        specifier_names(ev, cs, kind, n - 1) + {
            let c = cs[n - 1];
            if kind_at(ev, c) == kind {
                match field_text(ev, c, "name"@) {
                    Some(nm) => seq![(nm, match field_text(ev, c, "alias"@) { Some(a) => a, None => nm })],
                    None => Seq::empty(),
                }
            } else {
                Seq::empty()
            }
        }
    }
}

pub open spec fn specifiers(ev: Seq<EventView>, i: int, kind: Seq<char>) -> Seq<(Seq<char>, Seq<char>)> {
    specifier_names(ev, children(ev, i), kind, children(ev, i).len() as int)
}

/// The names an import clause binds, among its first `n` children.
pub open spec fn clause_names(ev: Seq<EventView>, cs: Seq<int>, n: int) -> Seq<(Seq<char>, Seq<char>)>
    decreases n,
{
    if n <= 0 {
        Seq::empty()
    } else {
        clause_names(ev, cs, n - 1) + {
            let c = cs[n - 1];
            if kind_at(ev, c) == "identifier"@ {
                seq![("default"@, text_at(ev, c))]
            } else if kind_at(ev, c) == "named_imports"@ {
                specifiers(ev, c, "import_specifier"@)
            } else {
                Seq::empty()
            }
        }
    }
}

pub open spec fn has_kind(ev: Seq<EventView>, cs: Seq<int>, kind: Seq<char>) -> bool {
    exists|k: int| 0 <= k < cs.len() && kind_at(ev, #[trigger] cs[k]) == kind
}

/// `import ... from '...'`.
pub open spec fn ts_import(ev: Seq<EventView>, i: int) -> Seq<FactView> {
    match field_child(ev, i, "source"@) {
        None => Seq::empty(),
        Some(s) => {
            let (names, ns) = match child_of_kind(ev, i, "import_clause"@) {
                Some(cl) => (clause_names(ev, children(ev, cl), children(ev, cl).len() as int),
                    has_kind(ev, children(ev, cl), "namespace_import"@)),
                None => (Seq::empty(), false),
            };
            seq![FactView::Import(ImportView {
                specifier: unquote(text_at(ev, s)),
                names,
                kind: ImportKind::Static,
                is_namespace: ns,
                is_type_only: starts_with(trim_start(text_at(ev, i)), "import type"@),
                is_reexport: false,
                span: span_at(ev, i),
            })]
        },
    }
}

/// The names a `variable_declarator` among the first `n` of `cs` binds to a
/// plain identifier.
pub open spec fn declarator_names(ev: Seq<EventView>, cs: Seq<int>, n: int) -> Seq<Seq<char>>
    decreases n,
{
    if n <= 0 {
        Seq::empty()
    } else {
        declarator_names(ev, cs, n - 1) + {
            let c = cs[n - 1];
            if kind_at(ev, c) == "variable_declarator"@ {
                match field_child(ev, c, "name"@) {
                    Some(nm) => if kind_at(ev, nm) == "identifier"@ { seq![text_at(ev, nm)] } else { Seq::empty() },
                    None => Seq::empty(),
                }
            } else {
                Seq::empty()
            }
        }
    }
}

/// The names a declaration introduces.
pub open spec fn declared_names(ev: Seq<EventView>, d: int) -> Seq<Seq<char>> {
    match field_text(ev, d, "name"@) {
        Some(n) => seq![n],
        None => declarator_names(ev, children(ev, d), children(ev, d).len() as int),
    }
}

pub open spec fn named_export(name: Seq<char>, type_only: bool, span: Span) -> FactView {
    FactView::Export(ExportView { name, kind: ExportKind::Named, source: None, is_type_only: type_only, span })
}

/// `export ...`: a re-export from another module is an import of it; a local
/// export list, `export default` and an exported declaration are exports.
pub open spec fn ts_export(ev: Seq<EventView>, i: int) -> Seq<FactView> {
    let span = span_at(ev, i);
    match field_child(ev, i, "source"@) {
        Some(s) => match child_of_kind(ev, i, "export_clause"@) {
            Some(cl) => seq![FactView::Import(ImportView {
                specifier: unquote(text_at(ev, s)),
                names: specifiers(ev, cl, "export_specifier"@),
                kind: ImportKind::Static,
                is_namespace: false,
                is_type_only: false,
                is_reexport: true,
                span,
            })],
            None => seq![FactView::Import(ImportView {
                specifier: unquote(text_at(ev, s)),
                names: Seq::empty(),
                kind: ImportKind::Static,
                is_namespace: true,
                is_type_only: false,
                is_reexport: true,
                span,
            })],
        },
        None => match child_of_kind(ev, i, "export_clause"@) {
            Some(cl) => specifiers(ev, cl, "export_specifier"@).map_values(
                |n: (Seq<char>, Seq<char>)| named_export(n.1, false, span)),
            None => (if starts_with(trim_start(text_at(ev, i)), "export default"@) {
                seq![FactView::Export(ExportView { name: "default"@, kind: ExportKind::Default, source: None, is_type_only: false, span })]
            } else {
                Seq::empty()
            }) + match field_child(ev, i, "declaration"@) {
                Some(d) => declared_names(ev, d).map_values(|n: Seq<char>| named_export(n,
                    kind_at(ev, d) == "interface_declaration"@ || kind_at(ev, d) == "type_alias_declaration"@,
                    span_at(ev, d))),
                None => Seq::empty(),
            },
        },
    }
}

/// The dotted path of a call target (`a.b.c`); empty for any other shape.
pub open spec fn member_dotted(ev: Seq<EventView>, n: int) -> Seq<char>
    decreases ev.len() - n,
{
    let k = kind_at(ev, n);
    if k == "identifier"@ || k == "this"@ || k == "super"@ || k == "property_identifier"@ {
        text_at(ev, n)
    } else if k == "member_expression"@ {
        match (field_child(ev, n, "object"@), field_child(ev, n, "property"@)) {
            (Some(o), Some(p)) => if kind_at(ev, p) == "property_identifier"@ && n < o < ev.len() {
                let base = member_dotted(ev, o);
                if base.len() == 0 { Seq::empty() } else { base + "."@ + text_at(ev, p) }
            } else {
                Seq::empty()
            },
            _ => Seq::empty(),
        }
    } else {
        Seq::empty()
    }
}

/// The first named node among `cs` from position `k`.
pub open spec fn first_named(ev: Seq<EventView>, cs: Seq<int>, k: int) -> Option<int>
    decreases cs.len() - k,
{
    if k < 0 || k >= cs.len() {
        None
    } else if named_at(ev, cs[k]) {
        Some(cs[k])
    } else {
        first_named(ev, cs, k + 1)
    }
}

/// A call: its callee path, and for `require('x')` / `import('x')` an import
/// (a dynamic import of anything but a literal is a marker instead).
pub open spec fn ts_call(ev: Seq<EventView>, i: int) -> Seq<FactView> {
    match field_child(ev, i, "function"@) {
        None => Seq::empty(),
        Some(f) => {
            let callee = member_dotted(ev, f);
            let req = kind_at(ev, f) == "identifier"@ && text_at(ev, f) == "require"@;
            let dynamic = kind_at(ev, f) == "import"@;
            let arg = match field_child(ev, i, "arguments"@) {
                Some(a) => first_named(ev, children(ev, a), 0),
                None => None,
            };
            (if callee.len() > 0 { seq![FactView::Call(callee, span_at(ev, i))] } else { Seq::empty() })
                + if !req && !dynamic {
                Seq::empty()
            } else {
                match arg {
                    Some(a) => if kind_at(ev, a) == "string"@ {
                        seq![FactView::Import(ImportView {
                            specifier: unquote(text_at(ev, a)),
                            names: seq![("default"@, "default"@)],
                            kind: if req { ImportKind::Require } else { ImportKind::Dynamic },
                            is_namespace: true,
                            is_type_only: false,
                            is_reexport: false,
                            span: span_at(ev, i),
                        })]
                    } else if dynamic {
                        seq![FactView::Mark(MarkerView::UnresolvableDynamicImport)]
                    } else {
                        Seq::empty()
                    },
                    None => if dynamic { seq![FactView::Mark(MarkerView::UnresolvableDynamicImport)] } else { Seq::empty() },
                }
            }
        },
    }
}

pub open spec fn plain_symbol(name: Seq<char>, kind: SymbolKind, span: Span, exported: bool, type_only: bool, parent: Option<Seq<char>>) -> FactView {
    FactView::Symbol(SymbolView { name, kind, span, exported, is_type_only: type_only, parent, visibility: None })
}

/// A named declaration, exported when it stands directly under `export`.
pub open spec fn ts_declare(ev: Seq<EventView>, i: int, kind: SymbolKind) -> Seq<FactView> {
    match field_text(ev, i, "name"@) {
        Some(n) => seq![plain_symbol(n, kind, span_at(ev, i), parent_kind(ev, i) == "export_statement"@,
            kind == SymbolKind::Type, None)],
        None => Seq::empty(),
    }
}

/// `const a = ..., b = ...`: each plainly named declarator a variable.
pub open spec fn ts_variables(ev: Seq<EventView>, i: int) -> Seq<FactView> {
    declarator_names(ev, children(ev, i), children(ev, i).len() as int).map_values(|n: Seq<char>|
        plain_symbol(n, SymbolKind::Variable, span_at(ev, i), parent_kind(ev, i) == "export_statement"@, false, None))
}

/// A constructor parameter property (`private x`, `readonly y`).
pub open spec fn param_property(ev: Seq<EventView>, p: int) -> bool {
    exists|k: int| 0 <= k < children(ev, p).len() && (kind_at(ev, #[trigger] children(ev, p)[k]) == "accessibility_modifier"@
        || trim(text_at(ev, children(ev, p)[k])) == "readonly"@)
}

/// The parameters among the first `n` of `cs`, in order: a plain name, or an
/// empty name for a pattern (a barrier).
pub open spec fn ts_ordered(ev: Seq<EventView>, cs: Seq<int>, n: int) -> Seq<(Seq<char>, Span)>
    decreases n,
{
    if n <= 0 {
        Seq::empty()
    } else {
        ts_ordered(ev, cs, n - 1) + {
            let c = cs[n - 1];
            if (kind_at(ev, c) == "required_parameter"@ || kind_at(ev, c) == "optional_parameter"@) && !param_property(ev, c) {
                match field_child(ev, c, "pattern"@) {
                    Some(pt) => if kind_at(ev, pt) == "identifier"@ { seq![(text_at(ev, pt), span_at(ev, c))] } else { seq![(Seq::empty(), span_at(ev, c))] },
                    None => seq![(Seq::empty(), span_at(ev, c))],
                }
            } else {
                Seq::empty()
            }
        }
    }
}

/// The trailing unused parameters of a function or method with a body.
pub open spec fn ts_params(ev: Seq<EventView>, i: int) -> Seq<FactView> {
    match (field_child(ev, i, "parameters"@), field_child(ev, i, "body"@)) {
        (Some(ps), Some(b)) => {
            let ordered = ts_ordered(ev, children(ev, ps), children(ev, ps).len() as int);
            let parent = field_text(ev, i, "name"@);
            if ordered.len() == 0 {
                Seq::empty()
            } else {
                unused_trailing(ordered, idents_below(ev, b, "identifier"@, "shorthand_property_identifier"@)).map_values(
                    |p: (Seq<char>, Span)| plain_symbol(p.0, SymbolKind::Parameter, p.1, false, false, parent))
            }
        },
        _ => Seq::empty(),
    }
}

/// A `#name` member or one with a `private` modifier.
pub open spec fn private_member(ev: Seq<EventView>, m: int, nn: int) -> bool {
    kind_at(ev, nn) == "private_property_identifier"@
        || exists|k: int| 0 <= k < children(ev, m).len() && kind_at(ev, #[trigger] children(ev, m)[k]) == "accessibility_modifier"@
            && text_at(ev, children(ev, m)[k]) == "private"@
}

/// The private members among the first `n` members `cs` of a class body.
pub open spec fn class_members(ev: Seq<EventView>, cs: Seq<int>, n: int, parent: Option<Seq<char>>) -> Seq<FactView>
    decreases n,
{
    if n <= 0 {
        Seq::empty()
    } else {
        class_members(ev, cs, n - 1, parent) + {
            let m = cs[n - 1];
            let kind = if kind_at(ev, m) == "method_definition"@ {
                Some(SymbolKind::Method)
            } else if kind_at(ev, m) == "public_field_definition"@ || kind_at(ev, m) == "field_definition"@ {
                Some(SymbolKind::Field)
            } else {
                None
            };
            match (kind, field_child(ev, m, "name"@)) {
                (Some(sk), Some(nn)) => {
                    let name = strip_hashes(text_at(ev, nn));
                    if !private_member(ev, m, nn) || name == "constructor"@ || name.len() == 0 {
                        Seq::empty()
                    } else {
                        seq![plain_symbol(name, sk, span_at(ev, m), false, false, parent)]
                    }
                },
                _ => Seq::empty(),
            }
        }
    }
}

pub open spec fn ts_class_members(ev: Seq<EventView>, i: int) -> Seq<FactView> {
    match field_child(ev, i, "body"@) {
        Some(b) => class_members(ev, children(ev, b), children(ev, b).len() as int, field_text(ev, i, "name"@)),
        None => Seq::empty(),
    }
}

/// The members among the first `n` entries `cs` of an enum body.
pub open spec fn enum_members(ev: Seq<EventView>, cs: Seq<int>, n: int, parent: Option<Seq<char>>) -> Seq<FactView>
    decreases n,
{
    if n <= 0 {
        Seq::empty()
    } else {
        enum_members(ev, cs, n - 1, parent) + {
            let m = cs[n - 1];
            let nn = if kind_at(ev, m) == "enum_assignment"@ {
                field_child(ev, m, "name"@)
            } else if kind_at(ev, m) == "property_identifier"@ {
                Some(m)
            } else {
                None
            };
            match nn {
                Some(x) => seq![plain_symbol(text_at(ev, x), SymbolKind::EnumMember, span_at(ev, m), false, false, parent)],
                None => Seq::empty(),
            }
        }
    }
}

pub open spec fn ts_enum_members(ev: Seq<EventView>, i: int) -> Seq<FactView> {
    match field_child(ev, i, "body"@) {
        Some(b) => enum_members(ev, children(ev, b), children(ev, b).len() as int, field_text(ev, i, "name"@)),
        None => Seq::empty(),
    }
}

/// A member access by name, `#` taken off; nothing for an empty name.
pub open spec fn member_fact(name: Seq<char>) -> Seq<FactView> {
    if strip_hashes(name).len() > 0 { seq![FactView::Member(strip_hashes(name))] } else { Seq::empty() }
}

/// The leading identifier of a JSX element name (`Foo` of `Foo.Bar`).
pub open spec fn root_identifier(ev: Seq<EventView>, n: int) -> Seq<char>
    decreases ev.len() - n,
{
    if kind_at(ev, n) == "member_expression"@ || kind_at(ev, n) == "jsx_member_expression"@ {
        match field_child(ev, n, "object"@) {
            Some(o) => if n < o < ev.len() { root_identifier(ev, o) } else { text_at(ev, n) },
            None => text_at(ev, n),
        }
    } else {
        text_at(ev, n)
    }
}

/// The classes in the string values among the first `n` children `cs` of a
/// `className` / `class` attribute.
pub open spec fn class_strings(ev: Seq<EventView>, cs: Seq<int>, n: int) -> Seq<FactView>
    decreases n,
{
    if n <= 0 {
        Seq::empty()
    } else {
        class_strings(ev, cs, n - 1) + if kind_at(ev, cs[n - 1]) == "string"@ {
            words(unquote(text_at(ev, cs[n - 1]))).map_values(|w: Seq<char>| FactView::ClassRef(w))
        } else {
            Seq::empty()
        }
    }
}

pub open spec fn ts_class_attribute(ev: Seq<EventView>, i: int) -> Seq<FactView> {
    let cs = children(ev, i);
    if cs.len() > 0 && (text_at(ev, cs[0]) == "className"@ || text_at(ev, cs[0]) == "class"@) {
        class_strings(ev, cs, cs.len() as int)
    } else {
        Seq::empty()
    }
}

/// A comment: the suppression it states for its own line, and the annotation
/// it states for the line after its last.
pub open spec fn comment_facts(ev: Seq<EventView>, i: int) -> Seq<FactView> {
    let t = text_at(ev, i);
    let sp = span_at(ev, i);
    (match suppression_of(t, sp.start_line as int) {
        Some(v) => seq![FactView::Suppress(v)],
        None => Seq::empty(),
    }) + match annotation_in(lines(t)) {
        Some(a) => seq![FactView::Annotate(AnnotationView { visibility: a.0, line: (sp.end_line + 1) as u32, reason: a.1 })],
        None => Seq::empty(),
    }
}

/// What the node opened at `i` itself records.
pub open spec fn ts_node(ev: Seq<EventView>, i: int) -> Seq<FactView> {
    let k = kind_at(ev, i);
    let t = text_at(ev, i);
    if k == "import_statement"@ {
        ts_import(ev, i)
    } else if k == "export_statement"@ {
        ts_export(ev, i)
    } else if k == "call_expression"@ {
        ts_call(ev, i)
    } else if k == "function_declaration"@ || k == "generator_function_declaration"@ {
        ts_declare(ev, i, SymbolKind::Function) + ts_params(ev, i)
    } else if k == "class_declaration"@ || k == "abstract_class_declaration"@ {
        ts_declare(ev, i, SymbolKind::Class) + ts_class_members(ev, i)
    } else if k == "method_definition"@ {
        ts_params(ev, i)
    } else if k == "interface_declaration"@ || k == "type_alias_declaration"@ {
        ts_declare(ev, i, SymbolKind::Type)
    } else if k == "enum_declaration"@ {
        ts_declare(ev, i, SymbolKind::Type) + ts_enum_members(ev, i)
    } else if k == "lexical_declaration"@ || k == "variable_declaration"@ {
        ts_variables(ev, i)
    } else if k == "member_expression"@ {
        match field_text(ev, i, "property"@) {
            Some(p) => member_fact(p),
            None => Seq::empty(),
        }
    } else if k == "identifier"@ || k == "type_identifier"@ {
        seq![FactView::Ref(t)]
    } else if k == "shorthand_property_identifier"@ {
        seq![FactView::Ref(t)] + member_fact(t)
    } else if k == "jsx_opening_element"@ || k == "jsx_self_closing_element"@ {
        match field_child(ev, i, "name"@) {
            Some(n) => seq![FactView::Ref(root_identifier(ev, n))],
            None => Seq::empty(),
        }
    } else if k == "jsx_attribute"@ {
        ts_class_attribute(ev, i)
    } else if k == "string_fragment"@ {
        seq![FactView::Str(t)]
    } else if k == "comment"@ {
        comment_facts(ev, i)
    } else {
        Seq::empty()
    }
}

/// What the walk records from step `i` on: each node in document order, the
/// inside of an import statement not visited.
pub open spec fn ts_from(ev: Seq<EventView>, i: int) -> Seq<FactView>
    decreases ev.len() - i,
{
    if i < 0 || i >= ev.len() {
        Seq::empty()
    } else {
        match ev[i] {
            EventView::Close => ts_from(ev, i + 1),
            EventView::Open { .. } => {
                let nx = if kind_at(ev, i) == "import_statement"@ { after_subtree(ev, i) } else { i + 1 };
                if nx <= i { Seq::empty() } else { ts_node(ev, i) + ts_from(ev, nx) }
            },
        }
    }
}

/// The names an import statement binds are not counted as uses: the walk
/// records the import and goes on after the statement, nothing inside it is
/// read as a reference.
pub proof fn law_imports_are_not_uses(ev: Seq<EventView>, i: int)
    requires
        0 <= i < ev.len(),
        ev[i] is Open,
        kind_at(ev, i) == "import_statement"@,
    ensures
        after_subtree(ev, i) > i,
        ts_from(ev, i) == ts_import(ev, i) + ts_from(ev, after_subtree(ev, i)),
        refs_of(ts_import(ev, i)) == Seq::<Seq<char>>::empty(),
{
    crate::syntax::lemma_close_from(ev, i + 1, 0);
    let t = ts_import(ev, i);
    if t.len() > 0 {
        assert(t.drop_last() =~= Seq::<FactView>::empty());
        assert(refs_of(t.drop_last()) =~= Seq::<Seq<char>>::empty());
    }
}

// ── reading the walk ────────────────────────────────────────────────────────

pub(crate) fn field_text_of(ev: &Vec<SyntaxEvent>, i: usize, f: &str) -> (r: Option<String>)
    requires
        i < ev@.len(),
    ensures
        opt_str(r) == field_text(events_view(ev@), i as int, f@),
{
    match field_child_of(ev, i, f) {
        Some(c) => Some(text_of(ev, c)),
        None => None,
    }
}

/// Does the text, leading whitespace skipped, start with `p`?
fn starts_after_ws(t: &String, p: &str) -> (r: bool)
    ensures
        r == starts_with(trim_start(t@), p@),
{
    let v = chars_of(t.as_str());
    let mut k: usize = 0;
    while k < v.len() && crate::scan::is_whitespace(v[k])
        invariant
            k <= v@.len(),
            v@ == t@,
            forall|q: int| 0 <= q < k ==> crate::scan::is_ws(v@[q]),
        decreases v@.len() - k,
    {
        k += 1;
    }
    proof { crate::scan::lemma_lead_ws(v@, k as int); }
    let rest = crate::path::slice_to_string(&v, k, v.len());
    assert(rest@ =~= trim_start(t@));
    seq_starts_with(&chars_of(rest.as_str()), p)
}

fn specifiers_of(ev: &Vec<SyntaxEvent>, i: usize, kind: &str) -> (r: Vec<ImportedName>)
    requires
        i < ev@.len(),
    ensures
        names_view(r@) == specifiers(events_view(ev@), i as int, kind@),
{
    let ghost evv = events_view(ev@);
    let cs = children_of(ev, i);
    let ghost cv = index_view(cs@);
    let mut out: Vec<ImportedName> = Vec::new();
    let mut n: usize = 0;
    while n < cs.len()
        invariant
            n <= cs@.len(),
            evv == events_view(ev@),
            cv == index_view(cs@),
            cv == children(evv, i as int),
            forall|q: int| 0 <= q < cs@.len() ==> i < #[trigger] cs@[q] < ev@.len(),
            names_view(out@) == specifier_names(evv, cv, kind@, n as int),
        decreases cs@.len() - n,
    {
        let c = cs[n];
        assert(cv[n as int] == c as int);
        let ghost before = out@;
        if kind_is(ev, c, kind) {
            match field_text_of(ev, c, "name") {
                Some(nm) => {
                    let local = match field_text_of(ev, c, "alias") {
                        Some(a) => a,
                        None => copy_string(&nm),
                    };
                    out.push(ImportedName { imported: nm, local });
                    assert(names_view(out@) =~= names_view(before) + specifier_names(evv, cv, kind@, n + 1).skip(names_view(before).len() as int));
                },
                None => {},
            }
        }
        assert(names_view(out@) =~= specifier_names(evv, cv, kind@, n + 1));
        n += 1;
    }
    out
}

fn import_facts(ev: &Vec<SyntaxEvent>, i: usize) -> (r: Vec<Fact>)
    requires
        i < ev@.len(),
        rows_fit(events_view(ev@)),
    ensures
        fact_views(r@) == ts_import(events_view(ev@), i as int),
{
    let ghost evv = events_view(ev@);
    let mut out: Vec<Fact> = Vec::new();
    let s = match field_child_of(ev, i, "source") {
        None => { return out; },
        Some(s) => s,
    };
    let mut names: Vec<ImportedName> = Vec::new();
    let mut ns = false;
    match child_of_kind_of(ev, i, "import_clause") {
        Some(cl) => {
            let cs = children_of(ev, cl);
            let ghost cv = index_view(cs@);
            let mut n: usize = 0;
            while n < cs.len()
                invariant
                    n <= cs@.len(),
                    evv == events_view(ev@),
                    cv == index_view(cs@),
                    cv == children(evv, cl as int),
                    forall|q: int| 0 <= q < cs@.len() ==> cl < #[trigger] cs@[q] < ev@.len(),
                    names_view(names@) == clause_names(evv, cv, n as int),
                    ns == exists|k: int| 0 <= k < n && kind_at(evv, #[trigger] cv[k]) == "namespace_import"@,
                decreases cs@.len() - n,
            {
                let c = cs[n];
                assert(cv[n as int] == c as int);
                let ghost before = names@;
                if kind_is(ev, c, "identifier") {
                    proof { reveal_strlit("default"); }
                    names.push(ImportedName { imported: owned("default"), local: text_of(ev, c) });
                    assert(names_view(names@) =~= clause_names(evv, cv, n + 1));
                } else if kind_is(ev, c, "named_imports") {
                    let more = specifiers_of(ev, c, "import_specifier");
                    let ghost mv = more@;
                    let mut more = more;
                    names.append(&mut more);
                    assert(names_view(names@) =~= names_view(before) + names_view(mv));
                } else {
                    assert(names_view(names@) =~= clause_names(evv, cv, n + 1));
                }
                if kind_is(ev, c, "namespace_import") {
                    ns = true;
                }
                n += 1;
            }
            assert(ns == has_kind(evv, children(evv, cl as int), "namespace_import"@));
        },
        None => {
            assert(names_view(names@) =~= Seq::<(Seq<char>, Seq<char>)>::empty());
        },
    }
    let t = text_of(ev, i);
    let type_only = starts_after_ws(&t, "import type");
    let imp = RawImport {
        specifier: unquote_of(&text_of(ev, s)),
        names,
        kind: ImportKind::Static,
        is_namespace: ns,
        is_type_only: type_only,
        is_reexport: false,
        span: span_of(ev, i),
    };
    out.push(Fact::Import(imp));
    assert(fact_views(out@) =~= ts_import(evv, i as int));
    out
}

fn declarator_names_of(ev: &Vec<SyntaxEvent>, d: usize) -> (r: Vec<String>)
    requires
        d < ev@.len(),
    ensures
        string_views(r@) == declarator_names(events_view(ev@), children(events_view(ev@), d as int), children(events_view(ev@), d as int).len() as int),
{
    let ghost evv = events_view(ev@);
    let cs = children_of(ev, d);
    let ghost cv = index_view(cs@);
    let mut out: Vec<String> = Vec::new();
    let mut n: usize = 0;
    while n < cs.len()
        invariant
            n <= cs@.len(),
            evv == events_view(ev@),
            cv == index_view(cs@),
            cv == children(evv, d as int),
            forall|q: int| 0 <= q < cs@.len() ==> d < #[trigger] cs@[q] < ev@.len(),
            string_views(out@) == declarator_names(evv, cv, n as int),
        decreases cs@.len() - n,
    {
        let c = cs[n];
        assert(cv[n as int] == c as int);
        let ghost before = out@;
        if kind_is(ev, c, "variable_declarator") {
            match field_child_of(ev, c, "name") {
                Some(nm) => {
                    if kind_is(ev, nm, "identifier") {
                        out.push(text_of(ev, nm));
                    }
                },
                None => {},
            }
        }
        assert(string_views(out@) =~= declarator_names(evv, cv, n + 1));
        n += 1;
    }
    out
}

fn declared_names_of(ev: &Vec<SyntaxEvent>, d: usize) -> (r: Vec<String>)
    requires
        d < ev@.len(),
    ensures
        string_views(r@) == declared_names(events_view(ev@), d as int),
{
    match field_text_of(ev, d, "name") {
        Some(n) => {
            let v = vec![n];
            assert(string_views(v@) =~= seq![v@[0]@]);
            v
        },
        None => declarator_names_of(ev, d),
    }
}

fn export_facts(ev: &Vec<SyntaxEvent>, i: usize) -> (r: Vec<Fact>)
    requires
        i < ev@.len(),
        rows_fit(events_view(ev@)),
    ensures
        fact_views(r@) == ts_export(events_view(ev@), i as int),
{
    let ghost evv = events_view(ev@);
    let span = span_of(ev, i);
    let mut out: Vec<Fact> = Vec::new();
    match field_child_of(ev, i, "source") {
        Some(s) => {
            let specifier = unquote_of(&text_of(ev, s));
            match child_of_kind_of(ev, i, "export_clause") {
                Some(cl) => {
                    let names = specifiers_of(ev, cl, "export_specifier");
                    out.push(Fact::Import(RawImport { specifier, names, kind: ImportKind::Static, is_namespace: false, is_type_only: false, is_reexport: true, span }));
                },
                None => {
                    let names: Vec<ImportedName> = Vec::new();
                    assert(names_view(names@) =~= Seq::<(Seq<char>, Seq<char>)>::empty());
                    out.push(Fact::Import(RawImport { specifier, names, kind: ImportKind::Static, is_namespace: true, is_type_only: false, is_reexport: true, span }));
                },
            }
            assert(fact_views(out@) =~= ts_export(evv, i as int));
        },
        None => match child_of_kind_of(ev, i, "export_clause") {
            Some(cl) => {
                let names = specifiers_of(ev, cl, "export_specifier");
                let ghost nv = names_view(names@);
                let mut k: usize = 0;
                while k < names.len()
                    invariant
                        k <= names@.len(),
                        nv == names_view(names@),
                        fact_views(out@) == nv.take(k as int).map_values(|n: (Seq<char>, Seq<char>)| named_export(n.1, false, span)),
                    decreases names@.len() - k,
                {
                    let ghost before = fact_views(out@);
                    assert(nv[k as int] == (names@[k as int].imported@, names@[k as int].local@));
                    out.push(Fact::Export(RawExport { name: copy_string(&names[k].local), kind: ExportKind::Named, source: None, is_type_only: false, span }));
                    assert(fact_views(out@) =~= before.push(named_export(nv[k as int].1, false, span)));
                    assert(nv.take(k + 1) =~= nv.take(k as int).push(nv[k as int]));
                    assert(fact_views(out@) =~= nv.take(k + 1).map_values(|n: (Seq<char>, Seq<char>)| named_export(n.1, false, span)));
                    k += 1;
                }
                assert(nv.take(k as int) =~= nv);
            },
            None => {
                let t = text_of(ev, i);
                if starts_after_ws(&t, "export default") {
                    proof { reveal_strlit("default"); }
                    out.push(Fact::Export(RawExport { name: owned("default"), kind: ExportKind::Default, source: None, is_type_only: false, span }));
                }
                let ghost head = fact_views(out@);
                match field_child_of(ev, i, "declaration") {
                    Some(d) => {
                        let names = declared_names_of(ev, d);
                        let ghost nv = string_views(names@);
                        let type_only = kind_is(ev, d, "interface_declaration") || kind_is(ev, d, "type_alias_declaration");
                        let dspan = span_of(ev, d);
                        let mut k: usize = 0;
                        while k < names.len()
                            invariant
                                k <= names@.len(),
                                nv == string_views(names@),
                                fact_views(out@) == head + nv.take(k as int).map_values(|n: Seq<char>| named_export(n, type_only, dspan)),
                            decreases names@.len() - k,
                        {
                            let ghost before = fact_views(out@);
                            assert(nv[k as int] == names@[k as int]@);
                            out.push(Fact::Export(RawExport { name: copy_string(&names[k]), kind: ExportKind::Named, source: None, is_type_only: type_only, span: dspan }));
                            assert(fact_views(out@) =~= before.push(named_export(nv[k as int], type_only, dspan)));
                            assert(nv.take(k + 1) =~= nv.take(k as int).push(nv[k as int]));
                            assert(fact_views(out@) =~= head + nv.take(k + 1).map_values(|n: Seq<char>| named_export(n, type_only, dspan)));
                            k += 1;
                        }
                        assert(nv.take(k as int) =~= nv);
                    },
                    None => {
                        assert(fact_views(out@) =~= head + Seq::<FactView>::empty());
                    },
                }
            },
        },
    }
    out
}

fn member_dotted_of(ev: &Vec<SyntaxEvent>, n: usize) -> (r: String)
    requires
        n < ev@.len(),
    ensures
        r@ == member_dotted(events_view(ev@), n as int),
    decreases ev@.len() - n,
{
    let ghost evv = events_view(ev@);
    if kind_is(ev, n, "identifier") || kind_is(ev, n, "this") || kind_is(ev, n, "super") || kind_is(ev, n, "property_identifier") {
        return text_of(ev, n);
    }
    proof { reveal_strlit(""); }
    if kind_is(ev, n, "member_expression") {
        match (field_child_of(ev, n, "object"), field_child_of(ev, n, "property")) {
            (Some(o), Some(p)) => {
                if kind_is(ev, p, "property_identifier") {
                    let base = member_dotted_of(ev, o);
                    if chars_of(base.as_str()).len() == 0 {
                        return owned("");
                    }
                    let mut out = chars_of(base.as_str());
                    out.push('.');
                    crate::text::push_str(&mut out, text_of(ev, p).as_str());
                    proof { reveal_strlit("."); }
                    assert(out@ =~= base@ + "."@ + text_at(evv, p as int));
                    return crate::text::string_from(out.as_slice());
                }
                owned("")
            },
            _ => owned(""),
        }
    } else {
        owned("")
    }
}

fn first_named_of(ev: &Vec<SyntaxEvent>, a: usize) -> (r: Option<usize>)
    requires
        a < ev@.len(),
    ensures
        match r {
            Some(c) => first_named(events_view(ev@), children(events_view(ev@), a as int), 0) == Some(c as int) && c < ev@.len(),
            None => first_named(events_view(ev@), children(events_view(ev@), a as int), 0) is None,
        },
{
    let ghost evv = events_view(ev@);
    let cs = children_of(ev, a);
    let ghost cv = index_view(cs@);
    let mut k: usize = 0;
    while k < cs.len()
        invariant
            k <= cs@.len(),
            evv == events_view(ev@),
            cv == index_view(cs@),
            cv == children(evv, a as int),
            forall|q: int| 0 <= q < cs@.len() ==> a < #[trigger] cs@[q] < ev@.len(),
            first_named(evv, cv, 0) == first_named(evv, cv, k as int),
        decreases cs@.len() - k,
    {
        assert(cv[k as int] == cs@[k as int] as int);
        if named_of(ev, cs[k]) {
            return Some(cs[k]);
        }
        k += 1;
    }
    None
}

fn call_facts(ev: &Vec<SyntaxEvent>, i: usize) -> (r: Vec<Fact>)
    requires
        i < ev@.len(),
        rows_fit(events_view(ev@)),
    ensures
        fact_views(r@) == ts_call(events_view(ev@), i as int),
{
    let ghost evv = events_view(ev@);
    let mut out: Vec<Fact> = Vec::new();
    let f = match field_child_of(ev, i, "function") {
        None => { return out; },
        Some(f) => f,
    };
    let callee = member_dotted_of(ev, f);
    let span = span_of(ev, i);
    if chars_of(callee.as_str()).len() > 0 {
        out.push(Fact::Call(CallSite { callee, span }));
    }
    let ghost head = fact_views(out@);
    let req = kind_is(ev, f, "identifier") && str_is(text_of(ev, f).as_str(), "require");
    let dynamic = kind_is(ev, f, "import");
    if !req && !dynamic {
        assert(fact_views(out@) =~= ts_call(evv, i as int));
        return out;
    }
    let arg = match field_child_of(ev, i, "arguments") {
        Some(a) => first_named_of(ev, a),
        None => None,
    };
    match arg {
        Some(a) => {
            if kind_is(ev, a, "string") {
                proof { reveal_strlit("default"); }
                let names = vec![ImportedName { imported: owned("default"), local: owned("default") }];
                assert(names_view(names@) =~= seq![("default"@, "default"@)]);
                out.push(Fact::Import(RawImport {
                    specifier: unquote_of(&text_of(ev, a)),
                    names,
                    kind: if req { ImportKind::Require } else { ImportKind::Dynamic },
                    is_namespace: true,
                    is_type_only: false,
                    is_reexport: false,
                    span,
                }));
            } else if dynamic {
                out.push(Fact::Mark(Marker::UnresolvableDynamicImport));
            }
        },
        None => {
            if dynamic {
                out.push(Fact::Mark(Marker::UnresolvableDynamicImport));
            }
        },
    }
    assert(fact_views(out@) =~= ts_call(evv, i as int));
    out
}

pub(crate) fn symbol(name: String, kind: SymbolKind, span: Span, exported: bool, type_only: bool, parent: Option<String>) -> (r: Fact)
    ensures
        r@ == plain_symbol(name@, kind, span, exported, type_only, opt_str(parent)),
{
    Fact::Symbol(RawSymbol { name, kind, span, exported, is_type_only: type_only, parent, visibility: None })
}

pub(crate) fn copy_opt(o: &Option<String>) -> (r: Option<String>)
    ensures
        opt_str(r) == opt_str(*o),
{
    match o {
        Some(s) => Some(copy_string(s)),
        None => None,
    }
}

fn is_exported_at(ev: &Vec<SyntaxEvent>, i: usize) -> (r: bool)
    requires
        i < ev@.len(),
    ensures
        r == (parent_kind(events_view(ev@), i as int) == "export_statement"@),
{
    str_is(parent_kind_of(ev, i).as_str(), "export_statement")
}

fn declare_facts(ev: &Vec<SyntaxEvent>, i: usize, kind: SymbolKind) -> (r: Vec<Fact>)
    requires
        i < ev@.len(),
        rows_fit(events_view(ev@)),
    ensures
        fact_views(r@) == ts_declare(events_view(ev@), i as int, kind),
{
    let mut out: Vec<Fact> = Vec::new();
    match field_text_of(ev, i, "name") {
        Some(n) => {
            let exported = is_exported_at(ev, i);
            let type_only = match kind { SymbolKind::Type => true, _ => false };
            out.push(symbol(n, kind, span_of(ev, i), exported, type_only, None));
            assert(fact_views(out@) =~= ts_declare(events_view(ev@), i as int, kind));
        },
        None => {},
    }
    out
}

fn variable_facts(ev: &Vec<SyntaxEvent>, i: usize) -> (r: Vec<Fact>)
    requires
        i < ev@.len(),
        rows_fit(events_view(ev@)),
    ensures
        fact_views(r@) == ts_variables(events_view(ev@), i as int),
{
    let names = declarator_names_of(ev, i);
    let ghost nv = string_views(names@);
    let exported = is_exported_at(ev, i);
    let span = span_of(ev, i);
    let mut out: Vec<Fact> = Vec::new();
    let mut k: usize = 0;
    while k < names.len()
        invariant
            k <= names@.len(),
            nv == string_views(names@),
            fact_views(out@) == nv.take(k as int).map_values(|n: Seq<char>| plain_symbol(n, SymbolKind::Variable, span, exported, false, None)),
        decreases names@.len() - k,
    {
        let ghost before = fact_views(out@);
        assert(nv[k as int] == names@[k as int]@);
        out.push(symbol(copy_string(&names[k]), SymbolKind::Variable, span, exported, false, None));
        assert(fact_views(out@) =~= before.push(plain_symbol(nv[k as int], SymbolKind::Variable, span, exported, false, None)));
        assert(nv.take(k + 1) =~= nv.take(k as int).push(nv[k as int]));
        k += 1;
    }
    assert(nv.take(k as int) =~= nv);
    out
}

fn param_property_of(ev: &Vec<SyntaxEvent>, p: usize) -> (r: bool)
    requires
        p < ev@.len(),
    ensures
        r == param_property(events_view(ev@), p as int),
{
    let ghost evv = events_view(ev@);
    let cs = children_of(ev, p);
    let ghost cv = index_view(cs@);
    let mut k: usize = 0;
    while k < cs.len()
        invariant
            k <= cs@.len(),
            evv == events_view(ev@),
            cv == index_view(cs@),
            cv == children(evv, p as int),
            forall|q: int| 0 <= q < cs@.len() ==> p < #[trigger] cs@[q] < ev@.len(),
            forall|q: int| 0 <= q < k ==> !(kind_at(evv, #[trigger] cv[q]) == "accessibility_modifier"@
                || trim(text_at(evv, cv[q])) == "readonly"@),
        decreases cs@.len() - k,
    {
        assert(cv[k as int] == cs@[k as int] as int);
        let t = chars_of(text_of(ev, cs[k]).as_str());
        let tt = crate::scan::trimmed(&t);
        if kind_is(ev, cs[k], "accessibility_modifier") || str_is(crate::text::string_from(tt.as_slice()).as_str(), "readonly") {
            return true;
        }
        k += 1;
    }
    false
}

fn ordered_params(ev: &Vec<SyntaxEvent>, ps: usize) -> (r: Vec<(String, Span)>)
    requires
        ps < ev@.len(),
        rows_fit(events_view(ev@)),
    ensures
        crate::params::params_view(r@) == ts_ordered(events_view(ev@), children(events_view(ev@), ps as int), children(events_view(ev@), ps as int).len() as int),
{
    let ghost evv = events_view(ev@);
    let cs = children_of(ev, ps);
    let ghost cv = index_view(cs@);
    let mut out: Vec<(String, Span)> = Vec::new();
    let mut n: usize = 0;
    while n < cs.len()
        invariant
            n <= cs@.len(),
            evv == events_view(ev@),
            rows_fit(evv),
            cv == index_view(cs@),
            cv == children(evv, ps as int),
            forall|q: int| 0 <= q < cs@.len() ==> ps < #[trigger] cs@[q] < ev@.len(),
            crate::params::params_view(out@) == ts_ordered(evv, cv, n as int),
        decreases cs@.len() - n,
    {
        let c = cs[n];
        assert(cv[n as int] == c as int);
        let ghost before = crate::params::params_view(out@);
        if (kind_is(ev, c, "required_parameter") || kind_is(ev, c, "optional_parameter")) && !param_property_of(ev, c) {
            let sp = span_of(ev, c);
            proof { reveal_strlit(""); }
            assert(""@ =~= Seq::<char>::empty());
            match field_child_of(ev, c, "pattern") {
                Some(pt) => {
                    if kind_is(ev, pt, "identifier") {
                        let t = text_of(ev, pt);
                        out.push((t, sp));
                        assert(crate::params::params_view(out@) =~= before.push((text_at(evv, pt as int), sp)));
                    } else {
                        out.push((owned(""), sp));
                        assert(crate::params::params_view(out@) =~= before.push((Seq::<char>::empty(), sp)));
                    }
                },
                None => {
                    out.push((owned(""), sp));
                    assert(crate::params::params_view(out@) =~= before.push((Seq::<char>::empty(), sp)));
                },
            }
        }
        assert(crate::params::params_view(out@) =~= ts_ordered(evv, cv, n + 1));
        n += 1;
    }
    out
}

fn param_facts(ev: &Vec<SyntaxEvent>, i: usize) -> (r: Vec<Fact>)
    requires
        i < ev@.len(),
        rows_fit(events_view(ev@)),
    ensures
        fact_views(r@) == ts_params(events_view(ev@), i as int),
{
    let ghost evv = events_view(ev@);
    let mut out: Vec<Fact> = Vec::new();
    let ps = match field_child_of(ev, i, "parameters") { Some(p) => p, None => { return out; } };
    let b = match field_child_of(ev, i, "body") { Some(b) => b, None => { return out; } };
    let ordered = ordered_params(ev, ps);
    let parent = field_text_of(ev, i, "name");
    if ordered.len() == 0 {
        assert(fact_views(out@) =~= ts_params(evv, i as int));
        return out;
    }
    let used = idents_below_of(ev, b, "identifier", "shorthand_property_identifier");
    let found = crate::params::unused_trailing_params(&ordered, &used);
    let ghost fv = crate::params::params_view(found@);
    let mut k: usize = 0;
    while k < found.len()
        invariant
            k <= found@.len(),
            fv == crate::params::params_view(found@),
            fact_views(out@) == fv.take(k as int).map_values(|p: (Seq<char>, Span)| plain_symbol(p.0, SymbolKind::Parameter, p.1, false, false, opt_str(parent))),
        decreases found@.len() - k,
    {
        let ghost before = fact_views(out@);
        assert(fv[k as int] == (found@[k as int].0@, found@[k as int].1));
        out.push(symbol(copy_string(&found[k].0), SymbolKind::Parameter, found[k].1, false, false, copy_opt(&parent)));
        assert(fact_views(out@) =~= before.push(plain_symbol(fv[k as int].0, SymbolKind::Parameter, fv[k as int].1, false, false, opt_str(parent))));
        assert(fv.take(k + 1) =~= fv.take(k as int).push(fv[k as int]));
        k += 1;
    }
    assert(fv.take(k as int) =~= fv);
    out
}

fn private_member_of(ev: &Vec<SyntaxEvent>, m: usize, nn: usize) -> (r: bool)
    requires
        m < ev@.len(),
        nn < ev@.len(),
    ensures
        r == private_member(events_view(ev@), m as int, nn as int),
{
    let ghost evv = events_view(ev@);
    if kind_is(ev, nn, "private_property_identifier") {
        return true;
    }
    let cs = children_of(ev, m);
    let ghost cv = index_view(cs@);
    let mut k: usize = 0;
    while k < cs.len()
        invariant
            k <= cs@.len(),
            evv == events_view(ev@),
            cv == index_view(cs@),
            cv == children(evv, m as int),
            forall|q: int| 0 <= q < cs@.len() ==> m < #[trigger] cs@[q] < ev@.len(),
            forall|q: int| 0 <= q < k ==> !(kind_at(evv, #[trigger] cv[q]) == "accessibility_modifier"@
                && text_at(evv, cv[q]) == "private"@),
        decreases cs@.len() - k,
    {
        assert(cv[k as int] == cs@[k as int] as int);
        if kind_is(ev, cs[k], "accessibility_modifier") && str_is(text_of(ev, cs[k]).as_str(), "private") {
            return true;
        }
        k += 1;
    }
    false
}

fn class_member_facts(ev: &Vec<SyntaxEvent>, i: usize) -> (r: Vec<Fact>)
    requires
        i < ev@.len(),
        rows_fit(events_view(ev@)),
    ensures
        fact_views(r@) == ts_class_members(events_view(ev@), i as int),
{
    let ghost evv = events_view(ev@);
    let mut out: Vec<Fact> = Vec::new();
    let b = match field_child_of(ev, i, "body") { Some(b) => b, None => { return out; } };
    let parent = field_text_of(ev, i, "name");
    let ghost pv = opt_str(parent);
    let cs = children_of(ev, b);
    let ghost cv = index_view(cs@);
    let mut n: usize = 0;
    while n < cs.len()
        invariant
            n <= cs@.len(),
            evv == events_view(ev@),
            rows_fit(evv),
            cv == index_view(cs@),
            cv == children(evv, b as int),
            pv == opt_str(parent),
            forall|q: int| 0 <= q < cs@.len() ==> b < #[trigger] cs@[q] < ev@.len(),
            fact_views(out@) == class_members(evv, cv, n as int, pv),
        decreases cs@.len() - n,
    {
        let m = cs[n];
        assert(cv[n as int] == m as int);
        let ghost before = fact_views(out@);
        let kind = if kind_is(ev, m, "method_definition") {
            Some(SymbolKind::Method)
        } else if kind_is(ev, m, "public_field_definition") || kind_is(ev, m, "field_definition") {
            Some(SymbolKind::Field)
        } else {
            None
        };
        match (kind, field_child_of(ev, m, "name")) {
            (Some(sk), Some(nn)) => {
                let name = strip_hashes_of(&text_of(ev, nn));
                if private_member_of(ev, m, nn) && !str_is(name.as_str(), "constructor") && chars_of(name.as_str()).len() > 0 {
                    out.push(symbol(name, sk, span_of(ev, m), false, false, copy_opt(&parent)));
                }
            },
            _ => {},
        }
        assert(fact_views(out@) =~= class_members(evv, cv, n + 1, pv));
        n += 1;
    }
    out
}

fn enum_member_facts(ev: &Vec<SyntaxEvent>, i: usize) -> (r: Vec<Fact>)
    requires
        i < ev@.len(),
        rows_fit(events_view(ev@)),
    ensures
        fact_views(r@) == ts_enum_members(events_view(ev@), i as int),
{
    let ghost evv = events_view(ev@);
    let mut out: Vec<Fact> = Vec::new();
    let b = match field_child_of(ev, i, "body") { Some(b) => b, None => { return out; } };
    let parent = field_text_of(ev, i, "name");
    let ghost pv = opt_str(parent);
    let cs = children_of(ev, b);
    let ghost cv = index_view(cs@);
    let mut n: usize = 0;
    while n < cs.len()
        invariant
            n <= cs@.len(),
            evv == events_view(ev@),
            rows_fit(evv),
            cv == index_view(cs@),
            cv == children(evv, b as int),
            pv == opt_str(parent),
            forall|q: int| 0 <= q < cs@.len() ==> b < #[trigger] cs@[q] < ev@.len(),
            fact_views(out@) == enum_members(evv, cv, n as int, pv),
        decreases cs@.len() - n,
    {
        let m = cs[n];
        assert(cv[n as int] == m as int);
        let nn = if kind_is(ev, m, "enum_assignment") {
            field_child_of(ev, m, "name")
        } else if kind_is(ev, m, "property_identifier") {
            Some(m)
        } else {
            None
        };
        match nn {
            Some(x) => {
                out.push(symbol(text_of(ev, x), SymbolKind::EnumMember, span_of(ev, m), false, false, copy_opt(&parent)));
            },
            None => {},
        }
        assert(fact_views(out@) =~= enum_members(evv, cv, n + 1, pv));
        n += 1;
    }
    out
}

pub(crate) fn member_fact_of(name: &String) -> (r: Vec<Fact>)
    ensures
        fact_views(r@) == member_fact(name@),
{
    let t = strip_hashes_of(name);
    let mut out: Vec<Fact> = Vec::new();
    if chars_of(t.as_str()).len() > 0 {
        out.push(Fact::Member(t));
    }
    assert(fact_views(out@) =~= member_fact(name@));
    out
}

fn root_identifier_of(ev: &Vec<SyntaxEvent>, n: usize) -> (r: String)
    requires
        n < ev@.len(),
    ensures
        r@ == root_identifier(events_view(ev@), n as int),
    decreases ev@.len() - n,
{
    if kind_is(ev, n, "member_expression") || kind_is(ev, n, "jsx_member_expression") {
        match field_child_of(ev, n, "object") {
            Some(o) => root_identifier_of(ev, o),
            None => text_of(ev, n),
        }
    } else {
        text_of(ev, n)
    }
}

fn class_attribute_facts(ev: &Vec<SyntaxEvent>, i: usize) -> (r: Vec<Fact>)
    requires
        i < ev@.len(),
    ensures
        fact_views(r@) == ts_class_attribute(events_view(ev@), i as int),
{
    let ghost evv = events_view(ev@);
    let mut out: Vec<Fact> = Vec::new();
    let cs = children_of(ev, i);
    let ghost cv = index_view(cs@);
    if cs.len() == 0 {
        return out;
    }
    assert(cv[0] == cs@[0] as int);
    let first = text_of(ev, cs[0]);
    if !(str_is(first.as_str(), "className") || str_is(first.as_str(), "class")) {
        return out;
    }
    let mut n: usize = 0;
    while n < cs.len()
        invariant
            n <= cs@.len(),
            evv == events_view(ev@),
            cv == index_view(cs@),
            forall|q: int| 0 <= q < cs@.len() ==> i < #[trigger] cs@[q] < ev@.len(),
            fact_views(out@) == class_strings(evv, cv, n as int),
        decreases cs@.len() - n,
    {
        let c = cs[n];
        assert(cv[n as int] == c as int);
        let ghost before = fact_views(out@);
        if kind_is(ev, c, "string") {
            let ws = words_of(&unquote_of(&text_of(ev, c)));
            let ghost wv = string_views(ws@);
            let mut k: usize = 0;
            while k < ws.len()
                invariant
                    k <= ws@.len(),
                    wv == string_views(ws@),
                    fact_views(out@) == before + wv.take(k as int).map_values(|w: Seq<char>| FactView::ClassRef(w)),
                decreases ws@.len() - k,
            {
                let ghost b2 = fact_views(out@);
                assert(wv[k as int] == ws@[k as int]@);
                out.push(Fact::ClassRef(copy_string(&ws[k])));
                assert(fact_views(out@) =~= b2.push(FactView::ClassRef(wv[k as int])));
                assert(wv.take(k + 1) =~= wv.take(k as int).push(wv[k as int]));
                k += 1;
            }
            assert(wv.take(k as int) =~= wv);
        }
        assert(fact_views(out@) =~= class_strings(evv, cv, n + 1));
        n += 1;
    }
    out
}

pub(crate) fn comment_facts_of(ev: &Vec<SyntaxEvent>, i: usize) -> (r: Vec<Fact>)
    requires
        i < ev@.len(),
        rows_fit(events_view(ev@)),
    ensures
        fact_views(r@) == comment_facts(events_view(ev@), i as int),
{
    let ghost evv = events_view(ev@);
    let t = text_of(ev, i);
    let sp = span_of(ev, i);
    assert(evv[i as int] == ev@[i as int]@);
    assert(rows_fit(evv) ==> match evv[i as int] {
        EventView::Open { start_row, end_row, .. } => start_row + 2 <= u32::MAX && end_row + 2 <= u32::MAX,
        EventView::Close => true,
    });
    let mut out: Vec<Fact> = Vec::new();
    match crate::comments::parse_suppression(t.as_str(), sp.start_line) {
        Some(s) => { out.push(Fact::Suppress(s)); },
        None => {},
    }
    let ghost head = fact_views(out@);
    assert(head =~= match suppression_of(t@, sp.start_line as int) { Some(v) => seq![FactView::Suppress(v)], None => Seq::<FactView>::empty() });
    match crate::comments::parse_annotation(t.as_str(), sp.end_line + 1) {
        Some(a) => { out.push(Fact::Annotate(a)); },
        None => {},
    }
    assert(fact_views(out@) =~= comment_facts(evv, i as int));
    out
}

pub(crate) fn one(f: Fact) -> (r: Vec<Fact>)
    ensures
        fact_views(r@) == seq![f@],
{
    let v = vec![f];
    assert(fact_views(v@) =~= seq![f@]);
    v
}

pub(crate) fn joined(a: Vec<Fact>, b: Vec<Fact>) -> (r: Vec<Fact>)
    ensures
        fact_views(r@) == fact_views(a@) + fact_views(b@),
{
    let mut a = a;
    append_facts(&mut a, b);
    a
}

pub(crate) fn none() -> (r: Vec<Fact>)
    ensures
        fact_views(r@) == Seq::<FactView>::empty(),
{
    let v: Vec<Fact> = Vec::new();
    assert(fact_views(v@) =~= Seq::<FactView>::empty());
    v
}

/// What the node opened at `i` itself records.
pub fn node_facts(ev: &Vec<SyntaxEvent>, i: usize) -> (r: Vec<Fact>)
    requires
        i < ev@.len(),
        rows_fit(events_view(ev@)),
    ensures
        fact_views(r@) == ts_node(events_view(ev@), i as int),
{
    let ghost evv = events_view(ev@);
    if kind_is(ev, i, "import_statement") {
        import_facts(ev, i)
    } else if kind_is(ev, i, "export_statement") {
        export_facts(ev, i)
    } else if kind_is(ev, i, "call_expression") {
        call_facts(ev, i)
    } else if kind_is(ev, i, "function_declaration") || kind_is(ev, i, "generator_function_declaration") {
        joined(declare_facts(ev, i, SymbolKind::Function), param_facts(ev, i))
    } else if kind_is(ev, i, "class_declaration") || kind_is(ev, i, "abstract_class_declaration") {
        joined(declare_facts(ev, i, SymbolKind::Class), class_member_facts(ev, i))
    } else if kind_is(ev, i, "method_definition") {
        param_facts(ev, i)
    } else if kind_is(ev, i, "interface_declaration") || kind_is(ev, i, "type_alias_declaration") {
        declare_facts(ev, i, SymbolKind::Type)
    } else if kind_is(ev, i, "enum_declaration") {
        joined(declare_facts(ev, i, SymbolKind::Type), enum_member_facts(ev, i))
    } else if kind_is(ev, i, "lexical_declaration") || kind_is(ev, i, "variable_declaration") {
        variable_facts(ev, i)
    } else if kind_is(ev, i, "member_expression") {
        match field_text_of(ev, i, "property") {
            Some(p) => member_fact_of(&p),
            None => none(),
        }
    } else if kind_is(ev, i, "identifier") || kind_is(ev, i, "type_identifier") {
        one(Fact::Ref(text_of(ev, i)))
    } else if kind_is(ev, i, "shorthand_property_identifier") {
        let t = text_of(ev, i);
        let m = member_fact_of(&t);
        joined(one(Fact::Ref(t)), m)
    } else if kind_is(ev, i, "jsx_opening_element") || kind_is(ev, i, "jsx_self_closing_element") {
        match field_child_of(ev, i, "name") {
            Some(n) => one(Fact::Ref(root_identifier_of(ev, n))),
            None => none(),
        }
    } else if kind_is(ev, i, "jsx_attribute") {
        class_attribute_facts(ev, i)
    } else if kind_is(ev, i, "string_fragment") {
        one(Fact::Str(text_of(ev, i)))
    } else if kind_is(ev, i, "comment") {
        comment_facts_of(ev, i)
    } else {
        none()
    }
}

/// What a walk of a script tree records, node by node in document order (the
/// inside of an import statement is not visited).
pub fn walk_facts(ev: &Vec<SyntaxEvent>) -> (r: Vec<Fact>)
    requires
        rows_fit(events_view(ev@)),
    ensures
        fact_views(r@) == ts_from(events_view(ev@), 0),
{
    let ghost evv = events_view(ev@);
    let mut out: Vec<Fact> = Vec::new();
    let mut i: usize = 0;
    while i < ev.len()
        invariant
            i <= ev@.len(),
            evv == events_view(ev@),
            rows_fit(evv),
            fact_views(out@) + ts_from(evv, i as int) == ts_from(evv, 0),
        decreases ev@.len() - i,
    {
        let ghost before = fact_views(out@);
        assert(evv[i as int] == ev@[i as int]@);
        if !is_open_at(ev, i) {
            i += 1;
        } else {
            let part = node_facts(ev, i);
            append_facts(&mut out, part);
            let nx = if kind_is(ev, i, "import_statement") { after_subtree_of(ev, i) } else { i + 1 };
            assert(fact_views(out@) + ts_from(evv, nx as int) =~= before + ts_from(evv, i as int));
            i = nx;
        }
    }
    assert(fact_views(out@) =~= fact_views(out@) + ts_from(evv, i as int));
    out
}

} // verus!
