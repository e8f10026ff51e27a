//! What a walk of a Python tree records: `import x` and `from x import y`
//! (relative specifiers keep their leading dots), module-level definitions
//! (underscore names are not public) and `__all__`, decorators as dotted
//! names, underscore-private methods, trailing unused parameters of
//! module-level functions, attribute accesses, calls, identifiers, string
//! literals (a dotted-path one also as a marker), and suppression and
//! annotation comments.

use vstd::prelude::*;
use crate::extract::nodes::{idents_below, idents_below_of, parent_kind, parent_kind_of};
use crate::extract::typescript::{
    comment_facts, comment_facts_of, copy_opt, field_text, field_text_of, joined, member_fact, member_fact_of, none,
    one, plain_symbol, symbol,
};
use crate::extract::walk::append_facts;
use crate::extract::walk::{fact_views, names_view, opt_str, ExportView, Fact, FactView, ImportView, MarkerView};
use crate::facts::{CallSite, ExportKind, ImportKind, ImportedName, Marker, RawExport, RawImport, SymbolKind};
use crate::ids::{ends_with, starts_with, Span};
use crate::params::unused_trailing;
use crate::syntax::{
    after_subtree, after_subtree_of, children, children_of, events_view, field_child, field_child_of, index_view,
    is_open, is_open_at, kind_at, kind_is, named_at, named_of, rows_fit, span_at, span_of, text_at, text_of,
    EventView, SyntaxEvent,
};
use crate::text::{chars_of, copy_string, owned, str_is};

verus! {

/// What `char::is_alphanumeric` answers for `c`.
pub uninterp spec fn alphanumeric(c: char) -> bool;

/// `char::is_alphanumeric`: whether `c` has Unicode's Alphabetic or Numeric
/// property. Its answer depends on `c` alone, which `alphanumeric` names.
#[verifier::external_body]
fn is_alphanumeric(c: char) -> (r: bool)
    ensures
        r == alphanumeric(c),
{
    c.is_alphanumeric()
}

/// The text before the first `.` (all of it when there is none).
pub open spec fn first_segment(s: Seq<char>, k: int) -> Seq<char>
    decreases s.len() - k,
{
    if k < 0 || k >= s.len() { s } else if s[k] == '.' { s.take(k) } else { first_segment(s, k + 1) }
}

/// The modules an `import a.b as c, d` statement names, among the first `n`
/// children `cs`: (module, local name).
pub open spec fn plain_imports(ev: Seq<EventView>, cs: Seq<int>, n: int) -> Seq<(Seq<char>, Seq<char>)>
    decreases n,
{
    if n <= 0 {
        Seq::empty()
    } else {
        plain_imports(ev, cs, n - 1) + {
            let c = cs[n - 1];
            if kind_at(ev, c) == "dotted_name"@ || kind_at(ev, c) == "identifier"@ {
                seq![(text_at(ev, c), first_segment(text_at(ev, c), 0))]
            } else if kind_at(ev, c) == "aliased_import"@ {
                match field_text(ev, c, "name"@) {
                    Some(m) => seq![(m, match field_text(ev, c, "alias"@) { Some(a) => a, None => first_segment(m, 0) })],
                    None => Seq::empty(),
                }
            } else {
                Seq::empty()
            }
        }
    }
}

/// The namespace import of a module under a local name.
pub open spec fn module_import(m: (Seq<char>, Seq<char>), span: Span) -> FactView {
    FactView::Import(ImportView {
        specifier: m.0,
        names: seq![("*"@, m.1)],
        kind: ImportKind::Static,
        is_namespace: true,
        is_type_only: false,
        is_reexport: false,
        span,
    })
}

pub open spec fn py_import(ev: Seq<EventView>, i: int) -> Seq<FactView> {
    plain_imports(ev, children(ev, i), children(ev, i).len() as int).map_values(|m: (Seq<char>, Seq<char>)|
        module_import(m, span_at(ev, i)))
}

/// Whether an `import` keyword stands among the first `n` children `cs`.
pub open spec fn past_import(ev: Seq<EventView>, cs: Seq<int>, n: int) -> bool {
    exists|k: int| 0 <= k < n && kind_at(ev, #[trigger] cs[k]) == "import"@
}

/// The names a `from x import ...` statement binds, among its first `n` children.
pub open spec fn from_names(ev: Seq<EventView>, cs: Seq<int>, n: int) -> Seq<(Seq<char>, Seq<char>)>
    decreases n,
{
    if n <= 0 {
        Seq::empty()
    } else {
        from_names(ev, cs, n - 1) + {
            let c = cs[n - 1];
            if !past_import(ev, cs, n - 1) {
                Seq::empty()
            } else if kind_at(ev, c) == "dotted_name"@ || kind_at(ev, c) == "identifier"@ {
                seq![(text_at(ev, c), text_at(ev, c))]
            } else if kind_at(ev, c) == "aliased_import"@ {
                match field_text(ev, c, "name"@) {
                    Some(m) => seq![(m, match field_text(ev, c, "alias"@) { Some(a) => a, None => m })],
                    None => Seq::empty(),
                }
            } else {
                Seq::empty()
            }
        }
    }
}

pub open spec fn py_from_import(ev: Seq<EventView>, i: int) -> Seq<FactView> {
    let cs = children(ev, i);
    let spec = match field_text(ev, i, "module_name"@) { Some(m) => m, None => Seq::empty() };
    seq![FactView::Import(ImportView {
        specifier: if spec.len() == 0 { "."@ } else { spec },
        names: from_names(ev, cs, cs.len() as int),
        kind: ImportKind::Static,
        is_namespace: exists|k: int| 0 <= k < cs.len() && kind_at(ev, #[trigger] cs[k]) == "wildcard_import"@,
        is_type_only: false,
        is_reexport: false,
        span: span_at(ev, i),
    })]
}

/// An underscore-private name that is not a dunder.
pub open spec fn private_name(n: Seq<char>) -> bool {
    starts_with(n, "_"@) && !(starts_with(n, "__"@) && ends_with(n, "__"@))
}

/// A module-level definition; not public when its name is private.
pub open spec fn py_declare(ev: Seq<EventView>, i: int, kind: SymbolKind, depth: nat) -> Seq<FactView> {
    if depth != 0 {
        Seq::empty()
    } else {
        match field_text(ev, i, "name"@) {
            Some(n) => seq![plain_symbol(n, kind, span_at(ev, i), !private_name(n), false, None)],
            None => Seq::empty(),
        }
    }
}

/// The first `identifier` child among `cs` from position `k`.
pub open spec fn first_ident(ev: Seq<EventView>, cs: Seq<int>, k: int) -> Option<Seq<char>>
    decreases cs.len() - k,
{
    if k < 0 || k >= cs.len() {
        None
    } else if kind_at(ev, cs[k]) == "identifier"@ {
        Some(text_at(ev, cs[k]))
    } else {
        first_ident(ev, cs, k + 1)
    }
}

/// The parameters among the first `n` of `cs`: a name, or an empty name for
/// `*args` / `**kwargs` (a barrier).
pub open spec fn py_ordered(ev: Seq<EventView>, cs: Seq<int>, n: int) -> Seq<(Seq<char>, Span)>
    decreases n,
{
    if n <= 0 {
        Seq::empty()
    } else {
        py_ordered(ev, cs, n - 1) + {
            let p = cs[n - 1];
            let k = kind_at(ev, p);
            if k == "identifier"@ {
                seq![(text_at(ev, p), span_at(ev, p))]
            } else if k == "typed_parameter"@ || k == "default_parameter"@ || k == "typed_default_parameter"@ {
                match first_ident(ev, children(ev, p), 0) {
                    Some(nm) => seq![(nm, span_at(ev, p))],
                    None => Seq::empty(),
                }
            } else if k == "list_splat_pattern"@ || k == "dictionary_splat_pattern"@ {
                seq![(Seq::empty(), span_at(ev, p))]
            } else {
                Seq::empty()
            }
        }
    }
}

pub open spec fn receiverless(ps: Seq<(Seq<char>, Span)>) -> Seq<(Seq<char>, Span)> {
    if ps.len() > 0 && (ps[0].0 == "self"@ || ps[0].0 == "cls"@) { ps.drop_first() } else { ps }
}

/// The trailing unused parameters of an undecorated function.
pub open spec fn py_params(ev: Seq<EventView>, i: int) -> Seq<FactView> {
    if parent_kind(ev, i) == "decorated_definition"@ {
        Seq::empty()
    } else {
        match (field_child(ev, i, "parameters"@), field_child(ev, i, "body"@)) {
            (Some(ps), Some(b)) => {
                let ordered = receiverless(py_ordered(ev, children(ev, ps), children(ev, ps).len() as int));
                let parent = field_text(ev, i, "name"@);
                if ordered.len() == 0 {
                    Seq::empty()
                } else {
                    unused_trailing(ordered, idents_below(ev, b, "identifier"@, "identifier"@)).map_values(
                        |p: (Seq<char>, Span)| plain_symbol(p.0, SymbolKind::Parameter, p.1, false, false, parent))
                }
            },
            _ => Seq::empty(),
        }
    }
}

/// The private, undecorated methods among the first `n` statements `cs` of a
/// class body.
pub open spec fn py_members(ev: Seq<EventView>, cs: Seq<int>, n: int, parent: Option<Seq<char>>) -> Seq<FactView>
    decreases n,
{
    if n <= 0 {
        Seq::empty()
    } else {
        py_members(ev, cs, n - 1, parent) + {
            let st = cs[n - 1];
            if kind_at(ev, st) == "function_definition"@ {
                match field_text(ev, st, "name"@) {
                    Some(nm) => if private_name(nm) { seq![plain_symbol(nm, SymbolKind::Method, span_at(ev, st), false, false, parent)] } else { Seq::empty() },
                    None => Seq::empty(),
                }
            } else {
                Seq::empty()
            }
        }
    }
}

pub open spec fn py_class_members(ev: Seq<EventView>, i: int) -> Seq<FactView> {
    match field_child(ev, i, "body"@) {
        Some(b) => py_members(ev, children(ev, b), children(ev, b).len() as int, field_text(ev, i, "name"@)),
        None => Seq::empty(),
    }
}

/// The next named sibling scanned from step `j`.
pub open spec fn named_sibling(ev: Seq<EventView>, j: int) -> Option<int>
    decreases ev.len() - j,
{
    if !is_open(ev, j) {
        None
    } else if named_at(ev, j) {
        Some(j)
    } else {
        let nx = after_subtree(ev, j);
        if nx <= j { None } else { named_sibling(ev, nx) }
    }
}

/// A decorator's dotted name among its children from position `k`: a name
/// or attribute, or the function of a call.
pub open spec fn decorator_dotted(ev: Seq<EventView>, cs: Seq<int>, k: int) -> Seq<char>
    decreases cs.len() - k,
{
    if k < 0 || k >= cs.len() {
        Seq::empty()
    } else {
        let c = cs[k];
        let kc = kind_at(ev, c);
        if kc == "identifier"@ || kc == "dotted_name"@ || kc == "attribute"@ {
            text_at(ev, c)
        } else if kc == "call"@ && field_child(ev, c, "function"@) is Some {
            text_at(ev, field_child(ev, c, "function"@).unwrap())
        } else {
            decorator_dotted(ev, cs, k + 1)
        }
    }
}

pub open spec fn py_decorator(ev: Seq<EventView>, i: int) -> Seq<FactView> {
    let on = match named_sibling(ev, after_subtree(ev, i)) {
        Some(s) => match field_text(ev, s, "name"@) { Some(n) => n, None => Seq::empty() },
        None => Seq::empty(),
    };
    let dotted = decorator_dotted(ev, children(ev, i), 0);
    if dotted.len() > 0 { seq![FactView::Mark(MarkerView::Decorator { dotted, on_symbol: on })] } else { Seq::empty() }
}

/// The first `string_content` child among `cs` from position `k`.
pub open spec fn string_content(ev: Seq<EventView>, cs: Seq<int>, k: int) -> Option<Seq<char>>
    decreases cs.len() - k,
{
    if k < 0 || k >= cs.len() {
        None
    } else if kind_at(ev, cs[k]) == "string_content"@ {
        Some(text_at(ev, cs[k]))
    } else {
        string_content(ev, cs, k + 1)
    }
}

/// The names listed in `__all__ = [...]` among the first `n` children `cs` of its value.
pub open spec fn all_names(ev: Seq<EventView>, cs: Seq<int>, n: int) -> Seq<Seq<char>>
    decreases n,
{
    if n <= 0 {
        Seq::empty()
    } else {
        all_names(ev, cs, n - 1) + if kind_at(ev, cs[n - 1]) == "string"@ {
            match string_content(ev, children(ev, cs[n - 1]), 0) { Some(s) => seq![s], None => Seq::empty() }
        } else {
            Seq::empty()
        }
    }
}

/// A module-level `__all__ = [...]`: each listed name an export.
pub open spec fn py_assignment(ev: Seq<EventView>, i: int, depth: nat) -> Seq<FactView> {
    if depth != 0 || field_text(ev, i, "left"@) != Some("__all__"@) {
        Seq::empty()
    } else {
        match field_child(ev, i, "right"@) {
            Some(r) => all_names(ev, children(ev, r), children(ev, r).len() as int).map_values(|n: Seq<char>|
                FactView::Export(ExportView { name: n, kind: ExportKind::Named, source: None, is_type_only: false, span: span_at(ev, i) })),
            None => Seq::empty(),
        }
    }
}

/// The dotted callee path (`os.path.join`); empty for any other shape.
pub open spec fn py_dotted(ev: Seq<EventView>, n: int) -> Seq<char>
    decreases ev.len() - n,
{
    if kind_at(ev, n) == "identifier"@ {
        text_at(ev, n)
    } else if kind_at(ev, n) == "attribute"@ {
        match (field_child(ev, n, "object"@), field_child(ev, n, "attribute"@)) {
            (Some(o), Some(a)) => if n < o < ev.len() {
                let base = py_dotted(ev, o);
                if base.len() == 0 { Seq::empty() } else { base + "."@ + text_at(ev, a) }
            } else {
                Seq::empty()
            },
            _ => Seq::empty(),
        }
    } else {
        Seq::empty()
    }
}

/// A non-empty segment of word characters (letters, digits, `_`).
pub open spec fn word_segment(s: Seq<char>) -> bool {
    s.len() > 0 && forall|k: int| 0 <= k < s.len() ==> alphanumeric(#[trigger] s[k]) || s[k] == '_'
}

/// Every `.`-separated segment from `k` on (the current one starting at
/// `from`) is a word segment.
pub open spec fn segments_ok(s: Seq<char>, from: int, k: int) -> bool
    decreases s.len() - k,
{
    if k < from || k > s.len() || from < 0 {
        false
    } else if k == s.len() {
        word_segment(s.subrange(from, k))
    } else if s[k] == '.' {
        word_segment(s.subrange(from, k)) && segments_ok(s, k + 1, k + 1)
    } else {
        segments_ok(s, from, k + 1)
    }
}

/// A string that looks like a dotted module path (`a.b.c`).
pub open spec fn looks_dotted(s: Seq<char>) -> bool {
    s.contains('.') && segments_ok(s, 0, 0)
}

/// What the node opened at `i`, at definition depth `depth`, itself records.
pub open spec fn py_node(ev: Seq<EventView>, i: int, depth: nat) -> Seq<FactView> {
    let k = kind_at(ev, i);
    let t = text_at(ev, i);
    if k == "import_statement"@ {
        py_import(ev, i)
    } else if k == "import_from_statement"@ {
        py_from_import(ev, i)
    } else if k == "function_definition"@ {
        py_declare(ev, i, SymbolKind::Function, depth) + if depth == 0 { py_params(ev, i) } else { Seq::empty() }
    } else if k == "class_definition"@ {
        py_declare(ev, i, SymbolKind::Class, depth) + if depth == 0 { py_class_members(ev, i) } else { Seq::empty() }
    } else if k == "decorator"@ {
        py_decorator(ev, i)
    } else if k == "assignment"@ {
        py_assignment(ev, i, depth)
    } else if k == "attribute"@ {
        match field_text(ev, i, "attribute"@) {
            Some(a) => member_fact(a),
            None => Seq::empty(),
        }
    } else if k == "call"@ {
        match field_child(ev, i, "function"@) {
            Some(f) => if py_dotted(ev, f).len() > 0 { seq![FactView::Call(py_dotted(ev, f), span_at(ev, i))] } else { Seq::empty() },
            None => Seq::empty(),
        }
    } else if k == "identifier"@ {
        seq![FactView::Ref(t)]
    } else if k == "string_content"@ {
        (if looks_dotted(t) { seq![FactView::Mark(MarkerView::ModuleStringLiteral { value: t })] } else { Seq::empty() })
            + seq![FactView::Str(t)]
    } else if k == "comment"@ {
        comment_facts(ev, i)
    } else {
        Seq::empty()
    }
}

pub open spec fn is_def(ev: Seq<EventView>, i: int) -> bool {
    kind_at(ev, i) == "function_definition"@ || kind_at(ev, i) == "class_definition"@
}

/// How many of the open nodes are definitions.
pub open spec fn depth_of(open: Seq<bool>) -> nat
    decreases open.len(),
{
    if open.len() == 0 { 0 } else { depth_of(open.drop_last()) + if open.last() { 1nat } else { 0nat } }
}

/// What the walk records from step `i` on, with `open` the nodes entered and
/// not yet left (whether each is a definition); an import statement's inside
/// is not visited.
pub open spec fn py_from(ev: Seq<EventView>, i: int, open: Seq<bool>) -> Seq<FactView>
    decreases ev.len() - i,
{
    if i < 0 || i >= ev.len() {
        Seq::empty()
    } else {
        match ev[i] {
            EventView::Close => py_from(ev, i + 1, if open.len() > 0 { open.drop_last() } else { open }),
            EventView::Open { .. } => {
                let k = kind_at(ev, i);
                if k == "import_statement"@ || k == "import_from_statement"@ {
                    let nx = after_subtree(ev, i);
                    if nx <= i { Seq::empty() } else { py_node(ev, i, depth_of(open)) + py_from(ev, nx, open) }
                } else {
                    py_node(ev, i, depth_of(open)) + py_from(ev, i + 1, open.push(is_def(ev, i)))
                }
            },
        }
    }
}

fn first_segment_of(s: &String) -> (r: String)
    ensures
        r@ == first_segment(s@, 0),
{
    let v = chars_of(s.as_str());
    let mut k: usize = 0;
    while k < v.len() && v[k] != '.'
        invariant
            k <= v@.len(),
            v@ == s@,
            first_segment(s@, 0) == first_segment(s@, k as int),
        decreases v@.len() - k,
    {
        k += 1;
    }
    if k < v.len() {
        crate::path::slice_to_string(&v, 0, k)
    } else {
        copy_string(s)
    }
}

fn import_facts(ev: &Vec<SyntaxEvent>, i: usize) -> (r: Vec<Fact>)
    requires
        i < ev@.len(),
        rows_fit(events_view(ev@)),
    ensures
        fact_views(r@) == py_import(events_view(ev@), i as int),
{
    let ghost evv = events_view(ev@);
    let span = span_of(ev, i);
    let cs = children_of(ev, i);
    let ghost cv = index_view(cs@);
    let mut out: Vec<Fact> = Vec::new();
    let mut n: usize = 0;
    proof { reveal_strlit("*"); }
    while n < cs.len()
        invariant
            n <= cs@.len(),
            evv == events_view(ev@),
            cv == index_view(cs@),
            cv == children(evv, i as int),
            span == span_at(evv, i as int),
            forall|q: int| 0 <= q < cs@.len() ==> i < #[trigger] cs@[q] < ev@.len(),
            fact_views(out@) == plain_imports(evv, cv, n as int).map_values(|m: (Seq<char>, Seq<char>)| module_import(m, span)),
        decreases cs@.len() - n,
    {
        let c = cs[n];
        assert(cv[n as int] == c as int);
        let ghost before = fact_views(out@);
        let item: Option<(String, String)> = if kind_is(ev, c, "dotted_name") || kind_is(ev, c, "identifier") {
            let t = text_of(ev, c);
            let l = first_segment_of(&t);
            Some((t, l))
        } else if kind_is(ev, c, "aliased_import") {
            match field_text_of(ev, c, "name") {
                Some(m) => {
                    let l = match field_text_of(ev, c, "alias") { Some(a) => a, None => first_segment_of(&m) };
                    Some((m, l))
                },
                None => None,
            }
        } else {
            None
        };
        match item {
            Some((m, l)) => {
                let ghost mv = (m@, l@);
                let names = vec![ImportedName { imported: owned("*"), local: l }];
                assert(names_view(names@) =~= seq![("*"@, mv.1)]);
                out.push(Fact::Import(RawImport { specifier: m, names, kind: ImportKind::Static, is_namespace: true, is_type_only: false, is_reexport: false, span }));
                assert(fact_views(out@) =~= before.push(module_import(mv, span)));
                assert(plain_imports(evv, cv, n + 1) =~= plain_imports(evv, cv, n as int).push(mv));
            },
            None => {
                assert(plain_imports(evv, cv, n + 1) =~= plain_imports(evv, cv, n as int));
            },
        }
        assert(plain_imports(evv, cv, n + 1).map_values(|m: (Seq<char>, Seq<char>)| module_import(m, span)) =~= fact_views(out@));
        n += 1;
    }
    out
}

fn from_import_facts(ev: &Vec<SyntaxEvent>, i: usize) -> (r: Vec<Fact>)
    requires
        i < ev@.len(),
        rows_fit(events_view(ev@)),
    ensures
        fact_views(r@) == py_from_import(events_view(ev@), i as int),
{
    let ghost evv = events_view(ev@);
    let cs = children_of(ev, i);
    let ghost cv = index_view(cs@);
    let mut names: Vec<ImportedName> = Vec::new();
    let mut wildcard = false;
    let mut past = false;
    let mut n: usize = 0;
    while n < cs.len()
        invariant
            n <= cs@.len(),
            evv == events_view(ev@),
            cv == index_view(cs@),
            cv == children(evv, i as int),
            forall|q: int| 0 <= q < cs@.len() ==> i < #[trigger] cs@[q] < ev@.len(),
            names_view(names@) == from_names(evv, cv, n as int),
            past == past_import(evv, cv, n as int),
            wildcard == exists|k: int| 0 <= k < n && kind_at(evv, #[trigger] cv[k]) == "wildcard_import"@,
        decreases cs@.len() - n,
    {
        let c = cs[n];
        assert(cv[n as int] == c as int);
        let ghost before = names_view(names@);
        if past {
            if kind_is(ev, c, "dotted_name") || kind_is(ev, c, "identifier") {
                let t = text_of(ev, c);
                names.push(ImportedName { imported: copy_string(&t), local: t });
            } else if kind_is(ev, c, "aliased_import") {
                match field_text_of(ev, c, "name") {
                    Some(m) => {
                        let l = match field_text_of(ev, c, "alias") { Some(a) => a, None => copy_string(&m) };
                        names.push(ImportedName { imported: m, local: l });
                    },
                    None => {},
                }
            }
        }
        assert(names_view(names@) =~= from_names(evv, cv, n + 1));
        if kind_is(ev, c, "import") {
            past = true;
        }
        if kind_is(ev, c, "wildcard_import") {
            wildcard = true;
        }
        proof {
            if !past {
                assert forall|k: int| 0 <= k < n + 1 implies kind_at(evv, #[trigger] cv[k]) != "import"@ by {
                    if k < n {
                        assert(!past_import(evv, cv, n as int));
                    }
                }
            }
        }
        n += 1;
    }
    let spec = match field_text_of(ev, i, "module_name") { Some(m) => m, None => { proof { reveal_strlit(""); } owned("") } };
    proof { reveal_strlit("."); reveal_strlit(""); }
    let specifier = if chars_of(spec.as_str()).len() == 0 { owned(".") } else { spec };
    let span = span_of(ev, i);
    let out = one(Fact::Import(RawImport { specifier, names, kind: ImportKind::Static, is_namespace: wildcard, is_type_only: false, is_reexport: false, span }));
    assert(fact_views(out@) =~= py_from_import(evv, i as int));
    out
}

fn private_name_of(n: &String) -> (r: bool)
    ensures
        r == private_name(n@),
{
    let v = chars_of(n.as_str());
    let len = v.len();
    let dunder_start = crate::ids::seq_starts_with(&v, "__");
    let dunder_end = crate::ids::seq_ends_with(&v, len, "__");
    assert(v@.take(len as int) =~= v@);
    crate::ids::seq_starts_with(&v, "_") && !(dunder_start && dunder_end)
}

fn declare_facts(ev: &Vec<SyntaxEvent>, i: usize, kind: SymbolKind, depth: usize) -> (r: Vec<Fact>)
    requires
        i < ev@.len(),
        rows_fit(events_view(ev@)),
    ensures
        fact_views(r@) == py_declare(events_view(ev@), i as int, kind, depth as nat),
{
    if depth != 0 {
        return none();
    }
    match field_text_of(ev, i, "name") {
        Some(n) => {
            let exported = !private_name_of(&n);
            one(symbol(n, kind, span_of(ev, i), exported, false, None))
        },
        None => none(),
    }
}

fn first_ident_of(ev: &Vec<SyntaxEvent>, p: usize) -> (r: Option<String>)
    requires
        p < ev@.len(),
    ensures
        opt_str(r) == first_ident(events_view(ev@), children(events_view(ev@), p as int), 0),
{
    let ghost evv = events_view(ev@);
    let cs = children_of(ev, p);
    let ghost cv = index_view(cs@);
    let mut k: usize = 0;
    while k < cs.len()
        invariant
            k <= cs@.len(),
            evv == events_view(ev@),
            cv == index_view(cs@),
            cv == children(evv, p as int),
            forall|q: int| 0 <= q < cs@.len() ==> p < #[trigger] cs@[q] < ev@.len(),
            first_ident(evv, cv, 0) == first_ident(evv, cv, k as int),
        decreases cs@.len() - k,
    {
        assert(cv[k as int] == cs@[k as int] as int);
        if kind_is(ev, cs[k], "identifier") {
            return Some(text_of(ev, cs[k]));
        }
        k += 1;
    }
    None
}

fn ordered_params(ev: &Vec<SyntaxEvent>, ps: usize) -> (r: Vec<(String, Span)>)
    requires
        ps < ev@.len(),
        rows_fit(events_view(ev@)),
    ensures
        crate::params::params_view(r@) == py_ordered(events_view(ev@), children(events_view(ev@), ps as int), children(events_view(ev@), ps as int).len() as int),
{
    let ghost evv = events_view(ev@);
    let cs = children_of(ev, ps);
    let ghost cv = index_view(cs@);
    let mut out: Vec<(String, Span)> = Vec::new();
    let mut n: usize = 0;
    proof { reveal_strlit(""); }
    assert(""@ =~= Seq::<char>::empty());
    while n < cs.len()
        invariant
            n <= cs@.len(),
            evv == events_view(ev@),
            rows_fit(evv),
            ""@ == Seq::<char>::empty(),
            cv == index_view(cs@),
            cv == children(evv, ps as int),
            forall|q: int| 0 <= q < cs@.len() ==> ps < #[trigger] cs@[q] < ev@.len(),
            crate::params::params_view(out@) == py_ordered(evv, cv, n as int),
        decreases cs@.len() - n,
    {
        let p = cs[n];
        assert(cv[n as int] == p as int);
        let ghost before = crate::params::params_view(out@);
        let sp = span_of(ev, p);
        if kind_is(ev, p, "identifier") {
            out.push((text_of(ev, p), sp));
        } else if kind_is(ev, p, "typed_parameter") || kind_is(ev, p, "default_parameter") || kind_is(ev, p, "typed_default_parameter") {
            match first_ident_of(ev, p) {
                Some(nm) => { out.push((nm, sp)); },
                None => {},
            }
        } else if kind_is(ev, p, "list_splat_pattern") || kind_is(ev, p, "dictionary_splat_pattern") {
            out.push((owned(""), sp));
        }
        assert(crate::params::params_view(out@) =~= py_ordered(evv, cv, n + 1));
        n += 1;
    }
    out
}

fn param_facts(ev: &Vec<SyntaxEvent>, i: usize) -> (r: Vec<Fact>)
    requires
        i < ev@.len(),
        rows_fit(events_view(ev@)),
    ensures
        fact_views(r@) == py_params(events_view(ev@), i as int),
{
    let ghost evv = events_view(ev@);
    if str_is(parent_kind_of(ev, i).as_str(), "decorated_definition") {
        return none();
    }
    let mut out: Vec<Fact> = Vec::new();
    let ps = match field_child_of(ev, i, "parameters") { Some(p) => p, None => { return none(); } };
    let b = match field_child_of(ev, i, "body") { Some(b) => b, None => { return none(); } };
    let ordered0 = ordered_params(ev, ps);
    let ghost o0 = crate::params::params_view(ordered0@);
    let ordered = crate::params::without_receiver(ordered0);
    proof {
        reveal_strlit("self");
        reveal_strlit("cls");
        if o0.len() > 0 {
            assert(o0[0].0 == ordered0@[0].0@);
        }
        assert(crate::params::params_view(ordered@) =~= receiverless(o0));
    }
    let parent = field_text_of(ev, i, "name");
    if ordered.len() == 0 {
        assert(fact_views(out@) =~= py_params(evv, i as int));
        return out;
    }
    let used = idents_below_of(ev, b, "identifier", "identifier");
    let found = crate::params::unused_trailing_params(&ordered, &used);
    let ghost fv = crate::params::params_view(found@);
    let mut k: usize = 0;
    while k < found.len()
        invariant
            k <= found@.len(),
            fv == crate::params::params_view(found@),
            fact_views(out@) == fv.take(k as int).map_values(|p: (Seq<char>, Span)| plain_symbol(p.0, SymbolKind::Parameter, p.1, false, false, opt_str(parent))),
        decreases found@.len() - k,
    {
        let ghost before = fact_views(out@);
        assert(fv[k as int] == (found@[k as int].0@, found@[k as int].1));
        out.push(symbol(copy_string(&found[k].0), SymbolKind::Parameter, found[k].1, false, false, copy_opt(&parent)));
        assert(fact_views(out@) =~= before.push(plain_symbol(fv[k as int].0, SymbolKind::Parameter, fv[k as int].1, false, false, opt_str(parent))));
        assert(fv.take(k + 1) =~= fv.take(k as int).push(fv[k as int]));
        k += 1;
    }
    assert(fv.take(k as int) =~= fv);
    out
}

fn class_member_facts(ev: &Vec<SyntaxEvent>, i: usize) -> (r: Vec<Fact>)
    requires
        i < ev@.len(),
        rows_fit(events_view(ev@)),
    ensures
        fact_views(r@) == py_class_members(events_view(ev@), i as int),
{
    let ghost evv = events_view(ev@);
    let mut out: Vec<Fact> = Vec::new();
    let b = match field_child_of(ev, i, "body") { Some(b) => b, None => { return out; } };
    let parent = field_text_of(ev, i, "name");
    let ghost pv = opt_str(parent);
    let cs = children_of(ev, b);
    let ghost cv = index_view(cs@);
    let mut n: usize = 0;
    while n < cs.len()
        invariant
            n <= cs@.len(),
            evv == events_view(ev@),
            rows_fit(evv),
            cv == index_view(cs@),
            cv == children(evv, b as int),
            pv == opt_str(parent),
            forall|q: int| 0 <= q < cs@.len() ==> b < #[trigger] cs@[q] < ev@.len(),
            fact_views(out@) == py_members(evv, cv, n as int, pv),
        decreases cs@.len() - n,
    {
        let st = cs[n];
        assert(cv[n as int] == st as int);
        if kind_is(ev, st, "function_definition") {
            match field_text_of(ev, st, "name") {
                Some(nm) => {
                    if private_name_of(&nm) {
                        out.push(symbol(nm, SymbolKind::Method, span_of(ev, st), false, false, copy_opt(&parent)));
                    }
                },
                None => {},
            }
        }
        assert(fact_views(out@) =~= py_members(evv, cv, n + 1, pv));
        n += 1;
    }
    out
}

fn named_sibling_of(ev: &Vec<SyntaxEvent>, j: usize) -> (r: Option<usize>)
    ensures
        match r {
            Some(s) => named_sibling(events_view(ev@), j as int) == Some(s as int) && s < ev@.len(),
            None => named_sibling(events_view(ev@), j as int) is None,
        },
    decreases ev@.len() - j,
{
    if !is_open_at(ev, j) {
        return None;
    }
    if named_of(ev, j) {
        return Some(j);
    }
    let nx = after_subtree_of(ev, j);
    named_sibling_of(ev, nx)
}

fn decorator_dotted_of(ev: &Vec<SyntaxEvent>, i: usize) -> (r: String)
    requires
        i < ev@.len(),
    ensures
        r@ == decorator_dotted(events_view(ev@), children(events_view(ev@), i as int), 0),
{
    let ghost evv = events_view(ev@);
    let cs = children_of(ev, i);
    let ghost cv = index_view(cs@);
    let mut k: usize = 0;
    while k < cs.len()
        invariant
            k <= cs@.len(),
            evv == events_view(ev@),
            cv == index_view(cs@),
            cv == children(evv, i as int),
            forall|q: int| 0 <= q < cs@.len() ==> i < #[trigger] cs@[q] < ev@.len(),
            decorator_dotted(evv, cv, 0) == decorator_dotted(evv, cv, k as int),
        decreases cs@.len() - k,
    {
        let c = cs[k];
        assert(cv[k as int] == c as int);
        if kind_is(ev, c, "identifier") || kind_is(ev, c, "dotted_name") || kind_is(ev, c, "attribute") {
            return text_of(ev, c);
        }
        if kind_is(ev, c, "call") {
            match field_child_of(ev, c, "function") {
                Some(f) => { return text_of(ev, f); },
                None => {},
            }
        }
        k += 1;
    }
    proof { reveal_strlit(""); }
    owned("")
}

fn decorator_facts(ev: &Vec<SyntaxEvent>, i: usize) -> (r: Vec<Fact>)
    requires
        i < ev@.len(),
    ensures
        fact_views(r@) == py_decorator(events_view(ev@), i as int),
{
    proof { reveal_strlit(""); }
    assert(""@ =~= Seq::<char>::empty());
    let on = match named_sibling_of(ev, after_subtree_of(ev, i)) {
        Some(sb) => match field_text_of(ev, sb, "name") { Some(n) => n, None => owned("") },
        None => owned(""),
    };
    let dotted = decorator_dotted_of(ev, i);
    if chars_of(dotted.as_str()).len() > 0 {
        one(Fact::Mark(Marker::Decorator { dotted, on_symbol: on }))
    } else {
        none()
    }
}

fn string_content_of(ev: &Vec<SyntaxEvent>, p: usize) -> (r: Option<String>)
    requires
        p < ev@.len(),
    ensures
        opt_str(r) == string_content(events_view(ev@), children(events_view(ev@), p as int), 0),
{
    let ghost evv = events_view(ev@);
    let cs = children_of(ev, p);
    let ghost cv = index_view(cs@);
    let mut k: usize = 0;
    while k < cs.len()
        invariant
            k <= cs@.len(),
            evv == events_view(ev@),
            cv == index_view(cs@),
            cv == children(evv, p as int),
            forall|q: int| 0 <= q < cs@.len() ==> p < #[trigger] cs@[q] < ev@.len(),
            string_content(evv, cv, 0) == string_content(evv, cv, k as int),
        decreases cs@.len() - k,
    {
        assert(cv[k as int] == cs@[k as int] as int);
        if kind_is(ev, cs[k], "string_content") {
            return Some(text_of(ev, cs[k]));
        }
        k += 1;
    }
    None
}

fn assignment_facts(ev: &Vec<SyntaxEvent>, i: usize, depth: usize) -> (r: Vec<Fact>)
    requires
        i < ev@.len(),
        rows_fit(events_view(ev@)),
    ensures
        fact_views(r@) == py_assignment(events_view(ev@), i as int, depth as nat),
{
    let ghost evv = events_view(ev@);
    if depth != 0 {
        return none();
    }
    let is_all = match field_text_of(ev, i, "left") {
        Some(l) => str_is(l.as_str(), "__all__"),
        None => false,
    };
    if !is_all {
        return none();
    }
    let r = match field_child_of(ev, i, "right") { Some(r) => r, None => { return none(); } };
    let span = span_of(ev, i);
    let cs = children_of(ev, r);
    let ghost cv = index_view(cs@);
    let mut out: Vec<Fact> = Vec::new();
    let mut n: usize = 0;
    while n < cs.len()
        invariant
            n <= cs@.len(),
            evv == events_view(ev@),
            cv == index_view(cs@),
            cv == children(evv, r as int),
            span == span_at(evv, i as int),
            forall|q: int| 0 <= q < cs@.len() ==> r < #[trigger] cs@[q] < ev@.len(),
            fact_views(out@) == all_names(evv, cv, n as int).map_values(|nm: Seq<char>|
                FactView::Export(ExportView { name: nm, kind: ExportKind::Named, source: None, is_type_only: false, span })),
        decreases cs@.len() - n,
    {
        let c = cs[n];
        assert(cv[n as int] == c as int);
        let ghost before = fact_views(out@);
        if kind_is(ev, c, "string") {
            match string_content_of(ev, c) {
                Some(nm) => {
                    let ghost nv = nm@;
                    out.push(Fact::Export(RawExport { name: nm, kind: ExportKind::Named, source: None, is_type_only: false, span }));
                    assert(fact_views(out@) =~= before.push(FactView::Export(ExportView { name: nv, kind: ExportKind::Named, source: None, is_type_only: false, span })));
                    assert(all_names(evv, cv, n + 1) =~= all_names(evv, cv, n as int).push(nv));
                },
                None => {
                    assert(all_names(evv, cv, n + 1) =~= all_names(evv, cv, n as int));
                },
            }
        } else {
            assert(all_names(evv, cv, n + 1) =~= all_names(evv, cv, n as int));
        }
        assert(fact_views(out@) =~= all_names(evv, cv, n + 1).map_values(|nm: Seq<char>|
            FactView::Export(ExportView { name: nm, kind: ExportKind::Named, source: None, is_type_only: false, span })));
        n += 1;
    }
    out
}

fn py_dotted_of(ev: &Vec<SyntaxEvent>, n: usize) -> (r: String)
    requires
        n < ev@.len(),
    ensures
        r@ == py_dotted(events_view(ev@), n as int),
    decreases ev@.len() - n,
{
    let ghost evv = events_view(ev@);
    if kind_is(ev, n, "identifier") {
        return text_of(ev, n);
    }
    proof { reveal_strlit(""); }
    if kind_is(ev, n, "attribute") {
        match (field_child_of(ev, n, "object"), field_child_of(ev, n, "attribute")) {
            (Some(o), Some(a)) => {
                let base = py_dotted_of(ev, o);
                if chars_of(base.as_str()).len() == 0 {
                    return owned("");
                }
                let mut out = chars_of(base.as_str());
                out.push('.');
                crate::text::push_str(&mut out, text_of(ev, a).as_str());
                proof { reveal_strlit("."); }
                assert(out@ =~= base@ + "."@ + text_at(evv, a as int));
                crate::text::string_from(out.as_slice())
            },
            _ => owned(""),
        }
    } else {
        owned("")
    }
}

fn word_segment_of(v: &Vec<char>, from: usize, to: usize) -> (r: bool)
    requires
        from <= to <= v@.len(),
    ensures
        r == word_segment(v@.subrange(from as int, to as int)),
{
    if from == to {
        return false;
    }
    let mut k = from;
    while k < to
        invariant
            from <= k <= to <= v@.len(),
            forall|q: int| from <= q < k ==> alphanumeric(#[trigger] v@[q]) || v@[q] == '_',
        decreases to - k,
    {
        if !(is_alphanumeric(v[k]) || v[k] == '_') {
            assert(v@.subrange(from as int, to as int)[k - from] == v@[k as int]);
            return false;
        }
        k += 1;
    }
    assert forall|q: int| 0 <= q < v@.subrange(from as int, to as int).len() implies
        alphanumeric(#[trigger] v@.subrange(from as int, to as int)[q]) || v@.subrange(from as int, to as int)[q] == '_' by {
        assert(v@.subrange(from as int, to as int)[q] == v@[from + q]);
    }
    true
}

fn looks_dotted_of(t: &String) -> (r: bool)
    ensures
        r == looks_dotted(t@),
{
    let v = chars_of(t.as_str());
    let mut has_dot = false;
    let mut from: usize = 0;
    let mut k: usize = 0;
    let mut ok = true;
    while k < v.len()
        invariant
            k <= v@.len(),
            from <= k,
            v@ == t@,
            has_dot == exists|q: int| 0 <= q < k && v@[q] == '.',
            ok ==> segments_ok(v@, 0, 0) == segments_ok(v@, from as int, k as int),
            !ok ==> !segments_ok(v@, 0, 0),
        decreases v@.len() - k,
    {
        if v[k] == '.' {
            has_dot = true;
            if ok {
                if !word_segment_of(&v, from, k) {
                    ok = false;
                }
            }
            from = k + 1;
        }
        k += 1;
    }
    if ok {
        ok = word_segment_of(&v, from, v.len());
    }
    proof {
        if has_dot {
            let q = choose|q: int| 0 <= q < k && v@[q] == '.';
            assert(v@[q] == '.');
        }
    }
    has_dot && ok
}

/// What the node opened at `i`, at definition depth `depth`, itself records.
pub fn node_facts(ev: &Vec<SyntaxEvent>, i: usize, depth: usize) -> (r: Vec<Fact>)
    requires
        i < ev@.len(),
        rows_fit(events_view(ev@)),
    ensures
        fact_views(r@) == py_node(events_view(ev@), i as int, depth as nat),
{
    let ghost evv = events_view(ev@);
    if kind_is(ev, i, "import_statement") {
        import_facts(ev, i)
    } else if kind_is(ev, i, "import_from_statement") {
        from_import_facts(ev, i)
    } else if kind_is(ev, i, "function_definition") {
        let d = declare_facts(ev, i, SymbolKind::Function, depth);
        if depth == 0 { joined(d, param_facts(ev, i)) } else { joined(d, none()) }
    } else if kind_is(ev, i, "class_definition") {
        let d = declare_facts(ev, i, SymbolKind::Class, depth);
        if depth == 0 { joined(d, class_member_facts(ev, i)) } else { joined(d, none()) }
    } else if kind_is(ev, i, "decorator") {
        decorator_facts(ev, i)
    } else if kind_is(ev, i, "assignment") {
        assignment_facts(ev, i, depth)
    } else if kind_is(ev, i, "attribute") {
        match field_text_of(ev, i, "attribute") {
            Some(a) => member_fact_of(&a),
            None => none(),
        }
    } else if kind_is(ev, i, "call") {
        match field_child_of(ev, i, "function") {
            Some(f) => {
                let callee = py_dotted_of(ev, f);
                if chars_of(callee.as_str()).len() > 0 {
                    one(Fact::Call(CallSite { callee, span: span_of(ev, i) }))
                } else {
                    none()
                }
            },
            None => none(),
        }
    } else if kind_is(ev, i, "identifier") {
        one(Fact::Ref(text_of(ev, i)))
    } else if kind_is(ev, i, "string_content") {
        let t = text_of(ev, i);
        let head = if looks_dotted_of(&t) {
            one(Fact::Mark(Marker::ModuleStringLiteral { value: copy_string(&t) }))
        } else {
            none()
        };
        joined(head, one(Fact::Str(t)))
    } else if kind_is(ev, i, "comment") {
        comment_facts_of(ev, i)
    } else {
        none()
    }
}

proof fn lemma_depth(s: Seq<bool>)
    ensures
        depth_of(s) <= s.len(),
    decreases s.len(),
{
    if s.len() > 0 {
        lemma_depth(s.drop_last());
    }
}

/// What a walk of a Python tree records, node by node in document order (the
/// inside of an import statement is not visited).
#[verifier::rlimit(40)]
pub fn walk_facts(ev: &Vec<SyntaxEvent>) -> (r: Vec<Fact>)
    requires
        rows_fit(events_view(ev@)),
    ensures
        fact_views(r@) == py_from(events_view(ev@), 0, Seq::empty()),
{
    let ghost evv = events_view(ev@);
    let mut out: Vec<Fact> = Vec::new();
    let mut open: Vec<bool> = Vec::new();
    let mut depth: usize = 0;
    let mut i: usize = 0;
    while i < ev.len()
        invariant
            i <= ev@.len(),
            evv == events_view(ev@),
            rows_fit(evv),
            depth == depth_of(open@),
            depth <= open@.len(),
            open@.len() <= i,
            fact_views(out@) + py_from(evv, i as int, open@) == py_from(evv, 0, Seq::empty()),
        decreases ev@.len() - i,
    {
        let ghost before = fact_views(out@);
        let ghost o0 = open@;
        assert(evv[i as int] == ev@[i as int]@);
        if !is_open_at(ev, i) {
            if open.len() > 0 {
                let last = open.pop().unwrap();
                proof {
                    assert(o0.drop_last() =~= open@);
                    assert(o0.last() == last);
                    lemma_depth(open@);
                }
                if last {
                    depth -= 1;
                }
            }
            i += 1;
        } else if kind_is(ev, i, "import_statement") || kind_is(ev, i, "import_from_statement") {
            let part = node_facts(ev, i, depth);
            append_facts(&mut out, part);
            let nx = after_subtree_of(ev, i);
            assert(fact_views(out@) + py_from(evv, nx as int, open@) =~= before + py_from(evv, i as int, o0));
            i = nx;
        } else {
            let part = node_facts(ev, i, depth);
            append_facts(&mut out, part);
            let d = kind_is(ev, i, "function_definition") || kind_is(ev, i, "class_definition");
            open.push(d);
            assert(open@.drop_last() =~= o0);
            proof { lemma_depth(o0); }
            if d {
                depth += 1;
            }
            assert(fact_views(out@) + py_from(evv, i + 1, open@) =~= before + py_from(evv, i as int, o0));
            i += 1;
        }
    }
    assert(fact_views(out@) =~= fact_views(out@) + py_from(evv, i as int, open@));
    out
}

} // verus!
