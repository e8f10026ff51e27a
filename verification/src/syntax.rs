//! Syntax trees as plain data, and the styling facts read from a CSS tree.
//! `tree-sitter` parses; the tree comes out as the sequence of its nodes
//! opened and closed in document order, which is all the readers here and in
//! `extract` need.

use vstd::prelude::*;
use crate::facts::CssName;
use crate::ids::{seq_starts_with, starts_with, Language, Span};
use crate::text::{chars_of, copy_string, str_is};
use crate::order::string_views;
use tree_sitter::Parser;
use crate::syntax::SyntaxEvent::{Close, Open};
use tree_sitter_css::LANGUAGE as CSS_GRAMMAR;
use tree_sitter_python::LANGUAGE as PYTHON_GRAMMAR;
use tree_sitter_typescript::{LANGUAGE_TSX as TSX_GRAMMAR, LANGUAGE_TYPESCRIPT as TS_GRAMMAR};

verus! {

/// One step of a walk over a syntax tree: a node is opened (with its kind,
/// the name of the field it fills in its parent, empty for none, whether it is
/// a named node, its 0-based first and last rows, and its text), then its
/// children follow, then it is closed.
#[derive(Debug)]
pub enum SyntaxEvent {
    /// Kind, field, named, first row, last row, text.
    Open(String, String, bool, usize, usize, String),
    Close,
}

/// A walk step with its strings as character sequences.
pub enum EventView {
    Open { kind: Seq<char>, field: Seq<char>, named: bool, start_row: usize, end_row: usize, text: Seq<char> },
    Close,
}

impl View for SyntaxEvent {
    type V = EventView;

    open spec fn view(&self) -> EventView {
        match self {
            SyntaxEvent::Open(kind, field, named, start_row, end_row, text) =>
                EventView::Open { kind: kind@, field: field@, named: *named, start_row: *start_row, end_row: *end_row, text: text@ },
            SyntaxEvent::Close => EventView::Close,
        }
    }
}

pub open spec fn events_view(v: Seq<SyntaxEvent>) -> Seq<EventView> {
    v.map_values(|e: SyntaxEvent| e@)
}

/// The walk `tree-sitter` gives of `source` parsed with `tree-sitter-css`.
pub uninterp spec fn css_events_of(source: Seq<char>) -> Seq<EventView>;

/// The walk `tree-sitter` gives of `source` parsed with `tree-sitter-python`.
pub uninterp spec fn python_events_of(source: Seq<char>) -> Seq<EventView>;

/// The walk `tree-sitter` gives of `source` parsed with the TypeScript grammar
/// of `tree-sitter-typescript`.
pub uninterp spec fn typescript_events_of(source: Seq<char>) -> Seq<EventView>;

/// The walk `tree-sitter` gives of `source` parsed with the TSX grammar of
/// `tree-sitter-typescript`.
pub uninterp spec fn tsx_events_of(source: Seq<char>) -> Seq<EventView>;

/// The walk of `source` parsed as `language`: TypeScript with its own
/// grammar, JavaScript and TSX with the TSX grammar.
pub open spec fn source_events_of(source: Seq<char>, language: Language) -> Seq<EventView> {
    match language {
        Language::Python => python_events_of(source),
        Language::Css => css_events_of(source),
        Language::TypeScript => typescript_events_of(source),
        _ => tsx_events_of(source),
    }
}

/// Parses CSS with `tree-sitter` (`Parser::set_language` with
/// `tree_sitter_css::LANGUAGE`, `Parser::parse`) and
/// walks the tree with a `TreeCursor` (`goto_first_child`, `goto_next_sibling`,
/// `goto_parent`), listing each node's kind (`Node::kind`), field name
/// (`TreeCursor::field_name`, empty for none), whether it is named
/// (`is_named`), rows (`start_position`, `end_position`) and text
/// (`utf8_text`, empty where it is not UTF-8). `parse` gives no tree, and the
/// walk is empty, when the grammar could not be set.
/// What comes back is a function of the source alone, which
/// `css_events_of` names.
#[verifier::external_body]
pub fn css_events(source: &str) -> (r: Vec<SyntaxEvent>)
    ensures
        events_view(r@) == css_events_of(source@),
{
    let (mut parser, mut out) = (Parser::new(), vec![]);
    let _ = parser.set_language(&CSS_GRAMMAR.into());
    let Some(tree) = parser.parse(source, None) else { return out };
    let mut c = tree.walk();
    loop {
        let n = c.node();
        out.push(Open(n.kind().into(), c.field_name().unwrap_or_default().into(), n.is_named(), n.start_position().row, n.end_position().row, n.utf8_text(source.as_bytes()).unwrap_or_default().into()));
        if c.goto_first_child() { continue; }
        loop {
            out.push(Close);
            if c.goto_next_sibling() { break; }
            if !c.goto_parent() { return out; }
        }
    }
}

/// Parses Python with `tree-sitter` (`Parser::set_language` with
/// `tree_sitter_python::LANGUAGE`, `Parser::parse`) and
/// walks the tree with a `TreeCursor` (`goto_first_child`, `goto_next_sibling`,
/// `goto_parent`), listing each node's kind (`Node::kind`), field name
/// (`TreeCursor::field_name`, empty for none), whether it is named
/// (`is_named`), rows (`start_position`, `end_position`) and text
/// (`utf8_text`, empty where it is not UTF-8). `parse` gives no tree, and the
/// walk is empty, when the grammar could not be set.
/// What comes back is a function of the source alone, which
/// `python_events_of` names.
#[verifier::external_body]
pub fn python_events(source: &str) -> (r: Vec<SyntaxEvent>)
    ensures
        events_view(r@) == python_events_of(source@),
{
    let (mut parser, mut out) = (Parser::new(), vec![]);
    let _ = parser.set_language(&PYTHON_GRAMMAR.into());
    let Some(tree) = parser.parse(source, None) else { return out };
    let mut c = tree.walk();
    loop {
        let n = c.node();
        out.push(Open(n.kind().into(), c.field_name().unwrap_or_default().into(), n.is_named(), n.start_position().row, n.end_position().row, n.utf8_text(source.as_bytes()).unwrap_or_default().into()));
        if c.goto_first_child() { continue; }
        loop {
            out.push(Close);
            if c.goto_next_sibling() { break; }
            if !c.goto_parent() { return out; }
        }
    }
}

/// Parses TypeScript with `tree-sitter` (`Parser::set_language` with
/// `tree_sitter_typescript::LANGUAGE_TYPESCRIPT`, `Parser::parse`) and
/// walks the tree with a `TreeCursor` (`goto_first_child`, `goto_next_sibling`,
/// `goto_parent`), listing each node's kind (`Node::kind`), field name
/// (`TreeCursor::field_name`, empty for none), whether it is named
/// (`is_named`), rows (`start_position`, `end_position`) and text
/// (`utf8_text`, empty where it is not UTF-8). `parse` gives no tree, and the
/// walk is empty, when the grammar could not be set.
/// What comes back is a function of the source alone, which
/// `typescript_events_of` names.
#[verifier::external_body]
pub fn typescript_events(source: &str) -> (r: Vec<SyntaxEvent>)
    ensures
        events_view(r@) == typescript_events_of(source@),
{
    let (mut parser, mut out) = (Parser::new(), vec![]);
    let _ = parser.set_language(&TS_GRAMMAR.into());
    let Some(tree) = parser.parse(source, None) else { return out };
    let mut c = tree.walk();
    loop {
        let n = c.node();
        out.push(Open(n.kind().into(), c.field_name().unwrap_or_default().into(), n.is_named(), n.start_position().row, n.end_position().row, n.utf8_text(source.as_bytes()).unwrap_or_default().into()));
        if c.goto_first_child() { continue; }
        loop {
            out.push(Close);
            if c.goto_next_sibling() { break; }
            if !c.goto_parent() { return out; }
        }
    }
}


/// Parses TSX (and JavaScript) with `tree-sitter` (`Parser::set_language`
/// with `tree_sitter_typescript::LANGUAGE_TSX`, `Parser::parse`) and
/// walks the tree with a `TreeCursor` (`goto_first_child`, `goto_next_sibling`,
/// `goto_parent`), listing each node's kind (`Node::kind`), field name
/// (`TreeCursor::field_name`, empty for none), whether it is named
/// (`is_named`), rows (`start_position`, `end_position`) and text
/// (`utf8_text`, empty where it is not UTF-8). `parse` gives no tree, and the
/// walk is empty, when the grammar could not be set.
/// What comes back is a function of the source alone, which
/// `tsx_events_of` names.
#[verifier::external_body]
pub fn tsx_events(source: &str) -> (r: Vec<SyntaxEvent>)
    ensures
        events_view(r@) == tsx_events_of(source@),
{
    let (mut parser, mut out) = (Parser::new(), vec![]);
    let _ = parser.set_language(&TSX_GRAMMAR.into());
    let Some(tree) = parser.parse(source, None) else { return out };
    let mut c = tree.walk();
    loop {
        let n = c.node();
        out.push(Open(n.kind().into(), c.field_name().unwrap_or_default().into(), n.is_named(), n.start_position().row, n.end_position().row, n.utf8_text(source.as_bytes()).unwrap_or_default().into()));
        if c.goto_first_child() { continue; }
        loop {
            out.push(Close);
            if c.goto_next_sibling() { break; }
            if !c.goto_parent() { return out; }
        }
    }
}

/// The walk of `source` parsed as `language`.
pub fn source_events(source: &str, language: Language) -> (r: Vec<SyntaxEvent>)
    ensures
        events_view(r@) == source_events_of(source@, language),
{
    match language {
        Language::Python => python_events(source),
        Language::Css => css_events(source),
        Language::TypeScript => typescript_events(source),
        _ => tsx_events(source),
    }
}

/// The positions of the nodes opened at nesting `d` below the current one,
/// scanning from `j` until the current node closes.
pub open spec fn children_from(ev: Seq<EventView>, j: int, d: nat) -> Seq<int>
    decreases ev.len() - j,
{
    if j < 0 || j >= ev.len() {
        Seq::empty()
    } else {
        match ev[j] {
            EventView::Close => if d == 0 { Seq::empty() } else { children_from(ev, j + 1, (d - 1) as nat) },
            EventView::Open { .. } => (if d == 0 { seq![j] } else { Seq::empty() }) + children_from(ev, j + 1, d + 1),
        }
    }
}

/// The children of the node opened at `i`, in order.
pub open spec fn children(ev: Seq<EventView>, i: int) -> Seq<int> {
    children_from(ev, i + 1, 0)
}

pub open spec fn kind_at(ev: Seq<EventView>, i: int) -> Seq<char> {
    match ev[i] {
        EventView::Open { kind, .. } => kind,
        EventView::Close => Seq::empty(),
    }
}

pub open spec fn text_at(ev: Seq<EventView>, i: int) -> Seq<char> {
    match ev[i] {
        EventView::Open { text, .. } => text,
        EventView::Close => Seq::empty(),
    }
}

/// The 1-based line span of the node opened at `i`.
pub open spec fn span_at(ev: Seq<EventView>, i: int) -> Span {
    match ev[i] {
        EventView::Open { start_row, end_row, .. } => Span { start_line: (start_row + 1) as u32, end_line: (end_row + 1) as u32 },
        EventView::Close => Span { start_line: 0, end_line: 0 },
    }
}

pub open spec fn field_at(ev: Seq<EventView>, i: int) -> Seq<char> {
    match ev[i] {
        EventView::Open { field, .. } => field,
        EventView::Close => Seq::empty(),
    }
}

pub open spec fn named_at(ev: Seq<EventView>, i: int) -> bool {
    match ev[i] {
        EventView::Open { named, .. } => named,
        EventView::Close => false,
    }
}

pub open spec fn is_open(ev: Seq<EventView>, i: int) -> bool {
    0 <= i < ev.len() && ev[i] is Open
}

/// Where the node whose children are scanned from `j` at nesting `d` is
/// closed: the index of its `Close`, or the length when it never closes.
pub open spec fn close_from(ev: Seq<EventView>, j: int, d: nat) -> int
    decreases ev.len() - j,
{
    if j < 0 || j >= ev.len() {
        ev.len() as int
    } else {
        match ev[j] {
            EventView::Close => if d == 0 { j } else { close_from(ev, j + 1, (d - 1) as nat) },
            EventView::Open { .. } => close_from(ev, j + 1, d + 1),
        }
    }
}

/// Where the walk goes on after the node opened at `i` and all below it.
pub open spec fn after_subtree(ev: Seq<EventView>, i: int) -> int {
    let c = close_from(ev, i + 1, 0);
    if c < ev.len() { c + 1 } else { ev.len() as int }
}

/// A node with no children.
pub open spec fn is_leaf(ev: Seq<EventView>, i: int) -> bool {
    !is_open(ev, i + 1)
}

/// The first position in `cs` from `k` whose node fills field `f`, else the length.
pub open spec fn first_field(ev: Seq<EventView>, cs: Seq<int>, f: Seq<char>, k: int) -> int
    decreases cs.len() - k,
{
    if k < 0 || k >= cs.len() {
        cs.len() as int
    } else if field_at(ev, cs[k]) == f {
        k
    } else {
        first_field(ev, cs, f, k + 1)
    }
}

/// The child of the node at `i` that fills field `f`, if any.
pub open spec fn field_child(ev: Seq<EventView>, i: int, f: Seq<char>) -> Option<int> {
    let cs = children(ev, i);
    let k = first_field(ev, cs, f, 0);
    if k < cs.len() { Some(cs[k]) } else { None }
}

pub proof fn lemma_close_from(ev: Seq<EventView>, j: int, d: nat)
    requires
        0 <= j,
    ensures
        j <= close_from(ev, j, d) <= ev.len() || (j > ev.len() && close_from(ev, j, d) == ev.len()),
    decreases ev.len() - j,
{
    if j < ev.len() {
        match ev[j] {
            EventView::Close => if d > 0 { lemma_close_from(ev, j + 1, (d - 1) as nat); },
            EventView::Open { .. } => lemma_close_from(ev, j + 1, d + 1),
        }
    }
}

/// Every row of the walk, and the line after it, fits a line number.
pub open spec fn rows_fit(ev: Seq<EventView>) -> bool {
    forall|i: int| 0 <= i < ev.len() ==> match #[trigger] ev[i] {
        EventView::Open { start_row, end_row, .. } => start_row + 2 <= u32::MAX && end_row + 2 <= u32::MAX,
        EventView::Close => true,
    }
}

/// The first index in `cs` from `k` whose node has kind `a` or `b`, else the length.
pub open spec fn first_of_kind(ev: Seq<EventView>, cs: Seq<int>, a: Seq<char>, b: Seq<char>, k: int) -> int
    decreases cs.len() - k,
{
    if k < 0 || k >= cs.len() {
        cs.len() as int
    } else if kind_at(ev, cs[k]) == a || kind_at(ev, cs[k]) == b {
        k
    } else {
        first_of_kind(ev, cs, a, b, k + 1)
    }
}

/// The first index in `cs` from `k` whose node's text starts with `--`, else the length.
pub open spec fn first_dashed(ev: Seq<EventView>, cs: Seq<int>, k: int) -> int
    decreases cs.len() - k,
{
    if k < 0 || k >= cs.len() {
        cs.len() as int
    } else if starts_with(text_at(ev, cs[k]), "--"@) {
        k
    } else {
        first_dashed(ev, cs, k + 1)
    }
}

/// The custom property a `declaration` node at `i` declares: its first
/// child's text when that starts with `--`.
pub open spec fn declared_at(ev: Seq<EventView>, i: int) -> Option<(Seq<char>, Span)> {
    let cs = children(ev, i);
    if kind_at(ev, i) == "declaration"@ && cs.len() > 0 && starts_with(text_at(ev, cs[0]), "--"@) {
        Some((text_at(ev, cs[0]), span_at(ev, i)))
    } else {
        None
    }
}

/// The `--name` a `call_expression` node at `i` references: a call with a
/// `function_name` child reading `var`, whose first `arguments` child has a
/// child whose text starts with `--` (the first such).
pub open spec fn var_ref_at(ev: Seq<EventView>, i: int) -> Option<Seq<char>> {
    let cs = children(ev, i);
    let is_var = exists|k: int| 0 <= k < cs.len() && kind_at(ev, #[trigger] cs[k]) == "function_name"@ && text_at(ev, cs[k]) == "var"@;
    let a = first_of_kind(ev, cs, "arguments"@, "arguments"@, 0);
    if kind_at(ev, i) == "call_expression"@ && is_var && a < cs.len() {
        let args = children(ev, cs[a]);
        let d = first_dashed(ev, args, 0);
        if d < args.len() { Some(text_at(ev, args[d])) } else { None }
    } else {
        None
    }
}

/// The class a `class_selector` node at `i` names: the text of its first
/// `class_name` or `identifier` child.
pub open spec fn class_at(ev: Seq<EventView>, i: int) -> Option<(Seq<char>, Span)> {
    let cs = children(ev, i);
    let c = first_of_kind(ev, cs, "class_name"@, "identifier"@, 0);
    if kind_at(ev, i) == "class_selector"@ && c < cs.len() {
        Some((text_at(ev, cs[c]), span_at(ev, i)))
    } else {
        None
    }
}

/// The custom properties a CSS walk declares, node by node in document order.
pub open spec fn css_declared_upto(ev: Seq<EventView>, n: int) -> Seq<(Seq<char>, Span)>
    decreases n,
{
    if n <= 0 {
        Seq::empty()
    } else {
        css_declared_upto(ev, n - 1) + match declared_at(ev, n - 1) { Some(x) => seq![x], None => Seq::empty() }
    }
}

/// The `var()` references of a CSS walk, in document order.
pub open spec fn css_var_refs_upto(ev: Seq<EventView>, n: int) -> Seq<Seq<char>>
    decreases n,
{
    if n <= 0 {
        Seq::empty()
    } else {
        css_var_refs_upto(ev, n - 1) + match var_ref_at(ev, n - 1) { Some(x) => seq![x], None => Seq::empty() }
    }
}

/// The class selectors of a CSS walk, in document order.
pub open spec fn css_classes_upto(ev: Seq<EventView>, n: int) -> Seq<(Seq<char>, Span)>
    decreases n,
{
    if n <= 0 {
        Seq::empty()
    } else {
        css_classes_upto(ev, n - 1) + match class_at(ev, n - 1) { Some(x) => seq![x], None => Seq::empty() }
    }
}

pub open spec fn css_names_view(v: Seq<CssName>) -> Seq<(Seq<char>, Span)> {
    v.map_values(|c: CssName| (c.name@, c.span))
}

pub open spec fn index_view(v: Seq<usize>) -> Seq<int> {
    v.map_values(|x: usize| x as int)
}

/// The children of the node opened at `i`.
pub fn children_of(ev: &Vec<SyntaxEvent>, i: usize) -> (r: Vec<usize>)
    requires
        i < ev@.len(),
    ensures
        index_view(r@) == children(events_view(ev@), i as int),
        forall|k: int| 0 <= k < r@.len() ==> i < #[trigger] r@[k] < ev@.len(),
{
    let ghost evv = events_view(ev@);
    let mut out: Vec<usize> = Vec::new();
    let n = ev.len();
    assert(i < n);
    let mut j = i + 1;
    let mut d: usize = 0;
    while j < ev.len()
        invariant
            evv == events_view(ev@),
            i < j <= ev@.len(),
            d < j - i,
            index_view(out@) + children_from(evv, j as int, d as nat) == children(evv, i as int),
            forall|k: int| 0 <= k < out@.len() ==> i < #[trigger] out@[k] < j,
        decreases ev@.len() - j,
    {
        let ghost before = out@;
        assert(evv[j as int] == ev@[j as int]@);
        match &ev[j] {
            SyntaxEvent::Close => {
                if d == 0 {
                    assert(children_from(evv, j as int, 0) =~= Seq::<int>::empty());
                    assert(index_view(out@) =~= index_view(out@) + children_from(evv, j as int, d as nat));
                    return out;
                }
                d -= 1;
            },
            SyntaxEvent::Open(..) => {
                if d == 0 {
                    out.push(j);
                    assert(index_view(out@) =~= index_view(before) + seq![j as int]);
                }
                d += 1;
            },
        }
        j += 1;
    }
    assert(children_from(evv, j as int, d as nat) =~= Seq::<int>::empty());
    assert(index_view(out@) =~= index_view(out@) + children_from(evv, j as int, d as nat));
    out
}

pub fn kind_is(ev: &Vec<SyntaxEvent>, i: usize, k: &str) -> (r: bool)
    requires
        i < ev@.len(),
    ensures
        r == (kind_at(events_view(ev@), i as int) == k@),
{
    assert(events_view(ev@)[i as int] == ev@[i as int]@);
    match &ev[i] {
        SyntaxEvent::Open(kind, ..) => str_is(kind.as_str(), k),
        SyntaxEvent::Close => {
            let cv = chars_of(k);
            let empty = cv.len() == 0;
            proof {
                if empty {
                    assert(k@ =~= Seq::<char>::empty());
                }
            }
            empty
        },
    }
}

pub fn text_of(ev: &Vec<SyntaxEvent>, i: usize) -> (r: String)
    requires
        i < ev@.len(),
    ensures
        r@ == text_at(events_view(ev@), i as int),
{
    assert(events_view(ev@)[i as int] == ev@[i as int]@);
    match &ev[i] {
        SyntaxEvent::Open(_, _, _, _, _, text) => copy_string(text),
        SyntaxEvent::Close => {
            proof { reveal_strlit(""); }
            crate::text::owned("")
        },
    }
}

fn dashed(ev: &Vec<SyntaxEvent>, i: usize) -> (r: bool)
    requires
        i < ev@.len(),
    ensures
        r == starts_with(text_at(events_view(ev@), i as int), "--"@),
{
    let t = text_of(ev, i);
    seq_starts_with(&chars_of(t.as_str()), "--")
}

pub fn span_of(ev: &Vec<SyntaxEvent>, i: usize) -> (r: Span)
    requires
        i < ev@.len(),
        rows_fit(events_view(ev@)),
    ensures
        r == span_at(events_view(ev@), i as int),
{
    assert(events_view(ev@)[i as int] == ev@[i as int]@);
    match &ev[i] {
        SyntaxEvent::Open(_, _, _, start_row, end_row, _) => Span::from_rows(*start_row, *end_row),
        SyntaxEvent::Close => Span { start_line: 0, end_line: 0 },
    }
}

/// Where the walk goes on after the node opened at `i`.
pub fn after_subtree_of(ev: &Vec<SyntaxEvent>, i: usize) -> (r: usize)
    requires
        i < ev@.len(),
    ensures
        r as int == after_subtree(events_view(ev@), i as int),
        i < r <= ev@.len(),
{
    let ghost evv = events_view(ev@);
    let n = ev.len();
    assert(i < n);
    let mut j = i + 1;
    let mut d: usize = 0;
    while j < ev.len()
        invariant
            evv == events_view(ev@),
            i < j <= ev@.len(),
            d < j - i,
            close_from(evv, i + 1, 0) == close_from(evv, j as int, d as nat),
        decreases ev@.len() - j,
    {
        assert(evv[j as int] == ev@[j as int]@);
        match &ev[j] {
            SyntaxEvent::Close => {
                if d == 0 {
                    return j + 1;
                }
                d -= 1;
            },
            SyntaxEvent::Open(..) => {
                d += 1;
            },
        }
        j += 1;
    }
    ev.len()
}

pub fn is_open_at(ev: &Vec<SyntaxEvent>, i: usize) -> (r: bool)
    ensures
        r == is_open(events_view(ev@), i as int),
{
    if i >= ev.len() {
        return false;
    }
    assert(events_view(ev@)[i as int] == ev@[i as int]@);
    match &ev[i] {
        SyntaxEvent::Open(..) => true,
        SyntaxEvent::Close => false,
    }
}

pub fn field_is(ev: &Vec<SyntaxEvent>, i: usize, f: &str) -> (r: bool)
    requires
        i < ev@.len(),
    ensures
        r == (field_at(events_view(ev@), i as int) == f@),
{
    assert(events_view(ev@)[i as int] == ev@[i as int]@);
    match &ev[i] {
        SyntaxEvent::Open(_, field, ..) => str_is(field.as_str(), f),
        SyntaxEvent::Close => {
            let cv = chars_of(f);
            let empty = cv.len() == 0;
            proof {
                if empty {
                    assert(f@ =~= Seq::<char>::empty());
                }
            }
            empty
        },
    }
}

pub fn named_of(ev: &Vec<SyntaxEvent>, i: usize) -> (r: bool)
    requires
        i < ev@.len(),
    ensures
        r == named_at(events_view(ev@), i as int),
{
    assert(events_view(ev@)[i as int] == ev@[i as int]@);
    match &ev[i] {
        SyntaxEvent::Open(_, _, named, ..) => *named,
        SyntaxEvent::Close => false,
    }
}

/// The child of the node at `i` that fills field `f`, if any.
pub fn field_child_of(ev: &Vec<SyntaxEvent>, i: usize, f: &str) -> (r: Option<usize>)
    requires
        i < ev@.len(),
    ensures
        match r {
            Some(c) => field_child(events_view(ev@), i as int, f@) == Some(c as int) && i < c < ev@.len(),
            None => field_child(events_view(ev@), i as int, f@) is None,
        },
{
    let ghost evv = events_view(ev@);
    let cs = children_of(ev, i);
    let mut k: usize = 0;
    while k < cs.len()
        invariant
            k <= cs@.len(),
            evv == events_view(ev@),
            index_view(cs@) == children(evv, i as int),
            forall|q: int| 0 <= q < cs@.len() ==> i < #[trigger] cs@[q] < ev@.len(),
            first_field(evv, index_view(cs@), f@, 0) == first_field(evv, index_view(cs@), f@, k as int),
        decreases cs@.len() - k,
    {
        assert(index_view(cs@)[k as int] == cs@[k as int] as int);
        if field_is(ev, cs[k], f) {
            return Some(cs[k]);
        }
        k += 1;
    }
    None
}

fn first_kind(ev: &Vec<SyntaxEvent>, cs: &Vec<usize>, a: &str, b: &str) -> (r: usize)
    requires
        forall|k: int| 0 <= k < cs@.len() ==> #[trigger] cs@[k] < ev@.len(),
    ensures
        r as int == first_of_kind(events_view(ev@), index_view(cs@), a@, b@, 0),
        r <= cs@.len(),
{
    let ghost evv = events_view(ev@);
    let mut k: usize = 0;
    while k < cs.len()
        invariant
            k <= cs@.len(),
            forall|q: int| 0 <= q < cs@.len() ==> #[trigger] cs@[q] < ev@.len(),
            first_of_kind(evv, index_view(cs@), a@, b@, 0) == first_of_kind(evv, index_view(cs@), a@, b@, k as int),
            evv == events_view(ev@),
        decreases cs@.len() - k,
    {
        if kind_is(ev, cs[k], a) || kind_is(ev, cs[k], b) {
            return k;
        }
        k += 1;
    }
    k
}

fn first_dashed_of(ev: &Vec<SyntaxEvent>, cs: &Vec<usize>) -> (r: usize)
    requires
        forall|k: int| 0 <= k < cs@.len() ==> #[trigger] cs@[k] < ev@.len(),
    ensures
        r as int == first_dashed(events_view(ev@), index_view(cs@), 0),
        r <= cs@.len(),
{
    let ghost evv = events_view(ev@);
    let mut k: usize = 0;
    while k < cs.len()
        invariant
            k <= cs@.len(),
            forall|q: int| 0 <= q < cs@.len() ==> #[trigger] cs@[q] < ev@.len(),
            first_dashed(evv, index_view(cs@), 0) == first_dashed(evv, index_view(cs@), k as int),
            evv == events_view(ev@),
        decreases cs@.len() - k,
    {
        if dashed(ev, cs[k]) {
            return k;
        }
        k += 1;
    }
    k
}

/// The custom properties, `var()` references and class selectors of a CSS
/// walk, each in document order.
pub fn css_facts(ev: &Vec<SyntaxEvent>) -> (r: (Vec<CssName>, Vec<String>, Vec<CssName>))
    requires
        rows_fit(events_view(ev@)),
    ensures
        css_names_view(r.0@) == css_declared_upto(events_view(ev@), ev@.len() as int),
        string_views(r.1@) == css_var_refs_upto(events_view(ev@), ev@.len() as int),
        css_names_view(r.2@) == css_classes_upto(events_view(ev@), ev@.len() as int),
{
    let ghost evv = events_view(ev@);
    let mut decl: Vec<CssName> = Vec::new();
    let mut refs: Vec<String> = Vec::new();
    let mut classes: Vec<CssName> = Vec::new();
    let mut i: usize = 0;
    while i < ev.len()
        invariant
            i <= ev@.len(),
            evv == events_view(ev@),
            rows_fit(evv),
            css_names_view(decl@) == css_declared_upto(evv, i as int),
            string_views(refs@) == css_var_refs_upto(evv, i as int),
            css_names_view(classes@) == css_classes_upto(evv, i as int),
        decreases ev@.len() - i,
    {
        proof {
            reveal_strlit("declaration");
            reveal_strlit("call_expression");
            reveal_strlit("class_selector");
        }
        let cs = children_of(ev, i);
        // a declaration of a custom property
        let ghost d0 = decl@;
        if kind_is(ev, i, "declaration") && cs.len() > 0 && dashed(ev, cs[0]) {
            let name = text_of(ev, cs[0]);
            let span = span_of(ev, i);
            decl.push(CssName { name, span });
            assert(css_names_view(decl@) =~= css_names_view(d0).push((text_at(evv, index_view(cs@)[0]), span_at(evv, i as int))));
        } else {
            assert(css_names_view(decl@) =~= css_names_view(d0));
        }
        // a var() reference
        let ghost r0 = refs@;
        if kind_is(ev, i, "call_expression") {
            let mut is_var = false;
            let mut k: usize = 0;
            while k < cs.len()
                invariant
                    k <= cs@.len(),
                    evv == events_view(ev@),
                    forall|q: int| 0 <= q < cs@.len() ==> #[trigger] cs@[q] < ev@.len(),
                    is_var == exists|q: int| 0 <= q < k && kind_at(evv, #[trigger] index_view(cs@)[q]) == "function_name"@
                        && text_at(evv, index_view(cs@)[q]) == "var"@,
                decreases cs@.len() - k,
            {
                let ghost iv = index_view(cs@);
                assert(iv[k as int] == cs@[k as int] as int);
                let t = text_of(ev, cs[k]);
                let hit = kind_is(ev, cs[k], "function_name") && str_is(t.as_str(), "var");
                if hit {
                    is_var = true;
                }
                proof {
                    if !hit {
                        assert forall|q: int| 0 <= q < k + 1 && kind_at(evv, #[trigger] index_view(cs@)[q]) == "function_name"@
                            implies text_at(evv, index_view(cs@)[q]) != "var"@ || q < k by {}
                    }
                }
                k += 1;
            }
            let a = first_kind(ev, &cs, "arguments", "arguments");
            if is_var && a < cs.len() {
                let args = children_of(ev, cs[a]);
                let d = first_dashed_of(ev, &args);
                if d < args.len() {
                    refs.push(text_of(ev, args[d]));
                    assert(string_views(refs@) =~= string_views(r0).push(text_at(evv, index_view(args@)[d as int])));
                } else {
                    assert(string_views(refs@) =~= string_views(r0));
                }
            } else {
                assert(string_views(refs@) =~= string_views(r0));
            }
        } else {
            assert(string_views(refs@) =~= string_views(r0));
        }
        // a class selector
        let ghost c0 = classes@;
        if kind_is(ev, i, "class_selector") {
            let c = first_kind(ev, &cs, "class_name", "identifier");
            if c < cs.len() {
                let name = text_of(ev, cs[c]);
                let span = span_of(ev, i);
                classes.push(CssName { name, span });
                assert(css_names_view(classes@) =~= css_names_view(c0).push((text_at(evv, index_view(cs@)[c as int]), span_at(evv, i as int))));
            } else {
                assert(css_names_view(classes@) =~= css_names_view(c0));
            }
        } else {
            assert(css_names_view(classes@) =~= css_names_view(c0));
        }
        i += 1;
    }
    (decl, refs, classes)
}

pub fn rows_fit_exec(ev: &Vec<SyntaxEvent>) -> (r: bool)
    ensures
        r == rows_fit(events_view(ev@)),
{
    let mut i: usize = 0;
    while i < ev.len()
        invariant
            i <= ev@.len(),
            forall|q: int| 0 <= q < i ==> match #[trigger] events_view(ev@)[q] {
                EventView::Open { start_row, end_row, .. } => start_row + 2 <= u32::MAX && end_row + 2 <= u32::MAX,
                EventView::Close => true,
            },
        decreases ev@.len() - i,
    {
        assert(events_view(ev@)[i as int] == ev@[i as int]@);
        match &ev[i] {
            SyntaxEvent::Open(_, _, _, start_row, end_row, _) => {
                if *start_row >= (u32::MAX - 1) as usize || *end_row >= (u32::MAX - 1) as usize {
                    return false;
                }
            },
            SyntaxEvent::Close => {},
        }
        i += 1;
    }
    true
}

} // verus!
