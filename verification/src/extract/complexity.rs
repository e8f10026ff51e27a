//! Per-function complexity: cyclomatic (McCabe) and cognitive (SonarSource).
//! The walk keeps the functions it is inside of and, below each node, the
//! nesting depth and enclosing class its children see; a node's increments go
//! to the innermost function. Boolean operators count one each, and a JS
//! `else if` nests, so the numbers over- rather than under-count. Sums wrap
//! at `u32`, as the fixed-width counters do.

use vstd::prelude::*;
use crate::extract::nodes::{parent_from, parent_index_of};
use crate::extract::typescript::{field_text, field_text_of};
use crate::extract::walk::opt_str;
use crate::facts::FunctionMetrics;
use crate::ids::{Language, Span};
use crate::syntax::{
    children, events_view, field_child, is_open_at, kind_at, kind_is, rows_fit, span_at, span_of, EventView,
    SyntaxEvent,
};
use crate::text::{owned, str_is};

verus! {

/// What one node adds to the function it is in.
pub struct Inc {
    pub cyclomatic: u32,
    pub cognitive: u32,
    /// Adds the nesting penalty and deepens nesting below it.
    pub nests: bool,
    /// Opens a function.
    pub is_fn: bool,
    /// Opens a class (which names the methods below it).
    pub is_class: bool,
}

pub open spec fn inc(c: u32, g: u32, nests: bool) -> Inc {
    Inc { cyclomatic: c, cognitive: g, nests, is_fn: false, is_class: false }
}

pub open spec fn script_inc(ev: Seq<EventView>, i: int) -> Inc {
    let k = kind_at(ev, i);
    if k == "function_declaration"@ || k == "generator_function_declaration"@ || k == "function_expression"@
        || k == "arrow_function"@ || k == "method_definition"@ {
        Inc { cyclomatic: 0, cognitive: 0, nests: false, is_fn: true, is_class: false }
    } else if k == "class_declaration"@ || k == "abstract_class_declaration"@ {
        Inc { cyclomatic: 0, cognitive: 0, nests: false, is_fn: false, is_class: true }
    } else if k == "if_statement"@ || k == "for_statement"@ || k == "for_in_statement"@ || k == "while_statement"@
        || k == "do_statement"@ || k == "ternary_expression"@ || k == "catch_clause"@ {
        inc(1, 1, true)
    } else if k == "switch_statement"@ {
        inc(0, 1, true)
    } else if k == "switch_case"@ {
        inc(1, 0, false)
    } else if k == "else_clause"@ {
        inc(0, 1, false)
    } else if k == "binary_expression"@ && (field_text(ev, i, "operator"@) == Some("&&"@)
        || field_text(ev, i, "operator"@) == Some("||"@) || field_text(ev, i, "operator"@) == Some("??"@)) {
        inc(1, 1, false)
    } else {
        inc(0, 0, false)
    }
}

pub open spec fn python_inc(ev: Seq<EventView>, i: int) -> Inc {
    let k = kind_at(ev, i);
    if k == "function_definition"@ || k == "lambda"@ {
        Inc { cyclomatic: 0, cognitive: 0, nests: false, is_fn: true, is_class: false }
    } else if k == "class_definition"@ {
        Inc { cyclomatic: 0, cognitive: 0, nests: false, is_fn: false, is_class: true }
    } else if k == "if_statement"@ || k == "for_statement"@ || k == "while_statement"@ || k == "except_clause"@
        || k == "conditional_expression"@ {
        inc(1, 1, true)
    } else if k == "match_statement"@ {
        inc(0, 1, true)
    } else if k == "case_clause"@ {
        inc(1, 0, false)
    } else if k == "elif_clause"@ {
        inc(1, 1, false)
    } else if k == "else_clause"@ {
        inc(0, 1, false)
    } else if k == "boolean_operator"@ {
        inc(1, 1, false)
    } else {
        inc(0, 0, false)
    }
}

pub open spec fn node_inc(ev: Seq<EventView>, i: int, lang: Language) -> Inc {
    if lang == Language::Python { python_inc(ev, i) } else { script_inc(ev, i) }
}

/// A function's name: its `name` field, else the name or left side of the
/// declarator, assignment or pair it is the value of, else `(anonymous)`.
pub open spec fn fn_name(ev: Seq<EventView>, i: int) -> Seq<char> {
    match field_text(ev, i, "name"@) {
        Some(n) => n,
        None => {
            let p = parent_from(ev, i - 1, 0);
            if p >= 0 && (kind_at(ev, p) == "variable_declarator"@ || kind_at(ev, p) == "assignment"@ || kind_at(ev, p) == "pair"@)
                && (field_child(ev, p, "name"@) is Some || field_child(ev, p, "left"@) is Some) {
                match field_text(ev, p, "name"@) {
                    Some(n) => n,
                    None => field_text(ev, p, "left"@).unwrap(),
                }
            } else {
                "(anonymous)"@
            }
        },
    }
}

/// A sum as the `u32` counters keep it.
pub open spec fn wrap(x: int) -> u32 {
    (x % 0x1_0000_0000) as u32
}

pub struct FrameView {
    pub name: Seq<char>,
    pub parent: Option<Seq<char>>,
    pub span: Span,
    pub cyclomatic: u32,
    pub cognitive: u32,
}

/// What the children of an entered node see: the nesting depth, the
/// enclosing class, and whether the node opened a function.
pub struct CtxView {
    pub nesting: u32,
    pub class: Option<Seq<char>>,
    pub is_fn: bool,
}

pub struct MetricsView {
    pub name: Seq<char>,
    pub parent: Option<Seq<char>>,
    pub span: Span,
    pub cyclomatic: u32,
    pub cognitive: u32,
    pub loc: u32,
}

pub open spec fn metrics_view(m: FunctionMetrics) -> MetricsView {
    MetricsView { name: m.name@, parent: opt_str(m.parent), span: m.span, cyclomatic: m.cyclomatic, cognitive: m.cognitive, loc: m.loc }
}

pub open spec fn metrics_views(v: Seq<FunctionMetrics>) -> Seq<MetricsView> {
    v.map_values(|m: FunctionMetrics| metrics_view(m))
}

pub open spec fn finished(f: FrameView) -> MetricsView {
    MetricsView {
        name: f.name,
        parent: f.parent,
        span: f.span,
        cyclomatic: f.cyclomatic,
        cognitive: f.cognitive,
        loc: ((if f.span.end_line >= f.span.start_line { f.span.end_line - f.span.start_line } else { 0 }) + 1) as u32,
    }
}

pub open spec fn bumped(f: FrameView, x: Inc, nesting: u32) -> FrameView {
    FrameView {
        cyclomatic: wrap(f.cyclomatic + x.cyclomatic),
        cognitive: wrap(f.cognitive + wrap(x.cognitive + if x.nests { nesting as int } else { 0 })),
        ..f
    }
}

pub open spec fn top_ctx(ctx: Seq<CtxView>) -> CtxView {
    if ctx.len() > 0 { ctx.last() } else { CtxView { nesting: 0, class: None, is_fn: false } }
}

/// The metrics of the functions the walk finishes from step `i` on, each when
/// its node closes, given the contexts `ctx` of the entered nodes and the
/// open functions `frames`.
pub open spec fn cx_from(ev: Seq<EventView>, i: int, lang: Language, ctx: Seq<CtxView>, frames: Seq<FrameView>) -> Seq<MetricsView>
    decreases ev.len() - i,
{
    if i < 0 || i >= ev.len() {
        Seq::empty()
    } else {
        match ev[i] {
            EventView::Close => if ctx.len() > 0 && ctx.last().is_fn && frames.len() > 0 {
                seq![finished(frames.last())] + cx_from(ev, i + 1, lang, ctx.drop_last(), frames.drop_last())
            } else {
                cx_from(ev, i + 1, lang, if ctx.len() > 0 { ctx.drop_last() } else { ctx }, frames)
            },
            EventView::Open { .. } => {
                let cur = top_ctx(ctx);
                let x = node_inc(ev, i, lang);
                if x.is_fn {
                    cx_from(ev, i + 1, lang, ctx.push(CtxView { nesting: 0, class: cur.class, is_fn: true }),
                        frames.push(FrameView { name: fn_name(ev, i), parent: cur.class, span: span_at(ev, i), cyclomatic: 1, cognitive: 0 }))
                } else {
                    let fr = if frames.len() > 0 { frames.update(frames.len() - 1, bumped(frames.last(), x, cur.nesting)) } else { frames };
                    let n = if x.nests && frames.len() > 0 { wrap(cur.nesting + 1) } else { cur.nesting };
                    let c = if x.is_class { match field_text(ev, i, "name"@) { Some(nm) => Some(nm), None => cur.class } } else { cur.class };
                    cx_from(ev, i + 1, lang, ctx.push(CtxView { nesting: n, class: c, is_fn: false }), fr)
                }
            },
        }
    }
}

fn wadd(a: u32, b: u32) -> (r: u32)
    ensures
        r == wrap(a + b),
{
    ((a as u64 + b as u64) % 0x1_0000_0000) as u32
}

fn op_is(ev: &Vec<SyntaxEvent>, i: usize, op: &str) -> (r: bool)
    requires
        i < ev@.len(),
    ensures
        r == (field_text(events_view(ev@), i as int, "operator"@) == Some(op@)),
{
    match field_text_of(ev, i, "operator") {
        Some(t) => str_is(t.as_str(), op),
        None => false,
    }
}

fn plain(c: u32, g: u32, nests: bool) -> (r: Inc)
    ensures
        r == inc(c, g, nests),
{
    Inc { cyclomatic: c, cognitive: g, nests, is_fn: false, is_class: false }
}

fn inc_of(ev: &Vec<SyntaxEvent>, i: usize, lang: Language) -> (r: Inc)
    requires
        i < ev@.len(),
    ensures
        r == node_inc(events_view(ev@), i as int, lang),
{
    let ghost evv = events_view(ev@);
    let py = match lang { Language::Python => true, _ => false };
    if py {
        if kind_is(ev, i, "function_definition") || kind_is(ev, i, "lambda") {
            Inc { cyclomatic: 0, cognitive: 0, nests: false, is_fn: true, is_class: false }
        } else if kind_is(ev, i, "class_definition") {
            Inc { cyclomatic: 0, cognitive: 0, nests: false, is_fn: false, is_class: true }
        } else if kind_is(ev, i, "if_statement") || kind_is(ev, i, "for_statement") || kind_is(ev, i, "while_statement")
            || kind_is(ev, i, "except_clause") || kind_is(ev, i, "conditional_expression") {
            plain(1, 1, true)
        } else if kind_is(ev, i, "match_statement") {
            plain(0, 1, true)
        } else if kind_is(ev, i, "case_clause") {
            plain(1, 0, false)
        } else if kind_is(ev, i, "elif_clause") {
            plain(1, 1, false)
        } else if kind_is(ev, i, "else_clause") {
            plain(0, 1, false)
        } else if kind_is(ev, i, "boolean_operator") {
            plain(1, 1, false)
        } else {
            plain(0, 0, false)
        }
    } else {
        if kind_is(ev, i, "function_declaration") || kind_is(ev, i, "generator_function_declaration")
            || kind_is(ev, i, "function_expression") || kind_is(ev, i, "arrow_function") || kind_is(ev, i, "method_definition") {
            Inc { cyclomatic: 0, cognitive: 0, nests: false, is_fn: true, is_class: false }
        } else if kind_is(ev, i, "class_declaration") || kind_is(ev, i, "abstract_class_declaration") {
            Inc { cyclomatic: 0, cognitive: 0, nests: false, is_fn: false, is_class: true }
        } else if kind_is(ev, i, "if_statement") || kind_is(ev, i, "for_statement") || kind_is(ev, i, "for_in_statement")
            || kind_is(ev, i, "while_statement") || kind_is(ev, i, "do_statement") || kind_is(ev, i, "ternary_expression")
            || kind_is(ev, i, "catch_clause") {
            plain(1, 1, true)
        } else if kind_is(ev, i, "switch_statement") {
            plain(0, 1, true)
        } else if kind_is(ev, i, "switch_case") {
            plain(1, 0, false)
        } else if kind_is(ev, i, "else_clause") {
            plain(0, 1, false)
        } else if kind_is(ev, i, "binary_expression") && (op_is(ev, i, "&&") || op_is(ev, i, "||") || op_is(ev, i, "??")) {
            plain(1, 1, false)
        } else {
            plain(0, 0, false)
        }
    }
}

fn fn_name_of(ev: &Vec<SyntaxEvent>, i: usize) -> (r: String)
    requires
        i < ev@.len(),
    ensures
        r@ == fn_name(events_view(ev@), i as int),
{
    let ghost evv = events_view(ev@);
    match field_text_of(ev, i, "name") {
        Some(n) => { return n; },
        None => {},
    }
    proof { reveal_strlit("(anonymous)"); }
    match parent_index_of(ev, i) {
        Some(p) => {
            if kind_is(ev, p, "variable_declarator") || kind_is(ev, p, "assignment") || kind_is(ev, p, "pair") {
                match field_text_of(ev, p, "name") {
                    Some(n) => { return n; },
                    None => {},
                }
                match field_text_of(ev, p, "left") {
                    Some(n) => { return n; },
                    None => {},
                }
            }
            owned("(anonymous)")
        },
        None => owned("(anonymous)"),
    }
}

pub open spec fn ctx_view(c: (u32, Option<String>, bool)) -> CtxView {
    CtxView { nesting: c.0, class: opt_str(c.1), is_fn: c.2 }
}

pub open spec fn ctx_views(v: Seq<(u32, Option<String>, bool)>) -> Seq<CtxView> {
    v.map_values(|c: (u32, Option<String>, bool)| ctx_view(c))
}

pub open spec fn frame_view(f: (String, Option<String>, Span, u32, u32)) -> FrameView {
    FrameView { name: f.0@, parent: opt_str(f.1), span: f.2, cyclomatic: f.3, cognitive: f.4 }
}

pub open spec fn frame_views(v: Seq<(String, Option<String>, Span, u32, u32)>) -> Seq<FrameView> {
    v.map_values(|f: (String, Option<String>, Span, u32, u32)| frame_view(f))
}

fn copy_opt(o: &Option<String>) -> (r: Option<String>)
    ensures
        opt_str(r) == opt_str(*o),
{
    match o {
        Some(s) => Some(crate::text::copy_string(s)),
        None => None,
    }
}

/// The complexity of each function of a walk, in the order the functions end.
#[verifier::rlimit(60)]
pub fn complexity_from_events(ev: &Vec<SyntaxEvent>, lang: Language) -> (r: Vec<FunctionMetrics>)
    requires
        rows_fit(events_view(ev@)),
    ensures
        metrics_views(r@) == cx_from(events_view(ev@), 0, lang, Seq::empty(), Seq::empty()),
{
    let ghost evv = events_view(ev@);
    let mut out: Vec<FunctionMetrics> = Vec::new();
    let mut ctx: Vec<(u32, Option<String>, bool)> = Vec::new();
    let mut frames: Vec<(String, Option<String>, Span, u32, u32)> = Vec::new();
    let mut i: usize = 0;
    assert(ctx_views(ctx@) =~= Seq::<CtxView>::empty());
    assert(frame_views(frames@) =~= Seq::<FrameView>::empty());
    while i < ev.len()
        invariant
            i <= ev@.len(),
            evv == events_view(ev@),
            rows_fit(evv),
            metrics_views(out@) + cx_from(evv, i as int, lang, ctx_views(ctx@), frame_views(frames@))
                == cx_from(evv, 0, lang, Seq::empty(), Seq::empty()),
            forall|q: int| 0 <= q < frames@.len() ==> (#[trigger] frames@[q]).2.end_line < u32::MAX,
        decreases ev@.len() - i,
    {
        let ghost before = metrics_views(out@);
        let ghost c0 = ctx_views(ctx@);
        let ghost f0 = frame_views(frames@);
        assert(evv[i as int] == ev@[i as int]@);
        if !is_open_at(ev, i) {
            if ctx.len() > 0 {
                let top = ctx.pop().unwrap();
                proof {
                    assert(ctx_views(ctx@) =~= c0.drop_last());
                    assert(c0.last() == ctx_view(top));
                }
                if top.2 && frames.len() > 0 {
                    let f = frames.pop().unwrap();
                    assert(f.2.end_line < u32::MAX);
                    proof {
                        assert(frame_views(frames@) =~= f0.drop_last());
                        assert(f0.last() == frame_view(f));
                    }
                    let loc = (if f.2.end_line >= f.2.start_line { f.2.end_line - f.2.start_line } else { 0 }) + 1;
                    out.push(FunctionMetrics { name: f.0, parent: f.1, span: f.2, cyclomatic: f.3, cognitive: f.4, loc });
                    assert(metrics_views(out@) =~= before.push(finished(frame_view(f))));
                }
            }
            i += 1;
        } else {
            let cur_nesting: u32 = if ctx.len() > 0 { ctx[ctx.len() - 1].0 } else { 0 };
            let cur_class: Option<String> = if ctx.len() > 0 { copy_opt(&ctx[ctx.len() - 1].1) } else { None };
            proof {
                if c0.len() > 0 {
                    assert(c0.last() == ctx_view(ctx@[ctx@.len() - 1]));
                }
            }
            assert(top_ctx(c0).nesting == cur_nesting && top_ctx(c0).class == opt_str(cur_class));
            let x = inc_of(ev, i, lang);
            if x.is_fn {
                let name = fn_name_of(ev, i);
                let span = span_of(ev, i);
                assert(span.end_line < u32::MAX) by {
                    match evv[i as int] {
                        EventView::Open { end_row, .. } => { assert(end_row + 2 <= u32::MAX); },
                        EventView::Close => {},
                    }
                }
                ctx.push((0, copy_opt(&cur_class), true));
                frames.push((name, cur_class, span, 1, 0));
                assert(ctx_views(ctx@) =~= c0.push(CtxView { nesting: 0, class: top_ctx(c0).class, is_fn: true }));
                assert(frame_views(frames@) =~= f0.push(FrameView { name: fn_name(evv, i as int), parent: top_ctx(c0).class, span: span_at(evv, i as int), cyclomatic: 1, cognitive: 0 }));
            } else {
                let had = frames.len() > 0;
                if had {
                    let last = frames.len() - 1;
                    let f = frames.remove(last);
                    assert(f.2.end_line < u32::MAX);
                    let cyc = wadd(f.3, x.cyclomatic);
                    let extra = wadd(x.cognitive, if x.nests { cur_nesting } else { 0 });
                    let cog = wadd(f.4, extra);
                    frames.push((f.0, f.1, f.2, cyc, cog));
                    proof {
                        assert(f0[last as int] == frame_view(f));
                        assert(frame_views(frames@) =~= f0.update(f0.len() - 1, bumped(f0.last(), x, cur_nesting)));
                    }
                }
                let n = if x.nests && had { wadd(cur_nesting, 1) } else { cur_nesting };
                let c = if x.is_class {
                    match field_text_of(ev, i, "name") { Some(nm) => Some(nm), None => cur_class }
                } else {
                    cur_class
                };
                let ghost cv = opt_str(c);
                ctx.push((n, c, false));
                assert(ctx_views(ctx@) =~= c0.push(CtxView { nesting: n, class: cv, is_fn: false }));
            }
            i += 1;
        }
    }
    assert(metrics_views(out@) =~= metrics_views(out@) + cx_from(evv, i as int, lang, ctx_views(ctx@), frame_views(frames@)));
    out
}

} // verus!
