//! The duplication token stream: the leaves of a syntax tree, each hashed and
//! classed by its kind. Comments are left out; a string is one token, its
//! inside not read.

use vstd::prelude::*;
use crate::facts::{Tok, TokKind};
use crate::hash::{content_hash, xxh3_of};
use crate::ids::Language;
use crate::syntax::{
    after_subtree, after_subtree_of, events_view, is_leaf, is_open_at, kind_at, kind_is, rows_fit,
    rows_fit_exec, source_events, source_events_of, span_at, span_of, text_at, text_of, EventView,
    SyntaxEvent,
};

verus! {

pub open spec fn is_string_kind(k: Seq<char>) -> bool {
    k == "string"@ || k == "template_string"@ || k == "concatenated_string"@
}

pub open spec fn is_ident_kind(k: Seq<char>) -> bool {
    k == "identifier"@ || k == "property_identifier"@ || k == "type_identifier"@
        || k == "shorthand_property_identifier"@ || k == "private_property_identifier"@
        || k == "field_identifier"@
}

pub open spec fn is_num_kind(k: Seq<char>) -> bool {
    k == "number"@ || k == "integer"@ || k == "float"@
}

/// The token the node at `i` gives, of class `kind`: the hash of its text's
/// bytes, its first line, and whether it ends a statement (`;` or `}`).
pub open spec fn tok_at(ev: Seq<EventView>, i: int, kind: TokKind) -> Tok {
    Tok {
        hash: xxh3_of(vstd::utf8::encode_utf8(text_at(ev, i))),
        kind,
        line: span_at(ev, i).start_line,
        stmt_end: kind_at(ev, i) == ";"@ || kind_at(ev, i) == "}"@,
    }
}

/// The tokens of the walk from step `i` on.
pub open spec fn tokens_from(ev: Seq<EventView>, i: int) -> Seq<Tok>
    decreases ev.len() - i,
{
    if i < 0 || i >= ev.len() {
        Seq::empty()
    } else {
        match ev[i] {
            EventView::Close => tokens_from(ev, i + 1),
            EventView::Open { .. } => {
                let k = kind_at(ev, i);
                let nx = after_subtree(ev, i);
                if nx <= i {
                    Seq::empty()
                } else if k == "comment"@ {
                    tokens_from(ev, nx)
                } else if is_string_kind(k) {
                    seq![tok_at(ev, i, TokKind::Str)] + tokens_from(ev, nx)
                } else if is_leaf(ev, i) && text_at(ev, i).len() > 0 {
                    let c = if is_ident_kind(k) { TokKind::Ident } else if is_num_kind(k) { TokKind::Num } else { TokKind::Punct };
                    seq![tok_at(ev, i, c)] + tokens_from(ev, i + 1)
                } else {
                    tokens_from(ev, i + 1)
                }
            },
        }
    }
}

/// Comments never take part in duplication: the tokens from a comment on are
/// those after it.
pub proof fn law_comments_give_no_tokens(ev: Seq<EventView>, i: int)
    requires
        0 <= i < ev.len(),
        ev[i] is Open,
        kind_at(ev, i) == "comment"@,
    ensures
        tokens_from(ev, i) == tokens_from(ev, after_subtree(ev, i)),
{
    crate::syntax::lemma_close_from(ev, i + 1, 0);
}

fn kind_in3(ev: &Vec<SyntaxEvent>, i: usize, a: &str, b: &str, c: &str) -> (r: bool)
    requires
        i < ev@.len(),
    ensures
        r == (kind_at(events_view(ev@), i as int) == a@ || kind_at(events_view(ev@), i as int) == b@
            || kind_at(events_view(ev@), i as int) == c@),
{
    kind_is(ev, i, a) || kind_is(ev, i, b) || kind_is(ev, i, c)
}

fn tok_of(ev: &Vec<SyntaxEvent>, i: usize, kind: TokKind) -> (r: Tok)
    requires
        i < ev@.len(),
        rows_fit(events_view(ev@)),
    ensures
        r == tok_at(events_view(ev@), i as int, kind),
{
    let t = text_of(ev, i);
    let hash = content_hash(t.as_str().as_bytes());
    let span = span_of(ev, i);
    let stmt_end = kind_is(ev, i, ";") || kind_is(ev, i, "}");
    Tok { hash, kind, line: span.start_line, stmt_end }
}

/// The duplication tokens of a walk, in document order.
pub fn tokens_from_events(ev: &Vec<SyntaxEvent>) -> (r: Vec<Tok>)
    requires
        rows_fit(events_view(ev@)),
    ensures
        r@ == tokens_from(events_view(ev@), 0),
{
    let ghost evv = events_view(ev@);
    let mut out: Vec<Tok> = Vec::new();
    let mut i: usize = 0;
    while i < ev.len()
        invariant
            i <= ev@.len(),
            evv == events_view(ev@),
            rows_fit(evv),
            out@ + tokens_from(evv, i as int) == tokens_from(evv, 0),
        decreases ev@.len() - i,
    {
        let ghost before = out@;
        assert(evv[i as int] == ev@[i as int]@);
        if !is_open_at(ev, i) {
            i += 1;
        } else {
            let nx = after_subtree_of(ev, i);
            if kind_is(ev, i, "comment") {
                i = nx;
            } else if kind_in3(ev, i, "string", "template_string", "concatenated_string") {
                out.push(tok_of(ev, i, TokKind::Str));
                assert(out@ + tokens_from(evv, nx as int) =~= before + tokens_from(evv, i as int));
                i = nx;
            } else {
                let t = text_of(ev, i);
                let leaf = !is_open_at(ev, i + 1);
                if leaf && crate::text::chars_of(t.as_str()).len() > 0 {
                    let c = if kind_in3(ev, i, "identifier", "property_identifier", "type_identifier")
                        || kind_in3(ev, i, "shorthand_property_identifier", "private_property_identifier", "field_identifier") {
                        TokKind::Ident
                    } else if kind_in3(ev, i, "number", "integer", "float") {
                        TokKind::Num
                    } else {
                        TokKind::Punct
                    };
                    out.push(tok_of(ev, i, c));
                    assert(out@ + tokens_from(evv, i + 1) =~= before + tokens_from(evv, i as int));
                }
                i += 1;
            }
        }
    }
    assert(out@ =~= out@ + tokens_from(evv, i as int));
    out
}

/// The duplication tokens of a source file parsed as `language`; `None` when
/// a node's row does not fit a line number.
pub fn tokenize(source: &str, language: Language) -> (r: Option<Vec<Tok>>)
    ensures
        match r {
            None => !rows_fit(source_events_of(source@, language)),
            Some(t) => rows_fit(source_events_of(source@, language))
                && t@ == tokens_from(source_events_of(source@, language), 0),
        },
{
    let ev = source_events(source, language);
    if !rows_fit_exec(&ev) {
        return None;
    }
    Some(tokens_from_events(&ev))
}

} // verus!
