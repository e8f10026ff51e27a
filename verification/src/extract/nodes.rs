//! Reading a walk: a node's parent, a child of a given kind, a string's
//! inside, the identifiers below a node.

use vstd::prelude::*;
use crate::order::string_views;
use crate::syntax::{
    after_subtree, children, children_of, events_view, first_of_kind, index_view, is_open, kind_at, kind_is,
    text_at, text_of, EventView, SyntaxEvent,
};
use crate::text::{chars_of, string_from};

verus! {

/// The node that encloses the one scanned back from `j` at nesting `d`, or -1.
pub open spec fn parent_from(ev: Seq<EventView>, j: int, d: nat) -> int
    decreases j + 1,
{
    if j < 0 || j >= ev.len() {
        -1
    } else {
        match ev[j] {
            EventView::Close => parent_from(ev, j - 1, d + 1),
            EventView::Open { .. } => if d == 0 { j } else { parent_from(ev, j - 1, (d - 1) as nat) },
        }
    }
}

/// The kind of the node that encloses the node opened at `i`; empty at the root.
pub open spec fn parent_kind(ev: Seq<EventView>, i: int) -> Seq<char> {
    let p = parent_from(ev, i - 1, 0);
    if p < 0 { Seq::empty() } else { kind_at(ev, p) }
}

/// The first child of the node at `i` of kind `k`, if any.
pub open spec fn child_of_kind(ev: Seq<EventView>, i: int, k: Seq<char>) -> Option<int> {
    let cs = children(ev, i);
    let p = first_of_kind(ev, cs, k, k, 0);
    if p < cs.len() { Some(cs[p]) } else { None }
}

pub open spec fn is_quote(c: char) -> bool {
    c == '"' || c == '\'' || c == '`'
}

/// A string literal's text with its surrounding quotes taken off (the text
/// itself when it is not quoted at both ends).
pub open spec fn unquote(raw: Seq<char>) -> Seq<char> {
    if raw.len() >= 2 && is_quote(raw[0]) && is_quote(raw.last()) { raw.subrange(1, raw.len() - 1) } else { raw }
}

/// A text with its leading `#`s taken off.
pub open spec fn strip_hashes(s: Seq<char>) -> Seq<char>
    decreases s.len(),
{
    if s.len() > 0 && s[0] == '#' { strip_hashes(s.drop_first()) } else { s }
}

/// The texts of the nodes opened in `[lo, n)` whose kind is `a` or `b`.
pub open spec fn idents_in(ev: Seq<EventView>, lo: int, n: int, a: Seq<char>, b: Seq<char>) -> Seq<Seq<char>>
    decreases n - lo,
{
    if n <= lo {
        Seq::empty()
    } else {
        idents_in(ev, lo, n - 1, a, b) + if is_open(ev, n - 1) && (kind_at(ev, n - 1) == a || kind_at(ev, n - 1) == b) {
            seq![text_at(ev, n - 1)]
        } else {
            Seq::empty()
        }
    }
}

/// The texts of the nodes of kind `a` or `b` at or below the node at `i`.
pub open spec fn idents_below(ev: Seq<EventView>, i: int, a: Seq<char>, b: Seq<char>) -> Seq<Seq<char>> {
    idents_in(ev, i, after_subtree(ev, i), a, b)
}

/// The node that encloses the node opened at `i`, if any.
pub fn parent_kind_of(ev: &Vec<SyntaxEvent>, i: usize) -> (r: String)
    requires
        i < ev@.len(),
    ensures
        r@ == parent_kind(events_view(ev@), i as int),
{
    let ghost evv = events_view(ev@);
    let mut j: usize = i;
    let mut d: usize = 0;
    while j > 0
        invariant
            evv == events_view(ev@),
            j <= i < ev@.len(),
            d <= i - j,
            parent_from(evv, i - 1, 0) == parent_from(evv, j - 1, d as nat),
        decreases j,
    {
        assert(evv[j - 1] == ev@[j - 1]@);
        match &ev[j - 1] {
            SyntaxEvent::Close => {
                d += 1;
            },
            SyntaxEvent::Open(kind, ..) => {
                if d == 0 {
                    return crate::text::copy_string(kind);
                }
                d -= 1;
            },
        }
        j -= 1;
    }
    proof { reveal_strlit(""); }
    crate::text::owned("")
}

/// The node that encloses the node opened at `i`, if any.
pub fn parent_index_of(ev: &Vec<SyntaxEvent>, i: usize) -> (r: Option<usize>)
    requires
        i < ev@.len(),
    ensures
        match r {
            Some(p) => parent_from(events_view(ev@), i - 1, 0) == p as int && p < i,
            None => parent_from(events_view(ev@), i - 1, 0) < 0,
        },
{
    let ghost evv = events_view(ev@);
    let mut j: usize = i;
    let mut d: usize = 0;
    while j > 0
        invariant
            evv == events_view(ev@),
            j <= i < ev@.len(),
            d <= i - j,
            parent_from(evv, i - 1, 0) == parent_from(evv, j - 1, d as nat),
        decreases j,
    {
        assert(evv[j - 1] == ev@[j - 1]@);
        match &ev[j - 1] {
            SyntaxEvent::Close => {
                d += 1;
            },
            SyntaxEvent::Open(..) => {
                if d == 0 {
                    return Some(j - 1);
                }
                d -= 1;
            },
        }
        j -= 1;
    }
    None
}

/// The first child of the node at `i` of kind `k`, if any.
pub fn child_of_kind_of(ev: &Vec<SyntaxEvent>, i: usize, k: &str) -> (r: Option<usize>)
    requires
        i < ev@.len(),
    ensures
        match r {
            Some(c) => child_of_kind(events_view(ev@), i as int, k@) == Some(c as int) && i < c < ev@.len(),
            None => child_of_kind(events_view(ev@), i as int, k@) is None,
        },
{
    let ghost evv = events_view(ev@);
    let cs = children_of(ev, i);
    let mut p: usize = 0;
    while p < cs.len()
        invariant
            p <= cs@.len(),
            evv == events_view(ev@),
            index_view(cs@) == children(evv, i as int),
            forall|q: int| 0 <= q < cs@.len() ==> i < #[trigger] cs@[q] < ev@.len(),
            first_of_kind(evv, index_view(cs@), k@, k@, 0) == first_of_kind(evv, index_view(cs@), k@, k@, p as int),
        decreases cs@.len() - p,
    {
        assert(index_view(cs@)[p as int] == cs@[p as int] as int);
        if kind_is(ev, cs[p], k) {
            return Some(cs[p]);
        }
        p += 1;
    }
    None
}

fn quote_char(c: char) -> (r: bool)
    ensures
        r == is_quote(c),
{
    c == '"' || c == '\'' || c == '`'
}

/// A string literal's text with its surrounding quotes taken off.
pub fn unquote_of(raw: &String) -> (r: String)
    ensures
        r@ == unquote(raw@),
{
    let v = chars_of(raw.as_str());
    let n = v.len();
    if n >= 2 && quote_char(v[0]) && quote_char(v[n - 1]) {
        crate::path::slice_to_string(&v, 1, n - 1)
    } else {
        crate::text::copy_string(raw)
    }
}

/// A text with its leading `#`s taken off.
pub fn strip_hashes_of(s: &String) -> (r: String)
    ensures
        r@ == strip_hashes(s@),
{
    let v = chars_of(s.as_str());
    let mut k: usize = 0;
    assert(v@.skip(0) =~= v@);
    while k < v.len() && v[k] == '#'
        invariant
            k <= v@.len(),
            v@ == s@,
            strip_hashes(s@) == strip_hashes(v@.skip(k as int)),
        decreases v@.len() - k,
    {
        assert(v@.skip(k as int).drop_first() =~= v@.skip(k + 1));
        k += 1;
    }
    assert(v@.skip(k as int) =~= v@.subrange(k as int, v@.len() as int));
    crate::path::slice_to_string(&v, k, v.len())
}

/// The texts of the nodes of kind `a` or `b` at or below the node at `i`.
pub fn idents_below_of(ev: &Vec<SyntaxEvent>, i: usize, a: &str, b: &str) -> (r: Vec<String>)
    requires
        i < ev@.len(),
    ensures
        string_views(r@) == idents_below(events_view(ev@), i as int, a@, b@),
{
    let ghost evv = events_view(ev@);
    let end = crate::syntax::after_subtree_of(ev, i);
    let mut out: Vec<String> = Vec::new();
    let mut j = i;
    while j < end
        invariant
            i <= j <= end <= ev@.len(),
            evv == events_view(ev@),
            string_views(out@) == idents_in(evv, i as int, j as int, a@, b@),
        decreases end - j,
    {
        let ghost before = out@;
        if crate::syntax::is_open_at(ev, j) && (kind_is(ev, j, a) || kind_is(ev, j, b)) {
            out.push(text_of(ev, j));
            assert(string_views(out@) =~= string_views(before).push(text_at(evv, j as int)));
        } else {
            assert(string_views(out@) =~= string_views(before));
        }
        j += 1;
    }
    out
}

/// The whitespace-separated words of a text, in order (`str::split_whitespace`).
pub open spec fn words(s: Seq<char>) -> Seq<Seq<char>>
    decreases s.len(),
{
    if s.len() == 0 {
        Seq::empty()
    } else {
        let w = words(s.drop_last());
        let c = s.last();
        if crate::scan::is_ws(c) {
            w
        } else if s.len() >= 2 && !crate::scan::is_ws(s[s.len() - 2]) {
            w.update(w.len() - 1, w.last().push(c))
        } else {
            w.push(seq![c])
        }
    }
}

/// The whitespace-separated words of a text, in order.
pub fn words_of(s: &String) -> (r: Vec<String>)
    ensures
        string_views(r@) == words(s@),
{
    let v = chars_of(s.as_str());
    let mut out: Vec<String> = Vec::new();
    let mut cur: Vec<char> = Vec::new();
    let mut in_word = false;
    let mut k: usize = 0;
    while k < v.len()
        invariant
            k <= v@.len(),
            v@ == s@,
            in_word == (k > 0 && !crate::scan::is_ws(v@[k - 1])),
            string_views(out@) + (if in_word { seq![cur@] } else { Seq::empty() }) == words(v@.take(k as int)),
        decreases v@.len() - k,
    {
        let c = v[k];
        let ghost t = v@.take(k + 1);
        proof {
            assert(t.drop_last() =~= v@.take(k as int));
            assert(t.last() == c);
            if k > 0 {
                assert(t[t.len() - 2] == v@[k - 1]);
            }
        }
        let ghost o0 = string_views(out@);
        let ghost c0 = cur@;
        if crate::scan::is_whitespace(c) {
            if in_word {
                out.push(string_from(cur.as_slice()));
                cur = Vec::new();
                in_word = false;
                assert(string_views(out@) =~= o0.push(c0));
            }
        } else if in_word {
            cur.push(c);
            assert((o0 + seq![c0]).update(o0.len() as int, c0.push(c)) =~= o0 + seq![cur@]);
        } else {
            cur = Vec::new();
            cur.push(c);
            in_word = true;
            assert(cur@ =~= seq![c]);
        }
        k += 1;
    }
    assert(v@.take(v@.len() as int) =~= v@);
    if in_word {
        let ghost o0 = string_views(out@);
        out.push(string_from(cur.as_slice()));
        assert(string_views(out@) =~= o0 + seq![cur@]);
    } else {
        assert(string_views(out@) + Seq::<Seq<char>>::empty() =~= string_views(out@));
    }
    out
}

} // verus!
