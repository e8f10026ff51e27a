//! Directives written in comments: `noslop-ignore-file` and
//! `noslop-ignore-next-line` suppressions, and `@public`, `@internal` and
//! `@expected-unused` annotations, each with an optional `-- reason`.

use vstd::prelude::*;
use vstd::string::*;
use crate::facts::{Annotation, Suppression, Visibility};
use crate::fix::lines::{lines, split_lines};
use crate::scan::{find_from, find_sub, is_whitespace, is_ws, lead_ws, lemma_find_from, trail_ws, trim, trim_bounds, trim_start, copy_range, trimmed};
use crate::text::{chars_of, str_is, string_from};

verus! {

/// Comment markers stripped from the front of a suppression comment.
pub open spec fn lead_mark(c: char) -> bool {
    c == '/' || c == '#' || c == '*' || c == ' '
}

/// Comment markers stripped from the back of a suppression comment.
pub open spec fn tail_mark(c: char) -> bool {
    c == '*' || c == '/' || c == ' '
}

/// The number of leading characters satisfying `lead_mark` from `i` on.
pub open spec fn lead_marks(s: Seq<char>, i: int) -> int
    decreases s.len() - i,
{
    if i < 0 || i >= s.len() || !lead_mark(s[i]) { if i < 0 { 0 } else { i } } else { lead_marks(s, i + 1) }
}

/// The end of `s[..n]` once trailing `tail_mark` characters are stripped.
pub open spec fn tail_marks(s: Seq<char>, n: int) -> int
    decreases n,
{
    if n <= 0 || !tail_mark(s[n - 1]) { if n < 0 { 0 } else { n } } else { tail_marks(s, n - 1) }
}

/// The first whitespace position from `i` on, else the length.
pub open spec fn first_ws(s: Seq<char>, i: int) -> int
    decreases s.len() - i,
{
    if i < 0 || i >= s.len() { s.len() as int } else if is_ws(s[i]) { i } else { first_ws(s, i + 1) }
}

/// The first non-whitespace position from `i` on, else the length.
pub open spec fn first_non_ws(s: Seq<char>, i: int) -> int
    decreases s.len() - i,
{
    if i < 0 || i >= s.len() { s.len() as int } else if !is_ws(s[i]) { i } else { first_non_ws(s, i + 1) }
}

/// The first whitespace-separated word of `s`, or empty.
pub open spec fn first_word(s: Seq<char>) -> Seq<char> {
    let a = first_non_ws(s, 0);
    s.subrange(a, first_ws(s, a))
}

/// What a suppression comment says: the rule, whether it covers the whole
/// file, the line it applies to, and its reason.
pub struct SuppressionView {
    pub rule: Seq<char>,
    pub file_scoped: bool,
    pub line: int,
    pub reason: Option<Seq<char>>,
}

/// The `--` that starts a reason.
pub open spec fn dashes() -> Seq<char> {
    seq!['-', '-']
}

/// A comment with its leading `/`, `#`, `*`, spaces and its trailing `*`,
/// `/`, spaces stripped.
pub open spec fn comment_body(comment: Seq<char>) -> Seq<char> {
    let a = lead_marks(comment, 0);
    comment.subrange(a, if tail_marks(comment, comment.len() as int) < a { a } else { tail_marks(comment, comment.len() as int) })
}

/// The directive word a comment opens with, if a space follows it.
pub open spec fn directive_of(comment: Seq<char>) -> Option<Seq<char>> {
    let text = comment_body(comment);
    let w = first_ws(text, 0);
    if w >= text.len() { None } else { Some(text.take(w)) }
}

/// The suppression a comment on line `line` states, if any: comment markers
/// stripped, a directive word, then a rule name and an optional `-- reason`.
pub open spec fn suppression_of(comment: Seq<char>, line: int) -> Option<SuppressionView> {
    let text = comment_body(comment);
    let w = first_ws(text, 0);
    if w >= text.len() {
        None
    } else {
        let directive = text.take(w);
        let rest = trim(text.skip(w + 1));
        let d = find_from(rest, dashes(), 0);
        let rule = if d >= 0 { trim(rest.take(d)) } else { first_word(rest) };
        let reason = if d >= 0 { Some(trim(rest.skip(d + 2))) } else { None };
        if directive == "noslop-ignore-file"@ && rule.len() > 0 {
            Some(SuppressionView { rule: first_word(rule), file_scoped: true, line, reason })
        } else if directive == "noslop-ignore-next-line"@ && rule.len() > 0 {
            Some(SuppressionView { rule: first_word(rule), file_scoped: false, line: line + 1, reason })
        } else {
            None
        }
    }
}

proof fn lemma_first_non_ws(s: Seq<char>, i: int)
    requires
        0 <= i <= s.len(),
    ensures
        i <= first_non_ws(s, i) <= s.len(),
        first_non_ws(s, i) < s.len() ==> !is_ws(s[first_non_ws(s, i)]),
    decreases s.len() - i,
{
    if i < s.len() && is_ws(s[i]) {
        lemma_first_non_ws(s, i + 1);
    }
}

proof fn lemma_first_ws(s: Seq<char>, i: int)
    requires
        0 <= i <= s.len(),
    ensures
        i <= first_ws(s, i) <= s.len(),
        forall|t: int| i <= t < first_ws(s, i) ==> !is_ws(#[trigger] s[t]),
    decreases s.len() - i,
{
    if i < s.len() && !is_ws(s[i]) {
        lemma_first_ws(s, i + 1);
    }
}

/// A text whose first character is no whitespace has a non-empty first word,
/// itself starting with no whitespace.
proof fn lemma_first_word(s: Seq<char>)
    requires
        s.len() > 0,
        !is_ws(s[0]),
    ensures
        first_word(s).len() > 0,
        !is_ws(first_word(s)[0]),
{
    lemma_first_non_ws(s, 0);
    lemma_first_ws(s, 1);
    assert(first_non_ws(s, 0) == 0);
    assert(first_ws(s, 0) > 0);
}

proof fn lemma_lead_ws_stop(s: Seq<char>)
    ensures
        lead_ws(s) <= s.len(),
        lead_ws(s) < s.len() ==> !is_ws(s[lead_ws(s) as int]),
    decreases s.len(),
{
    if s.len() > 0 && is_ws(s[0]) {
        lemma_lead_ws_stop(s.drop_first());
    }
}

proof fn lemma_trail_ws_bound(s: Seq<char>)
    ensures
        trail_ws(s) <= s.len(),
    decreases s.len(),
{
    if s.len() > 0 && is_ws(s.last()) {
        lemma_trail_ws_bound(s.drop_last());
    }
}

/// A non-empty trimmed text starts with no whitespace.
proof fn lemma_trim_start_char(s: Seq<char>)
    requires
        trim(s).len() > 0,
    ensures
        !is_ws(trim(s)[0]),
{
    lemma_lead_ws_stop(s);
    lemma_trail_ws_bound(trim_start(s));
    assert(trim(s)[0] == trim_start(s)[0]);
    assert(trim_start(s)[0] == s[lead_ws(s) as int]);
}

/// Blanket ignores are rejected: every suppression a comment states names a
/// rule.
pub proof fn law_suppressions_name_a_rule(comment: Seq<char>, line: int)
    ensures
        suppression_of(comment, line) matches Some(v) ==> v.rule.len() > 0,
{
    let text = comment_body(comment);
    let w = first_ws(text, 0);
    if w < text.len() {
        let rest = trim(text.skip(w + 1));
        let d = find_from(rest, dashes(), 0);
        let rule = if d >= 0 { trim(rest.take(d)) } else { first_word(rest) };
        if rule.len() > 0 {
            if d >= 0 {
                lemma_trim_start_char(rest.take(d));
            } else {
                lemma_trim_start_char(text.skip(w + 1));
                lemma_first_word(rest);
            }
            lemma_first_word(rule);
        }
    }
}

fn find_ws(v: &Vec<char>, from: usize) -> (r: usize)
    requires
        from <= v@.len(),
    ensures
        r == first_ws(v@, from as int),
        from <= r <= v@.len(),
{
    let mut i = from;
    while i < v.len() && !is_whitespace(v[i])
        invariant
            from <= i <= v@.len(),
            first_ws(v@, from as int) == first_ws(v@, i as int),
        decreases v@.len() - i,
    {
        i += 1;
    }
    i
}

fn word_of(v: &Vec<char>) -> (r: Vec<char>)
    ensures
        r@ == first_word(v@),
{
    let mut a: usize = 0;
    while a < v.len() && is_whitespace(v[a])
        invariant
            a <= v@.len(),
            first_non_ws(v@, 0) == first_non_ws(v@, a as int),
        decreases v@.len() - a,
    {
        a += 1;
    }
    let b = find_ws(v, a);
    copy_range(v, a, b)
}

/// The comment's text between its markers.
fn body_of(comment: &str) -> (r: Vec<char>)
    ensures
        r@ == comment_body(comment@),
{
    let v = chars_of(comment);
    let mut a: usize = 0;
    while a < v.len() && (v[a] == '/' || v[a] == '#' || v[a] == '*' || v[a] == ' ')
        invariant
            a <= v@.len(),
            lead_marks(v@, 0) == lead_marks(v@, a as int),
        decreases v@.len() - a,
    {
        a += 1;
    }
    let mut b = v.len();
    while b > 0 && (v[b - 1] == '*' || v[b - 1] == '/' || v[b - 1] == ' ')
        invariant
            b <= v@.len(),
            tail_marks(v@, v@.len() as int) == tail_marks(v@, b as int),
        decreases b,
    {
        b -= 1;
    }
    let end = if b < a { a } else { b };
    copy_range(&v, a, end)
}

/// Does the comment open with the `noslop-ignore-next-line` directive? Only
/// then does `parse_suppression` need a line after the comment's own.
pub fn opens_next_line(comment: &str) -> (r: bool)
    ensures
        r == (directive_of(comment@) == Some("noslop-ignore-next-line"@)),
{
    let text = body_of(comment);
    let w = find_ws(&text, 0);
    if w >= text.len() {
        return false;
    }
    let directive = copy_range(&text, 0, w);
    assert(directive@ =~= text@.take(w as int));
    let ds = string_from(directive.as_slice());
    str_is(ds.as_str(), "noslop-ignore-next-line")
}

/// The suppression a comment on line `comment_line` states, if any.
pub fn parse_suppression(comment: &str, comment_line: u32) -> (r: Option<Suppression>)
    requires
        directive_of(comment@) == Some("noslop-ignore-next-line"@) ==> comment_line < u32::MAX,
    ensures
        match suppression_of(comment@, comment_line as int) {
            None => r is None,
            Some(v) => r matches Some(s) && s.rule@ == v.rule && s.file_scoped == v.file_scoped
                && s.line == v.line && match (s.reason, v.reason) {
                    (Some(x), Some(y)) => x@ == y,
                    (None, None) => true,
                    _ => false,
                },
        },
{
    let text = body_of(comment);
    let w = find_ws(&text, 0);
    if w >= text.len() {
        return None;
    }
    let directive = copy_range(&text, 0, w);
    assert(directive@ =~= text@.take(w as int));
    let after = copy_range(&text, w + 1, text.len());
    assert(after@ =~= text@.skip(w + 1));
    let rest = trimmed(&after);
    let dd = chars_of("--");
    proof { reveal_strlit("--"); }
    assert(dd@ =~= dashes());
    let (rule, reason) = match find_sub(&rest, &dd, 0) {
        Some(d) => {
            proof { lemma_find_from(rest@, dashes(), 0); }
            assert(dashes().len() == 2);
            assert(d + 2 <= rest@.len());
            let r1 = copy_range(&rest, 0, d);
            assert(r1@ =~= rest@.take(d as int));
            let r2 = copy_range(&rest, d + 2, rest.len());
            assert(r2@ =~= rest@.skip(d + 2));
            (trimmed(&r1), Some(string_from(trimmed(&r2).as_slice())))
        },
        None => (word_of(&rest), None),
    };
    if rule.len() == 0 {
        return None;
    }
    let ds = string_from(directive.as_slice());
    let (file_scoped, line) = if str_is(ds.as_str(), "noslop-ignore-file") {
        (true, comment_line)
    } else if str_is(ds.as_str(), "noslop-ignore-next-line") {
        assert(directive_of(comment@) == Some(ds@));
        (false, comment_line + 1)
    } else {
        return None;
    };
    let name = word_of(&rule);
    Some(Suppression { rule: string_from(name.as_slice()), file_scoped, line, reason })
}

/// The annotation one comment line states, if any: a tag word and an
/// optional non-empty `-- reason`.
pub open spec fn annotation_line(raw: Seq<char>) -> Option<(Visibility, Option<Seq<char>>)> {
    let t0 = trim(raw);
    let t = trim(t0.skip(lead_marks(t0, 0)));
    let w = first_ws(t, 0);
    let tag = t.take(w);
    let rest = if w < t.len() { t.skip(w + 1) } else { Seq::empty() };
    let vis = if tag == "@public"@ {
        Some(Visibility::Public)
    } else if tag == "@internal"@ {
        Some(Visibility::Internal)
    } else if tag == "@expected-unused"@ {
        Some(Visibility::ExpectedUnused)
    } else {
        None
    };
    match vis {
        None => None,
        Some(v) => {
            let d = find_from(rest, dashes(), 0);
            let r = trim(rest.skip(d + 2));
            Some((v, if d >= 0 && r.len() > 0 { Some(r) } else { None }))
        },
    }
}

/// The annotation of the first comment line that states one.
pub open spec fn annotation_in(ls: Seq<Seq<char>>) -> Option<(Visibility, Option<Seq<char>>)>
    decreases ls.len(),
{
    if ls.len() == 0 {
        None
    } else {
        match annotation_line(ls[0]) {
            Some(a) => Some(a),
            None => annotation_in(ls.drop_first()),
        }
    }
}

fn annotation_of_line(raw: &Vec<char>) -> (r: Option<(Visibility, Option<String>)>)
    ensures
        match annotation_line(raw@) {
            None => r is None,
            Some(a) => r matches Some(x) && x.0 == a.0 && match (x.1, a.1) {
                (Some(p), Some(q)) => p@ == q,
                (None, None) => true,
                _ => false,
            },
        },
{
    let t0 = trimmed(raw);
    let mut a: usize = 0;
    while a < t0.len() && (t0[a] == '/' || t0[a] == '#' || t0[a] == '*' || t0[a] == ' ')
        invariant
            a <= t0@.len(),
            lead_marks(t0@, 0) == lead_marks(t0@, a as int),
        decreases t0@.len() - a,
    {
        a += 1;
    }
    let t1 = copy_range(&t0, a, t0.len());
    assert(t1@ =~= t0@.skip(a as int));
    let t = trimmed(&t1);
    let w = find_ws(&t, 0);
    let tag = copy_range(&t, 0, w);
    assert(tag@ =~= t@.take(w as int));
    let rest = if w < t.len() { copy_range(&t, w + 1, t.len()) } else { Vec::new() };
    assert(rest@ =~= (if w < t@.len() { t@.skip(w + 1) } else { Seq::<char>::empty() }));
    let ts = string_from(tag.as_slice());
    let vis = if str_is(ts.as_str(), "@public") {
        Visibility::Public
    } else if str_is(ts.as_str(), "@internal") {
        Visibility::Internal
    } else if str_is(ts.as_str(), "@expected-unused") {
        Visibility::ExpectedUnused
    } else {
        return None;
    };
    let dd = chars_of("--");
    proof { reveal_strlit("--"); }
    assert(dd@ =~= dashes());
    let reason = match find_sub(&rest, &dd, 0) {
        Some(d) => {
            proof { lemma_find_from(rest@, dashes(), 0); }
            let r2 = copy_range(&rest, d + 2, rest.len());
            assert(r2@ =~= rest@.skip(d + 2));
            let r = trimmed(&r2);
            if r.len() > 0 { Some(string_from(r.as_slice())) } else { None }
        },
        None => None,
    };
    Some((vis, reason))
}

/// The `@public`, `@internal` or `@expected-unused` annotation a comment
/// states (its first line that states one), applying to line `applies_line`.
pub fn parse_annotation(comment: &str, applies_line: u32) -> (r: Option<Annotation>)
    ensures
        match annotation_in(lines(comment@)) {
            None => r is None,
            Some(a) => r matches Some(x) && x.visibility == a.0 && x.line == applies_line && match (x.reason, a.1) {
                (Some(p), Some(q)) => p@ == q,
                (None, None) => true,
                _ => false,
            },
        },
{
    let ls = split_lines(comment);
    let ghost lv = lines(comment@);
    let mut i: usize = 0;
    assert(lv.skip(0) =~= lv);
    while i < ls.len()
        invariant
            i <= ls@.len(),
            lv == crate::order::string_views(ls@),
            lv == lines(comment@),
            annotation_in(lv) == annotation_in(lv.skip(i as int)),
        decreases ls@.len() - i,
    {
        let raw = chars_of(ls[i].as_str());
        assert(lv.skip(i as int)[0] == raw@);
        assert(lv.skip(i as int).drop_first() =~= lv.skip(i as int + 1));
        let res = annotation_of_line(&raw);
        match res {
            Some(p) => {
                assert(annotation_in(lv.skip(i as int)) == annotation_line(raw@));
                assert(annotation_in(lines(comment@)) == annotation_line(raw@));
                let ann = Annotation { visibility: p.0, line: applies_line, reason: p.1 };
                assert(ann.visibility == (annotation_line(raw@)->0).0);
                return Some(ann);
            },
            None => {},
        }
        i += 1;
    }
    assert(lv.skip(i as int) =~= Seq::<Seq<char>>::empty());
    None
}

} // verus!
