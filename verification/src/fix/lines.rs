//! Line-range helpers for in-place source edits. Lines are those of
//! `str::lines`: text split at `\n`, a `\r` before the `\n` dropped, and a
//! final line ending adding no empty line.

use vstd::prelude::*;
use crate::order::string_views;
use crate::scan::{find_either, find_either_from, lemma_find_either};
use crate::text::{chars_of, copy_string, string_from};

verus! {

/// A line without the `\r` of a `\r\n` ending.
pub open spec fn strip_cr(l: Seq<char>) -> Seq<char> {
    if l.len() > 0 && l.last() == '\r' { l.drop_last() } else { l }
}

/// The lines of `s[from..]`.
pub open spec fn lines_from(s: Seq<char>, from: int) -> Seq<Seq<char>>
    decreases s.len() - from,
{
    if from < 0 || from >= s.len() {
        Seq::empty()
    } else {
        let i = find_either(s, '\n', '\n', from);
        proof { lemma_find_either(s, '\n', '\n', from); }
        if i >= s.len() {
            seq![s.subrange(from, s.len() as int)]
        } else {
            seq![strip_cr(s.subrange(from, i))] + lines_from(s, i + 1)
        }
    }
}

/// The lines of `s`, as `str::lines` yields them.
pub open spec fn lines(s: Seq<char>) -> Seq<Seq<char>> {
    lines_from(s, 0)
}

/// The lines joined by single `\n` separators.
pub open spec fn join_nl(ls: Seq<Seq<char>>) -> Seq<char>
    decreases ls.len(),
{
    if ls.len() == 0 {
        Seq::empty()
    } else if ls.len() == 1 {
        ls[0]
    } else {
        join_nl(ls.drop_last()) + seq!['\n'] + ls.last()
    }
}

/// The lines joined, with a final `\n` when asked for and anything was joined.
pub open spec fn joined_lines(ls: Seq<Seq<char>>, trailing: bool) -> Seq<char> {
    if trailing && join_nl(ls).len() > 0 { join_nl(ls).push('\n') } else { join_nl(ls) }
}

pub open spec fn ends_with_nl(s: Seq<char>) -> bool {
    s.len() > 0 && s.last() == '\n'
}

/// `n - 1`, or 0 for 0.
pub open spec fn pred_sat(n: int) -> int {
    if n > 0 { n - 1 } else { 0 }
}

/// What `remove_line_range` returns.
pub open spec fn removed_lines(src: Seq<char>, start: int, end: int) -> Option<Seq<char>> {
    let ls = lines(src);
    if ls.len() == 0 || start == 0 || start > ls.len() {
        None
    } else {
        let s = start - 1;
        let e = pred_sat(if end < ls.len() { end } else { ls.len() as int });
        if s > e {
            None
        } else {
            let out = ls.take(s) + ls.skip(e + 1);
            if out.len() == 0 { None } else { Some(joined_lines(out, ends_with_nl(src))) }
        }
    }
}

/// What `replace_line_range` returns.
pub open spec fn replaced_lines(src: Seq<char>, start: int, end: int, rep: Seq<char>) -> Seq<char> {
    let ls = lines(src);
    let s = pred_sat(start);
    let e = pred_sat(if end < ls.len() { end } else { ls.len() as int });
    let tail = if e + 1 < ls.len() { ls.skip(e + 1) } else { Seq::empty() };
    joined_lines(ls.take(s) + lines(rep) + tail, ends_with_nl(src))
}

/// The lines of a text, as `str::lines` yields them.
pub fn split_lines(s: &str) -> (r: Vec<String>)
    ensures
        string_views(r@) == lines(s@),
{
    let v = chars_of(s);
    let mut out: Vec<String> = Vec::new();
    let mut pos: usize = 0;
    loop
        invariant
            v@ == s@,
            pos <= v@.len(),
            string_views(out@) + lines_from(s@, pos as int) == lines(s@),
        decreases v@.len() - pos,
    {
        let ghost before = out@;
        if pos == v.len() {
            assert(string_views(out@) =~= lines(s@));
            return out;
        }
        let i = find_either_from(&v, '\n', '\n', pos);
        if i == v.len() {
            let l = string_from(&v.as_slice()[pos..i]);
            proof {
                assert(l@ =~= v@.subrange(pos as int, i as int));
            }
            out.push(l);
            assert(string_views(out@) =~= string_views(before).push(v@.subrange(pos as int, i as int)));
            assert(lines_from(s@, i as int) == Seq::<Seq<char>>::empty());
            assert(string_views(out@) =~= lines(s@));
            return out;
        }
        let mut j = i;
        if j > pos && v[j - 1] == '\r' {
            j = j - 1;
        }
        let l = string_from(&v.as_slice()[pos..j]);
        proof {
            assert(l@ =~= strip_cr(v@.subrange(pos as int, i as int)));
        }
        out.push(l);
        assert(string_views(out@) =~= string_views(before).push(strip_cr(s@.subrange(pos as int, i as int))));
        assert(string_views(out@) + lines_from(s@, i + 1) =~= string_views(before) + lines_from(s@, pos as int));
        pos = i + 1;
    }
}

/// The given lines joined by `\n`, with a final `\n` when asked for and the
/// result is not empty.
pub fn join_lines(ls: &Vec<String>, trailing: bool) -> (r: String)
    ensures
        r@ == joined_lines(string_views(ls@), trailing),
{
    let mut out: Vec<char> = Vec::new();
    let mut i: usize = 0;
    while i < ls.len()
        invariant
            i <= ls@.len(),
            out@ == join_nl(string_views(ls@).take(i as int)),
        decreases ls@.len() - i,
    {
        let ghost prev = out@;
        if i > 0 {
            out.push('\n');
        }
        let cs = chars_of(ls[i].as_str());
        let mut k: usize = 0;
        let ghost mid = out@;
        while k < cs.len()
            invariant
                k <= cs@.len(),
                out@ == mid + cs@.take(k as int),
            decreases cs@.len() - k,
        {
            out.push(cs[k]);
            assert(cs@.take(k as int + 1) =~= cs@.take(k as int).push(cs@[k as int]));
            k += 1;
        }
        proof {
            let t = string_views(ls@).take(i as int + 1);
            assert(cs@.take(cs@.len() as int) =~= cs@);
            assert(t.drop_last() =~= string_views(ls@).take(i as int));
            assert(t.last() == ls@[i as int]@);
            if i == 0 {
                assert(out@ =~= join_nl(t));
            } else {
                assert(out@ =~= prev + seq!['\n'] + ls@[i as int]@);
            }
        }
        i += 1;
    }
    assert(string_views(ls@).take(ls@.len() as int) =~= string_views(ls@));
    if trailing && out.len() > 0 {
        out.push('\n');
    }
    string_from(out.as_slice())
}

fn copy_strings(v: &[String], from: usize, to: usize, out: &mut Vec<String>)
    requires
        from <= to <= v@.len(),
    ensures
        string_views(final(out)@) == string_views(old(out)@) + string_views(v@.subrange(from as int, to as int)),
{
    let ghost base = string_views(out@);
    let mut k = from;
    while k < to
        invariant
            from <= k <= to <= v@.len(),
            base == string_views(old(out)@),
            string_views(out@) == base + string_views(v@.subrange(from as int, k as int)),
        decreases to - k,
    {
        let ghost before = out@;
        out.push(copy_string(&v[k]));
        assert(v@.subrange(from as int, k + 1) =~= v@.subrange(from as int, k as int).push(v@[k as int]));
        assert(string_views(out@) =~= string_views(before).push(v@[k as int]@));
        assert(string_views(v@.subrange(from as int, k + 1)) =~= string_views(v@.subrange(from as int, k as int)).push(v@[k as int]@));
        k += 1;
    }
}

/// Remove the 1-based inclusive line range `[start, end]`; `None` when the
/// range is empty or out of bounds, or when nothing would remain.
pub fn remove_line_range(source: &str, start: u32, end: u32) -> (r: Option<String>)
    ensures
        match r {
            Some(t) => removed_lines(source@, start as int, end as int) == Some(t@),
            None => removed_lines(source@, start as int, end as int) is None,
        },
{
    let ls = split_lines(source);
    let n = ls.len();
    if n == 0 || start == 0 || start as usize > n {
        return None;
    }
    let s = (start - 1) as usize;
    let lim = if (end as usize) < n { end as usize } else { n };
    let e = if lim > 0 { lim - 1 } else { 0 };
    if s > e {
        return None;
    }
    let mut out: Vec<String> = Vec::new();
    copy_strings(ls.as_slice(), 0, s, &mut out);
    copy_strings(ls.as_slice(), e + 1, n, &mut out);
    proof {
        let l = string_views(ls@);
        assert(string_views(ls@.subrange(0, s as int)) =~= l.take(s as int));
        assert(string_views(ls@.subrange(e + 1, n as int)) =~= l.skip(e + 1));
    }
    if out.len() == 0 {
        return None;
    }
    let src = chars_of(source);
    let trailing = src.len() > 0 && src[src.len() - 1] == '\n';
    Some(join_lines(&out, trailing))
}

/// Replace the 1-based inclusive line range `[start, end]` with the lines of
/// `replacement`.
pub fn replace_line_range(source: &str, start: u32, end: u32, replacement: &str) -> (r: String)
    requires
        pred_sat(start as int) <= lines(source@).len(),
    ensures
        r@ == replaced_lines(source@, start as int, end as int, replacement@),
{
    let ls = split_lines(source);
    let n = ls.len();
    let s = if start > 0 { (start - 1) as usize } else { 0 };
    let lim = if (end as usize) < n { end as usize } else { n };
    let e = if lim > 0 { lim - 1 } else { 0 };
    let rep = split_lines(replacement);
    let mut out: Vec<String> = Vec::new();
    copy_strings(ls.as_slice(), 0, s, &mut out);
    copy_strings(rep.as_slice(), 0, rep.len(), &mut out);
    proof {
        assert(string_views(ls@.subrange(0, s as int)) =~= string_views(ls@).take(s as int));
        assert(string_views(rep@.subrange(0, rep@.len() as int)) =~= string_views(rep@));
    }
    if e + 1 < n {
        copy_strings(ls.as_slice(), e + 1, n, &mut out);
        assert(string_views(ls@.subrange(e + 1, n as int)) =~= string_views(ls@).skip(e + 1));
    }
    let src = chars_of(source);
    let trailing = src.len() > 0 && src[src.len() - 1] == '\n';
    join_lines(&out, trailing)
}

} // verus!
