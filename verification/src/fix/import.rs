//! Removing unused bindings from an import statement, in TypeScript
//! (`import { a, b as c } from "m"`) and Python (`from m import a, b`,
//! `import a, b`) form.

use vstd::prelude::*;
use vstd::string::*;
use crate::facts::RawImport;
use crate::fix::lines::{join_nl, lines, pred_sat, replace_line_range, replaced_lines, split_lines};
use crate::ids::{seq_starts_with, starts_with};
use crate::order::string_views;
use crate::path::{lemma_rfind, rfind, rfind_char};
use crate::scan::{find_either, find_either_from, find_from, find_sub, lemma_find_either, lemma_find_from, trim, trim_bounds, copy_range, trimmed};
use crate::text::{chars_of, push_str, str_is, string_from};

verus! {

/// The ` as ` of a renaming.
pub open spec fn as_sep() -> Seq<char> {
    seq![' ', 'a', 's', ' ']
}

/// The `type ` modifier of a type-only binding.
pub open spec fn type_kw() -> Seq<char> {
    seq!['t', 'y', 'p', 'e', ' ']
}

/// What follows the last ` as ` of `s[from..]`, the occurrences taken left to
/// right without overlap (as `str::split` finds them).
pub open spec fn after_last_as(s: Seq<char>, from: int) -> Seq<char>
    decreases s.len() + 1 - from,
{
    if from < 0 || from > s.len() {
        Seq::empty()
    } else {
        let p = find_from(s, as_sep(), from);
        proof { lemma_find_from(s, as_sep(), from); }
        if p < 0 { s.subrange(from, s.len() as int) } else { after_last_as(s, p + 4) }
    }
}

/// `s` without any number of leading `type ` modifiers.
pub open spec fn strip_type(s: Seq<char>) -> Seq<char>
    decreases s.len(),
{
    if starts_with(s, type_kw()) && s.len() >= 5 { strip_type(s.skip(5)) } else { s }
}

/// The local binding that one part of an import list introduces.
pub open spec fn local_of(part: Seq<char>) -> Seq<char> {
    trim(strip_type(trim(after_last_as(part, 0))))
}

/// The trimmed comma-separated parts of `s[from..]` that are not empty and
/// whose local binding is not to be removed.
pub open spec fn kept_parts(s: Seq<char>, from: int, remove: Seq<Seq<char>>) -> Seq<Seq<char>>
    decreases s.len() + 1 - from,
{
    if from < 0 || from > s.len() {
        Seq::empty()
    } else {
        let i = find_either(s, ',', ',', from);
        proof { lemma_find_either(s, ',', ',', from); }
        let t = trim(s.subrange(from, i));
        let here = if t.len() == 0 || remove.contains(local_of(t)) { Seq::empty() } else { seq![t] };
        if i >= s.len() { here } else { here + kept_parts(s, i + 1, remove) }
    }
}

/// The parts joined by `sep`.
pub open spec fn join_with(ls: Seq<Seq<char>>, sep: Seq<char>) -> Seq<char>
    decreases ls.len(),
{
    if ls.len() == 0 {
        Seq::empty()
    } else if ls.len() == 1 {
        ls[0]
    } else {
        join_with(ls.drop_last(), sep) + sep + ls.last()
    }
}

/// An import list with the removed bindings dropped, `, `-separated.
pub open spec fn filtered_names(names: Seq<char>, remove: Seq<Seq<char>>) -> Seq<char> {
    join_with(kept_parts(names, 0, remove), ", "@)
}

/// `from m import a, b` with the removed names dropped.
pub open spec fn python_from_patch(stmt: Seq<char>, remove: Seq<Seq<char>>) -> Option<Seq<char>> {
    if !starts_with(stmt, "from "@) {
        None
    } else {
        let rest = stmt.skip("from "@.len() as int);
        let p = find_from(rest, " import "@, 0);
        if p < 0 {
            None
        } else {
            let module = rest.take(p);
            let names = rest.skip(p + " import "@.len());
            let kept = filtered_names(names, remove);
            if trim(names) == seq!['*'] || kept.len() == 0 {
                None
            } else {
                Some("from "@ + module + " import "@ + kept)
            }
        }
    }
}

/// `import a, b` with the removed modules dropped.
pub open spec fn python_import_patch(stmt: Seq<char>, remove: Seq<Seq<char>>) -> Option<Seq<char>> {
    if !starts_with(stmt, "import "@) {
        None
    } else {
        let kept = filtered_names(trim(stmt.skip("import "@.len() as int)), remove);
        if kept.len() == 0 { None } else { Some("import "@ + kept) }
    }
}

/// The import binds one name as a whole (a namespace or a default import).
pub open spec fn whole_binding(imp: RawImport) -> bool {
    imp.is_namespace || (imp.names@.len() == 1 && imp.names@[0].imported@ == "default"@)
}

/// The local name of a namespace or default import.
pub open spec fn whole_local(imp: RawImport) -> Seq<char> {
    if imp.names@.len() > 0 { imp.names@[0].local@ } else { Seq::empty() }
}

/// A TypeScript import with the removed bindings dropped from its braces.
pub open spec fn ts_patch(stmt: Seq<char>, imp: RawImport, remove: Seq<Seq<char>>) -> Option<Seq<char>> {
    if whole_binding(imp) {
        if remove.contains(whole_local(imp)) { None } else { Some(stmt) }
    } else {
        let bs = find_either(stmt, '{', '{', 0);
        let be = rfind(stmt, '}');
        let fi = find_from(stmt, " from "@, be);
        if bs >= stmt.len() || be < 0 || fi < 0 {
            None
        } else {
            let kept = filtered_names(stmt.subrange(bs + 1, be), remove);
            if kept.len() == 0 {
                None
            } else {
                Some(stmt.take(bs + 1) + kept + seq!['}'] + stmt.skip(fi))
            }
        }
    }
}

/// The brace scan of a named TypeScript import finds its closing brace after
/// its opening one (otherwise the list between them cannot be cut out).
pub open spec fn ts_patch_defined(stmt: Seq<char>, imp: RawImport) -> bool {
    let bs = find_either(stmt, '{', '{', 0);
    let be = rfind(stmt, '}');
    whole_binding(imp) || bs >= stmt.len() || be < 0 || find_from(stmt, " from "@, be) < 0 || bs < be
}

/// The trimmed statement patched in the form it is written in.
pub open spec fn block_patch(block: Seq<char>, imp: RawImport, remove: Seq<Seq<char>>) -> Option<Seq<char>> {
    let t = trim(block);
    if t.len() == 0 {
        None
    } else if starts_with(t, "from "@) {
        python_from_patch(t, remove)
    } else if starts_with(t, "import "@) && find_from(t, " from "@, 0) < 0 {
        python_import_patch(t, remove)
    } else {
        ts_patch(t, imp, remove)
    }
}

pub open spec fn block_patch_defined(block: Seq<char>, imp: RawImport) -> bool {
    let t = trim(block);
    t.len() == 0 || starts_with(t, "from "@) || (starts_with(t, "import "@) && find_from(t, " from "@, 0) < 0)
        || ts_patch_defined(t, imp)
}

/// The lines the import's span covers, joined; `None` when the span holds no line.
pub open spec fn import_block(src: Seq<char>, imp: RawImport) -> Option<Seq<char>> {
    let ls = lines(src);
    let s = pred_sat(imp.span.start_line as int);
    let e = pred_sat(if (imp.span.end_line as int) < ls.len() { imp.span.end_line as int } else { ls.len() as int });
    if s > e || s >= ls.len() { None } else { Some(join_nl(ls.subrange(s, e + 1))) }
}

/// What `patch_import` returns: the statement's lines replaced by the patched
/// statement, every line before and after them left as it was.
pub open spec fn import_patch(src: Seq<char>, imp: RawImport, remove: Seq<Seq<char>>) -> Option<Seq<char>> {
    match import_block(src, imp) {
        None => None,
        Some(block) => match block_patch(block, imp, remove) {
            None => None,
            Some(p) => Some(replaced_lines(src, imp.span.start_line as int, imp.span.end_line as int, p)),
        },
    }
}

pub open spec fn import_patch_defined(src: Seq<char>, imp: RawImport) -> bool {
    match import_block(src, imp) {
        None => true,
        Some(block) => block_patch_defined(block, imp),
    }
}

fn append(out: &mut Vec<char>, v: &Vec<char>)
    ensures
        final(out)@ == old(out)@ + v@,
{
    let ghost base = out@;
    let mut k: usize = 0;
    while k < v.len()
        invariant
            k <= v@.len(),
            base == old(out)@,
            out@ == base + v@.take(k as int),
        decreases v@.len() - k,
    {
        out.push(v[k]);
        assert(v@.take(k as int + 1) =~= v@.take(k as int).push(v@[k as int]));
        k += 1;
    }
    assert(v@.take(v@.len() as int) =~= v@);
}

fn has_local(remove: &Vec<String>, local: &Vec<char>) -> (r: bool)
    ensures
        r == string_views(remove@).contains(local@),
{
    let s = string_from(local.as_slice());
    crate::order::contains_view(remove, s.as_str())
}

/// The local binding of one trimmed part of an import list.
fn local_of_part(t: &Vec<char>) -> (r: Vec<char>)
    ensures
        r@ == local_of(t@),
{
    let pat = chars_of(" as ");
    proof { reveal_strlit(" as "); }
    assert(pat@ =~= as_sep());
    let mut from: usize = 0;
    loop
        invariant
            from <= t@.len(),
            pat@ == as_sep(),
            after_last_as(t@, from as int) == after_last_as(t@, 0),
        decreases t@.len() - from,
    {
        match find_sub(t, &pat, from) {
            None => {
                let piece = copy_range(t, from, t.len());
                let a = trimmed(&piece);
                let mut cur = a;
                let ghost target = strip_type(cur@);
                let kw = chars_of("type ");
                proof { reveal_strlit("type "); }
                assert(kw@ =~= type_kw());
                while seq_starts_with(&cur, "type ")
                    invariant
                        strip_type(cur@) == target,
                        "type "@ == type_kw(),
                    decreases cur@.len(),
                {
                    assert(starts_with(cur@, type_kw()));
                    cur = copy_range(&cur, 5, cur.len());
                    assert(cur@ =~= cur@);
                }
                assert(!starts_with(cur@, type_kw()));
                return trimmed(&cur);
            }
            Some(p) => {
                proof { lemma_find_from(t@, as_sep(), from as int); }
                assert(p + 4 <= t.len());
                from = p + 4;
            }
        }
    }
}

/// The trimmed parts of an import list whose local binding is kept, joined
/// by `, `.
fn filter_import_names(names: &Vec<char>, remove: &Vec<String>) -> (r: Vec<char>)
    ensures
        r@ == filtered_names(names@, string_views(remove@)),
{
    let ghost rm = string_views(remove@);
    let mut out: Vec<char> = Vec::new();
    let ghost mut acc: Seq<Seq<char>> = Seq::empty();
    let mut from: usize = 0;
    let mut any = false;
    proof { reveal_strlit(", "); }
    loop
        invariant
            any == (acc.len() > 0),
            from <= names@.len(),
            rm == string_views(remove@),
            out@ == join_with(acc, ", "@),
            acc + kept_parts(names@, from as int, rm) == kept_parts(names@, 0, rm),
        decreases names@.len() - from,
    {
        let i = find_either_from(names, ',', ',', from);
        let (a, b) = trim_bounds(names, from, i);
        let t = copy_range(names, a, b);
        let ghost here: Seq<Seq<char>> = if t@.len() == 0 || rm.contains(local_of(t@)) { Seq::empty() } else { seq![t@] };
        if b > a {
            let local = local_of_part(&t);
            if !has_local(remove, &local) {
                if any {
                    out.push(',');
                    out.push(' ');
                }
                append(&mut out, &t);
                proof {
                    reveal_strlit(", ");
                    let na = acc.push(t@);
                    assert(na.drop_last() =~= acc);
                    if acc.len() > 0 {
                        assert(out@ =~= join_with(acc, ", "@) + ", "@ + t@);
                    }
                    acc = na;
                }
                any = true;
            }
        }
        proof {
            assert(kept_parts(names@, from as int, rm) == if i >= names@.len() { here } else { here + kept_parts(names@, i + 1, rm) });
        }
        if i == names.len() {
            assert(kept_parts(names@, from as int, rm) == here);
            assert(acc =~= kept_parts(names@, 0, rm));
            return out;
        }
        assert(acc + kept_parts(names@, i + 1, rm) =~= kept_parts(names@, 0, rm));
        from = i + 1;
    }
}

fn patch_python_from_import(stmt: &Vec<char>, remove: &Vec<String>) -> (r: Option<Vec<char>>)
    ensures
        match r {
            Some(t) => python_from_patch(stmt@, string_views(remove@)) == Some(t@),
            None => python_from_patch(stmt@, string_views(remove@)) is None,
        },
{
    proof { reveal_strlit("from "); reveal_strlit(" import "); }
    if !seq_starts_with(stmt, "from ") {
        return None;
    }
    let rest = copy_range(stmt, 5, stmt.len());
    assert(rest@ =~= stmt@.skip(5));
    let sep = chars_of(" import ");
    let p = match find_sub(&rest, &sep, 0) {
        None => { return None; }
        Some(p) => p,
    };
    proof { lemma_find_from(rest@, sep@, 0); }
    let module = copy_range(&rest, 0, p);
    let names = copy_range(&rest, p + 8, rest.len());
    assert(module@ =~= rest@.take(p as int));
    assert(names@ =~= rest@.skip(p + 8));
    let t = trimmed(&names);
    if t.len() == 1 && t[0] == '*' {
        assert(t@ =~= seq!['*']);
        return None;
    }
    let kept = filter_import_names(&names, remove);
    if kept.len() == 0 {
        return None;
    }
    let mut out: Vec<char> = Vec::new();
    push_str(&mut out, "from ");
    append(&mut out, &module);
    push_str(&mut out, " import ");
    append(&mut out, &kept);
    Some(out)
}

fn patch_python_import(stmt: &Vec<char>, remove: &Vec<String>) -> (r: Option<Vec<char>>)
    ensures
        match r {
            Some(t) => python_import_patch(stmt@, string_views(remove@)) == Some(t@),
            None => python_import_patch(stmt@, string_views(remove@)) is None,
        },
{
    proof { reveal_strlit("import "); }
    if !seq_starts_with(stmt, "import ") {
        return None;
    }
    let rest = copy_range(stmt, 7, stmt.len());
    assert(rest@ =~= stmt@.skip(7));
    let names = trimmed(&rest);
    let kept = filter_import_names(&names, remove);
    if kept.len() == 0 {
        return None;
    }
    let mut out: Vec<char> = Vec::new();
    push_str(&mut out, "import ");
    append(&mut out, &kept);
    Some(out)
}

fn patch_ts_import(stmt: &Vec<char>, import: &RawImport, remove: &Vec<String>) -> (r: Option<Vec<char>>)
    requires
        ts_patch_defined(stmt@, *import),
    ensures
        match r {
            Some(t) => ts_patch(stmt@, *import, string_views(remove@)) == Some(t@),
            None => ts_patch(stmt@, *import, string_views(remove@)) is None,
        },
{
    proof { reveal_strlit("default"); }
    let whole = if import.is_namespace {
        true
    } else {
        import.names.len() == 1 && str_is(import.names[0].imported.as_str(), "default")
    };
    if whole {
        let local = if import.names.len() > 0 { string_from(chars_of(import.names[0].local.as_str()).as_slice()) } else { String::new() };
        assert(local@ =~= whole_local(*import));
        if crate::order::contains_view(remove, local.as_str()) {
            return None;
        }
        return Some(copy_range(stmt, 0, stmt.len()));
    }
    let bs = find_either_from(stmt, '{', '{', 0);
    if bs == stmt.len() {
        return None;
    }
    let be = match rfind_char(stmt, '}') {
        None => { return None; }
        Some(be) => be,
    };
    let sep = chars_of(" from ");
    let fi = match find_sub(stmt, &sep, be) {
        None => { return None; }
        Some(fi) => fi,
    };
    proof { lemma_find_either(stmt@, '{', '{', 0); lemma_rfind(stmt@, '}'); lemma_find_from(stmt@, sep@, be as int); }
    let inside = copy_range(stmt, bs + 1, be);
    let kept = filter_import_names(&inside, remove);
    if kept.len() == 0 {
        return None;
    }
    let mut out = copy_range(stmt, 0, bs + 1);
    append(&mut out, &kept);
    out.push('}');
    let tail = copy_range(stmt, fi, stmt.len());
    append(&mut out, &tail);
    assert(out@ =~= stmt@.take(bs + 1) + kept@ + seq!['}'] + stmt@.skip(fi as int));
    Some(out)
}

fn patch_import_block(block: &Vec<char>, import: &RawImport, remove: &Vec<String>) -> (r: Option<Vec<char>>)
    requires
        block_patch_defined(block@, *import),
    ensures
        match r {
            Some(t) => block_patch(block@, *import, string_views(remove@)) == Some(t@),
            None => block_patch(block@, *import, string_views(remove@)) is None,
        },
{
    let t = trimmed(block);
    if t.len() == 0 {
        return None;
    }
    if seq_starts_with(&t, "from ") {
        return patch_python_from_import(&t, remove);
    }
    let sep = chars_of(" from ");
    if seq_starts_with(&t, "import ") && find_sub(&t, &sep, 0).is_none() {
        return patch_python_import(&t, remove);
    }
    patch_ts_import(&t, import, remove)
}

/// Drop the bindings named in `remove_locals` from the import statement that
/// spans `import.span`. `None` when the whole statement should go.
pub fn patch_import(source: &str, import: &RawImport, remove_locals: &Vec<String>) -> (r: Option<String>)
    requires
        import_patch_defined(source@, *import),
    ensures
        match r {
            Some(t) => import_patch(source@, *import, string_views(remove_locals@)) == Some(t@),
            None => import_patch(source@, *import, string_views(remove_locals@)) is None,
        },
{
    let ls = split_lines(source);
    let n = ls.len();
    let s = if import.span.start_line > 0 { (import.span.start_line - 1) as usize } else { 0 };
    let lim = if (import.span.end_line as usize) < n { import.span.end_line as usize } else { n };
    let e = if lim > 0 { lim - 1 } else { 0 };
    if s > e || s >= n {
        return None;
    }
    let mut part: Vec<String> = Vec::new();
    let mut k = s;
    while k <= e
        invariant
            s <= k <= e + 1,
            e < n == ls@.len(),
            string_views(part@) == string_views(ls@).subrange(s as int, k as int),
        decreases e + 1 - k,
    {
        let ghost before = part@;
        part.push(crate::text::copy_string(&ls[k]));
        assert(string_views(part@) =~= string_views(before).push(ls@[k as int]@));
        assert(string_views(ls@).subrange(s as int, k + 1) =~= string_views(ls@).subrange(s as int, k as int).push(ls@[k as int]@));
        k += 1;
    }
    let block = crate::fix::lines::join_lines(&part, false);
    let bv = chars_of(block.as_str());
    let patched = match patch_import_block(&bv, import, remove_locals) {
        None => { return None; }
        Some(p) => p,
    };
    let ps = string_from(patched.as_slice());
    Some(replace_line_range(source, import.span.start_line, import.span.end_line, ps.as_str()))
}

/// Can `patch_import` work on this statement? (It cannot cut the list out of
/// a named TypeScript import whose closing brace comes before its opening one.)
pub fn import_patchable(source: &str, import: &RawImport) -> (r: bool)
    ensures
        r == import_patch_defined(source@, *import),
{
    let ls = split_lines(source);
    let n = ls.len();
    let s = if import.span.start_line > 0 { (import.span.start_line - 1) as usize } else { 0 };
    let lim = if (import.span.end_line as usize) < n { import.span.end_line as usize } else { n };
    let e = if lim > 0 { lim - 1 } else { 0 };
    if s > e || s >= n {
        return true;
    }
    let mut part: Vec<String> = Vec::new();
    let mut k = s;
    while k <= e
        invariant
            s <= k <= e + 1,
            e < n == ls@.len(),
            string_views(part@) == string_views(ls@).subrange(s as int, k as int),
        decreases e + 1 - k,
    {
        let ghost before = part@;
        part.push(crate::text::copy_string(&ls[k]));
        assert(string_views(part@) =~= string_views(before).push(ls@[k as int]@));
        assert(string_views(ls@).subrange(s as int, k + 1) =~= string_views(ls@).subrange(s as int, k as int).push(ls@[k as int]@));
        k += 1;
    }
    let block = crate::fix::lines::join_lines(&part, false);
    let bv = chars_of(block.as_str());
    let t = trimmed(&bv);
    let sep = chars_of(" from ");
    proof { reveal_strlit("default"); }
    if t.len() == 0 || seq_starts_with(&t, "from ") || (seq_starts_with(&t, "import ") && find_sub(&t, &sep, 0).is_none()) {
        return true;
    }
    if import.is_namespace || (import.names.len() == 1 && str_is(import.names[0].imported.as_str(), "default")) {
        return true;
    }
    let bs = find_either_from(&t, '{', '{', 0);
    if bs == t.len() {
        return true;
    }
    let be = match rfind_char(&t, '}') {
        None => { return true; }
        Some(be) => be,
    };
    match find_sub(&t, &sep, be) {
        None => true,
        Some(_) => bs < be,
    }
}

} // verus!
