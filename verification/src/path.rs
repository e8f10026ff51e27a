//! Repo-relative paths, modelled as `/`-separated strings. The helpers mirror
//! the component-wise `Path` operations the analysis needs: the final
//! component, the parent directory, the stem, joining, and prefix tests.

use vstd::prelude::*;
use vstd::string::*;
use crate::text::{cat3, chars_of, owned, push_char};

verus! {

/// Index of the last occurrence of `c` in `s`, or -1.
pub open spec fn rfind(s: Seq<char>, c: char) -> int
    decreases s.len(),
{
    if s.len() == 0 {
        -1
    } else if s.last() == c {
        s.len() - 1
    } else {
        rfind(s.drop_last(), c)
    }
}

pub proof fn lemma_rfind(s: Seq<char>, c: char)
    ensures
        -1 <= rfind(s, c) < s.len(),
        rfind(s, c) >= 0 ==> s[rfind(s, c)] == c,
        forall|j: int| rfind(s, c) < j < s.len() ==> s[j] != c,
    decreases s.len(),
{
    if s.len() > 0 && s.last() != c {
        lemma_rfind(s.drop_last(), c);
        assert forall|j: int| rfind(s, c) < j < s.len() implies s[j] != c by {
            if j < s.len() - 1 {
                assert(s[j] == s.drop_last()[j]);
            }
        }
    }
}

/// The final component of a path.
pub open spec fn file_name(p: Seq<char>) -> Seq<char> {
    p.skip(rfind(p, '/') + 1)
}

/// The directory holding a path (`""` for a top-level file).
pub open spec fn parent(p: Seq<char>) -> Seq<char> {
    if rfind(p, '/') < 0 { Seq::empty() } else { p.take(rfind(p, '/')) }
}

/// A file name without its last extension (`.bashrc` keeps its dot).
pub open spec fn stem(name: Seq<char>) -> Seq<char> {
    if rfind(name, '.') <= 0 { name } else { name.take(rfind(name, '.')) }
}

/// Component-wise prefix test: `root` is empty, equal to `p`, or a directory
/// above `p`.
pub open spec fn under(p: Seq<char>, root: Seq<char>) -> bool {
    ||| root.len() == 0
    ||| p == root
    ||| (p.len() > root.len() && p.take(root.len() as int) == root && p[root.len() as int] == '/')
}

/// `root` joined with `rel` (an empty root is the repo root itself).
pub open spec fn join(root: Seq<char>, rel: Seq<char>) -> Seq<char> {
    if root.len() == 0 { rel } else { root + seq!['/'] + rel }
}

/// Position of the last `c` in `v` (`None` when absent).
pub fn rfind_char(v: &Vec<char>, c: char) -> (r: Option<usize>)
    ensures
        r is None <==> rfind(v@, c) == -1,
        r matches Some(i) ==> i == rfind(v@, c) && i < v@.len() && v@[i as int] == c,
{
    proof { lemma_rfind(v@, c); }
    let mut i: usize = v.len();
    assert(v@.take(v@.len() as int) == v@);
    while i > 0
        invariant
            i <= v@.len(),
            rfind(v@, c) == rfind(v@.take(i as int), c),
        decreases i,
    {
        assert(v@.take(i as int).drop_last() == v@.take(i - 1));
        if v[i - 1] == c {
            return Some(i - 1);
        }
        i -= 1;
    }
    assert(v@.take(0) == Seq::<char>::empty());
    None
}

pub fn slice_to_string(v: &Vec<char>, from: usize, to: usize) -> (s: String)
    requires
        from <= to <= v@.len(),
    ensures
        s@ == v@.subrange(from as int, to as int),
{
    let mut s = String::new();
    let mut i = from;
    while i < to
        invariant
            from <= i <= to,
            to <= v@.len(),
            s@ == v@.subrange(from as int, i as int),
        decreases to - i,
    {
        push_char(&mut s, v[i]);
        i += 1;
        assert(v@.subrange(from as int, i as int) == v@.subrange(from as int, (i - 1) as int).push(v@[i - 1]));
    }
    s
}

/// The final component of a path (`Path::file_name`).
pub fn file_name_of(p: &str) -> (r: String)
    ensures
        r@ == file_name(p@),
{
    let v = chars_of(p);
    match rfind_char(&v, '/') {
        Some(i) => {
            assert(i < v.len());
            slice_to_string(&v, i + 1, v.len())
        }
        None => slice_to_string(&v, 0, v.len()),
    }
}

/// The directory holding a path (`Path::parent`, `""` at the top level).
pub fn parent_of(p: &str) -> (r: String)
    ensures
        r@ == parent(p@),
{
    let v = chars_of(p);
    match rfind_char(&v, '/') {
        Some(i) => slice_to_string(&v, 0, i),
        None => String::new(),
    }
}

/// A file name without its last extension (`Path::file_stem`).
pub fn stem_of(name: &str) -> (r: String)
    ensures
        r@ == stem(name@),
{
    let v = chars_of(name);
    match rfind_char(&v, '.') {
        Some(i) => {
            if i == 0 {
                slice_to_string(&v, 0, v.len())
            } else {
                slice_to_string(&v, 0, i)
            }
        }
        None => slice_to_string(&v, 0, v.len()),
    }
}

/// The last extension of a file name (`Path::extension`): none for a name
/// without a dot, or whose only dot leads it.
pub open spec fn extension(name: Seq<char>) -> Option<Seq<char>> {
    if rfind(name, '.') <= 0 { None } else { Some(name.skip(rfind(name, '.') + 1)) }
}

/// The last extension of a file name, if it has one.
pub fn extension_of(name: &str) -> (r: Option<String>)
    ensures
        r matches Some(e) ==> extension(name@) == Some(e@),
        r is None <==> extension(name@) is None,
{
    let v = chars_of(name);
    match rfind_char(&v, '.') {
        Some(i) => {
            if i == 0 {
                None
            } else {
                Some(slice_to_string(&v, i + 1, v.len()))
            }
        }
        None => None,
    }
}

/// Component-wise `Path::starts_with` on repo-relative paths.
pub fn is_under(p: &str, root: &str) -> (r: bool)
    ensures
        r == under(p@, root@),
{
    let pv = chars_of(p);
    let rv = chars_of(root);
    if rv.len() == 0 {
        return true;
    }
    if pv.len() < rv.len() {
        assert(p@ != root@);
        return false;
    }
    let mut i: usize = 0;
    while i < rv.len()
        invariant
            i <= rv@.len() <= pv@.len(),
            pv@ == p@,
            rv@ == root@,
            forall|j: int| 0 <= j < i ==> pv@[j] == rv@[j],
        decreases rv@.len() - i,
    {
        if pv[i] != rv[i] {
            assert(p@.take(root@.len() as int)[i as int] != root@[i as int]);
            return false;
        }
        i += 1;
    }
    assert(p@.take(root@.len() as int) == root@);
    if pv.len() == rv.len() {
        assert(p@ == root@);
        true
    } else {
        pv[rv.len()] == '/'
    }
}

/// `root` joined with `rel` (`Path::join` for repo-relative paths).
pub fn join_path(root: &str, rel: &str) -> (r: String)
    ensures
        r@ == join(root@, rel@),
{
    if root.unicode_len() == 0 {
        owned(rel)
    } else {
        proof { reveal_strlit("/"); }
        cat3(root, "/", rel)
    }
}

} // verus!
