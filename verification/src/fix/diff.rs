//! Unified diff output for dry-run previews: one hunk covering everything
//! between the common leading and trailing lines.

use vstd::prelude::*;
use crate::fix::lines::{lines, split_lines};
use crate::order::string_views;
use crate::text::{decimal, push_str, str_is, string_from, u64_to_string};

verus! {

/// The first index where `a` and `b` differ within their common length, or 0
/// when one is a prefix of the other.
pub open spec fn first_diff(a: Seq<Seq<char>>, b: Seq<Seq<char>>, i: int) -> int
    decreases a.len() - i,
{
    if i < 0 || i >= a.len() || i >= b.len() {
        0
    } else if a[i] != b[i] {
        i
    } else {
        first_diff(a, b, i + 1)
    }
}

/// The number of equal lines at the ends of `a` and `b`, counted from `k`.
pub open spec fn common_suffix(a: Seq<Seq<char>>, b: Seq<Seq<char>>, k: int) -> int
    decreases a.len() - k,
{
    if k < 0 || k >= a.len() || k >= b.len() || a[a.len() - 1 - k] != b[b.len() - 1 - k] {
        if k < 0 { 0 } else { k }
    } else {
        common_suffix(a, b, k + 1)
    }
}

/// The common tail, cut short where it would reach into the common head of
/// either text, so that both texts keep the same number of tail lines.
pub open spec fn clipped_tail(a: Seq<Seq<char>>, b: Seq<Seq<char>>) -> int {
    let start = first_diff(a, b, 0);
    let c = common_suffix(a, b, 0);
    let c1 = if a.len() - start < c { a.len() - start } else { c };
    if b.len() - start < c1 { b.len() - start } else { c1 }
}

/// Each line prefixed with `c` and ended with `\n`.
pub open spec fn marked(ls: Seq<Seq<char>>, c: char) -> Seq<char>
    decreases ls.len(),
{
    if ls.len() == 0 {
        Seq::empty()
    } else {
        marked(ls.drop_last(), c) + seq![c] + ls.last() + seq!['\n']
    }
}

pub open spec fn diff_header(path: Seq<char>) -> Seq<char> {
    "--- a/"@ + path + "\n+++ b/"@ + path + "\n"@
}

/// The diff of `old` against `new` under the name `path`.
pub open spec fn diff_text(path: Seq<char>, old: Seq<char>, new: Seq<char>) -> Seq<char> {
    let a = lines(old);
    let b = lines(new);
    let start = first_diff(a, b, 0);
    let c = clipped_tail(a, b);
    let ot = a.len() - c;
    let nt = b.len() - c;
    if old == new {
        diff_header(path)
    } else {
        diff_header(path) + "@@ -"@ + decimal((start + 1) as nat) + ","@ + decimal((ot - start) as nat)
            + " +"@ + decimal((start + 1) as nat) + ","@ + decimal((nt - start) as nat) + " @@\n"@
            + marked(a.subrange(start, ot), '-') + marked(b.subrange(start, nt), '+')
    }
}

proof fn lemma_first_diff(a: Seq<Seq<char>>, b: Seq<Seq<char>>, i: int)
    requires
        0 <= i,
    ensures
        0 <= first_diff(a, b, i),
        first_diff(a, b, i) < a.len() || first_diff(a, b, i) == 0,
        first_diff(a, b, i) < b.len() || first_diff(a, b, i) == 0,
    decreases a.len() - i,
{
    if i < a.len() && i < b.len() && a[i] == b[i] {
        lemma_first_diff(a, b, i + 1);
    }
}

proof fn lemma_common_suffix(a: Seq<Seq<char>>, b: Seq<Seq<char>>, k: int)
    requires
        0 <= k <= a.len(),
        k <= b.len(),
    ensures
        k <= common_suffix(a, b, k) <= a.len(),
        common_suffix(a, b, k) <= b.len(),
    decreases a.len() - k,
{
    if k < a.len() && k < b.len() && a[a.len() - 1 - k] == b[b.len() - 1 - k] {
        lemma_common_suffix(a, b, k + 1);
    }
}

proof fn lemma_first_diff_prefix(a: Seq<Seq<char>>, b: Seq<Seq<char>>, i: int)
    requires
        0 <= i <= a.len(),
        i <= b.len(),
        forall|j: int| 0 <= j < i ==> a[j] == b[j],
    ensures
        first_diff(a, b, i) == 0 || (i <= first_diff(a, b, i)
            && forall|j: int| 0 <= j < first_diff(a, b, i) ==> a[j] == b[j]),
    decreases a.len() - i,
{
    if i < a.len() && i < b.len() && a[i] == b[i] {
        lemma_first_diff_prefix(a, b, i + 1);
    }
}

spec fn same_from_end(a: Seq<Seq<char>>, b: Seq<Seq<char>>, j: int) -> bool {
    a[a.len() - 1 - j] == b[b.len() - 1 - j]
}

proof fn lemma_common_suffix_tail(a: Seq<Seq<char>>, b: Seq<Seq<char>>, k: int)
    requires
        0 <= k <= a.len(),
        k <= b.len(),
        forall|j: int| 0 <= j < k ==> #[trigger] same_from_end(a, b, j),
    ensures
        forall|j: int| 0 <= j < common_suffix(a, b, k) ==> #[trigger] same_from_end(a, b, j),
    decreases a.len() - k,
{
    if k < a.len() && k < b.len() && a[a.len() - 1 - k] == b[b.len() - 1 - k] {
        lemma_common_suffix_tail(a, b, k + 1);
    }
}

/// The hunk that `unified_diff` prints turns the old text into the new one:
/// the lines before it and the lines after it are the same in both texts, it
/// removes exactly the old lines it covers and adds exactly the new ones.
pub proof fn law_diff_hunk_applies(old: Seq<char>, new: Seq<char>)
    ensures
        ({
            let a = lines(old);
            let b = lines(new);
            let start = first_diff(a, b, 0);
            let c = clipped_tail(a, b);
            &&& 0 <= start <= a.len() - c
            &&& start <= b.len() - c
            &&& 0 <= c
            &&& a.subrange(0, start) == b.subrange(0, start)
            &&& a.subrange(a.len() - c, a.len() as int) == b.subrange(b.len() - c, b.len() as int)
            &&& b == a.subrange(0, start) + b.subrange(start, b.len() - c)
                + a.subrange(a.len() - c, a.len() as int)
        }),
{
    let a = lines(old);
    let b = lines(new);
    let start = first_diff(a, b, 0);
    let c0 = common_suffix(a, b, 0);
    let c = clipped_tail(a, b);
    lemma_first_diff(a, b, 0);
    lemma_common_suffix(a, b, 0);
    lemma_first_diff_prefix(a, b, 0);
    lemma_common_suffix_tail(a, b, 0);
    assert(start == 0 || forall|j: int| 0 <= j < start ==> a[j] == b[j]);
    assert(a.subrange(0, start) =~= b.subrange(0, start));
    let ta = a.subrange(a.len() - c, a.len() as int);
    let tb = b.subrange(b.len() - c, b.len() as int);
    assert forall|j: int| 0 <= j < c implies #[trigger] ta[j] == tb[j] by {
        let k = c - 1 - j;
        assert(0 <= k < c0);
        assert(same_from_end(a, b, k));
    }
    assert(ta =~= tb);
    assert(b =~= b.subrange(0, start) + b.subrange(start, b.len() - c) + b.subrange(b.len() - c, b.len() as int));
}

fn push_marked(out: &mut Vec<char>, ls: &Vec<String>, from: usize, to: usize, c: char)
    requires
        from <= to <= ls@.len(),
    ensures
        final(out)@ == old(out)@ + marked(string_views(ls@).subrange(from as int, to as int), c),
{
    let ghost base = out@;
    let mut k = from;
    while k < to
        invariant
            from <= k <= to <= ls@.len(),
            base == old(out)@,
            out@ == base + marked(string_views(ls@).subrange(from as int, k as int), c),
        decreases to - k,
    {
        let ghost before = out@;
        out.push(c);
        push_str(out, ls[k].as_str());
        out.push('\n');
        proof {
            let sub = string_views(ls@).subrange(from as int, k + 1);
            assert(sub.drop_last() =~= string_views(ls@).subrange(from as int, k as int));
            assert(sub.last() == ls@[k as int]@);
            assert(out@ =~= before + seq![c] + ls@[k as int]@ + seq!['\n']);
        }
        k += 1;
    }
}

/// Minimal unified diff between two texts, line-based, with a single hunk.
pub fn unified_diff(path: &str, old: &str, new: &str) -> (r: String)
    ensures
        r@ == diff_text(path@, old@, new@),
{
    let a = split_lines(old);
    let b = split_lines(new);
    let mut out: Vec<char> = Vec::new();
    push_str(&mut out, "--- a/");
    push_str(&mut out, path);
    push_str(&mut out, "\n+++ b/");
    push_str(&mut out, path);
    push_str(&mut out, "\n");
    if str_is(old, new) {
        return string_from(out.as_slice());
    }
    let ghost la = lines(old@);
    let ghost lb = lines(new@);
    let mut i: usize = 0;
    while i < a.len() && i < b.len() && str_is(a[i].as_str(), b[i].as_str())
        invariant
            string_views(a@) == la,
            string_views(b@) == lb,
            i <= a@.len(),
            i <= b@.len(),
            first_diff(la, lb, 0) == first_diff(la, lb, i as int),
        decreases a@.len() - i,
    {
        assert(la[i as int] == lb[i as int]);
        i += 1;
    }
    let start = if i < a.len() && i < b.len() { i } else { 0 };
    assert(start == first_diff(la, lb, 0));
    let mut c: usize = 0;
    while c < a.len() && c < b.len() && str_is(a[a.len() - 1 - c].as_str(), b[b.len() - 1 - c].as_str())
        invariant
            string_views(a@) == la,
            string_views(b@) == lb,
            c <= a@.len(),
            c <= b@.len(),
            common_suffix(la, lb, 0) == common_suffix(la, lb, c as int),
        decreases a@.len() - c,
    {
        assert(la[la.len() - 1 - c] == lb[lb.len() - 1 - c]);
        c += 1;
    }
    proof {
        lemma_first_diff(la, lb, 0);
        lemma_common_suffix(la, lb, 0);
    }
    let mut tail = c;
    if a.len() - start < tail {
        tail = a.len() - start;
    }
    if b.len() - start < tail {
        tail = b.len() - start;
    }
    let ot = a.len() - tail;
    let nt = b.len() - tail;
    push_str(&mut out, "@@ -");
    let s1 = u64_to_string((start + 1) as u64);
    push_str(&mut out, s1.as_str());
    push_str(&mut out, ",");
    let s2 = u64_to_string((ot - start) as u64);
    push_str(&mut out, s2.as_str());
    push_str(&mut out, " +");
    push_str(&mut out, s1.as_str());
    push_str(&mut out, ",");
    let s3 = u64_to_string((nt - start) as u64);
    push_str(&mut out, s3.as_str());
    push_str(&mut out, " @@\n");
    push_marked(&mut out, &a, start, ot, '-');
    push_marked(&mut out, &b, start, nt, '+');
    string_from(out.as_slice())
}

/// The preview of a deleted file.
pub fn delete_diff(path: &str) -> (r: String)
    ensures
        r@ == "--- a/"@ + path@ + "\n+++ /dev/null\n(deleted)\n"@,
{
    let mut out: Vec<char> = Vec::new();
    push_str(&mut out, "--- a/");
    push_str(&mut out, path);
    push_str(&mut out, "\n+++ /dev/null\n(deleted)\n");
    string_from(out.as_slice())
}

} // verus!
