//! Orders on text: plain character order (as `String` compares) and the
//! component-wise order of repo-relative paths (as `Path` compares), where the
//! separator sorts before every other character. Includes a verified sort for
//! lists of strings.

use vstd::prelude::*;
use crate::text::{chars_of, contains_str};

verus! {

/// Sort key of a character: its code point, with `/` lowest for paths.
pub open spec fn ckey(c: char, path: bool) -> int {
    if path && c == '/' { -1 } else { (c as u32) as int }
}

/// Lexicographic order on character sequences (a proper prefix sorts first).
pub open spec fn seq_lt(a: Seq<char>, b: Seq<char>, path: bool) -> bool
    decreases a.len(),
{
    if a.len() == 0 {
        b.len() > 0
    } else if b.len() == 0 {
        false
    } else if ckey(a[0], path) < ckey(b[0], path) {
        true
    } else if ckey(a[0], path) > ckey(b[0], path) {
        false
    } else {
        seq_lt(a.drop_first(), b.drop_first(), path)
    }
}

pub proof fn lemma_ckey_inj(x: char, y: char, path: bool)
    requires
        ckey(x, path) == ckey(y, path),
    ensures
        x == y,
{
    if path && x == '/' {
        if y != '/' {
            assert(ckey(y, path) == (y as u32) as int);
        }
    } else if path && y == '/' {
        assert(ckey(x, path) == (x as u32) as int);
    } else {
        assert((x as u32) == (y as u32));
    }
}

pub proof fn lemma_seq_lt_irrefl(a: Seq<char>, path: bool)
    ensures
        !seq_lt(a, a, path),
    decreases a.len(),
{
    if a.len() > 0 {
        lemma_seq_lt_irrefl(a.drop_first(), path);
    }
}

pub proof fn lemma_seq_lt_asym(a: Seq<char>, b: Seq<char>, path: bool)
    requires
        seq_lt(a, b, path),
    ensures
        !seq_lt(b, a, path),
    decreases a.len(),
{
    if a.len() > 0 && b.len() > 0 && ckey(a[0], path) == ckey(b[0], path) {
        lemma_seq_lt_asym(a.drop_first(), b.drop_first(), path);
    }
}

pub proof fn lemma_seq_lt_trans(a: Seq<char>, b: Seq<char>, c: Seq<char>, path: bool)
    requires
        seq_lt(a, b, path),
        seq_lt(b, c, path),
    ensures
        seq_lt(a, c, path),
    decreases a.len(),
{
    if a.len() > 0 && b.len() > 0 && c.len() > 0 && ckey(a[0], path) == ckey(b[0], path)
        && ckey(b[0], path) == ckey(c[0], path) {
        lemma_seq_lt_trans(a.drop_first(), b.drop_first(), c.drop_first(), path);
    }
}

pub proof fn lemma_seq_lt_total(a: Seq<char>, b: Seq<char>, path: bool)
    requires
        a != b,
    ensures
        seq_lt(a, b, path) || seq_lt(b, a, path),
    decreases a.len(),
{
    if a.len() > 0 && b.len() > 0 && ckey(a[0], path) == ckey(b[0], path) {
        lemma_ckey_inj(a[0], b[0], path);
        if a.drop_first() == b.drop_first() {
            assert(a =~= seq![a[0]] + a.drop_first());
            assert(b =~= seq![b[0]] + b.drop_first());
        }
        lemma_seq_lt_total(a.drop_first(), b.drop_first(), path);
    } else if a.len() == 0 && b.len() == 0 {
        assert(a =~= b);
    }
}

proof fn lemma_seq_lt_skip(a: Seq<char>, b: Seq<char>, k: int, path: bool)
    requires
        0 <= k <= a.len(),
        k <= b.len(),
        forall|t: int| 0 <= t < k ==> a[t] == b[t],
    ensures
        seq_lt(a, b, path) == seq_lt(a.skip(k), b.skip(k), path),
    decreases k,
{
    if k > 0 {
        assert forall|t: int| 0 <= t < k - 1 implies a.drop_first()[t] == b.drop_first()[t] by {
            assert(a[t + 1] == b[t + 1]);
        }
        lemma_seq_lt_skip(a.drop_first(), b.drop_first(), k - 1, path);
        assert(a.drop_first().skip(k - 1) =~= a.skip(k));
        assert(b.drop_first().skip(k - 1) =~= b.skip(k));
    } else {
        assert(a.skip(0) =~= a);
        assert(b.skip(0) =~= b);
    }
}

fn char_key_less(x: char, y: char, path: bool) -> (r: bool)
    ensures
        r == (ckey(x, path) < ckey(y, path)),
{
    if path && x == '/' {
        !(y == '/')
    } else if path && y == '/' {
        false
    } else {
        (x as u32) < (y as u32)
    }
}

/// `a` sorts strictly before `b` (character order, or path order).
pub fn str_less(a: &str, b: &str, path: bool) -> (r: bool)
    ensures
        r == seq_lt(a@, b@, path),
{
    let x = chars_of(a);
    let y = chars_of(b);
    let mut k: usize = 0;
    while k < x.len() && k < y.len() && x[k] == y[k]
        invariant
            k <= x@.len(),
            k <= y@.len(),
            x@ == a@,
            y@ == b@,
            forall|t: int| 0 <= t < k ==> x@[t] == y@[t],
        decreases x@.len() - k,
    {
        k += 1;
    }
    proof { lemma_seq_lt_skip(a@, b@, k as int, path); }
    if k == x.len() {
        k < y.len()
    } else if k == y.len() {
        false
    } else {
        proof {
            assert(a@.skip(k as int)[0] == x@[k as int]);
            assert(b@.skip(k as int)[0] == y@[k as int]);
            if ckey(x@[k as int], path) == ckey(y@[k as int], path) {
                lemma_ckey_inj(x@[k as int], y@[k as int], path);
            }
        }
        char_key_less(x[k], y[k], path)
    }
}

/// Strings sorted strictly ascending (so, without duplicates).
pub open spec fn strictly_sorted(v: Seq<Seq<char>>, path: bool) -> bool {
    forall|a: int, b: int| 0 <= a < b < v.len() ==> seq_lt(#[trigger] v[a], #[trigger] v[b], path)
}

pub open spec fn string_views(v: Seq<String>) -> Seq<Seq<char>> {
    v.map_values(|s: String| s@)
}

/// Does some string of `v` have the contents `s`?
pub fn contains_view(v: &Vec<String>, s: &str) -> (r: bool)
    ensures
        r == string_views(v@).contains(s@),
{
    let b = contains_str(v, s);
    proof {
        if b {
            let q = choose|q: int| 0 <= q < v@.len() && v@[q]@ == s@;
            assert(string_views(v@)[q] == s@);
        }
        if string_views(v@).contains(s@) {
            let q = choose|q: int| 0 <= q < string_views(v@).len() && string_views(v@)[q] == s@;
            assert(v@[q]@ == s@);
        }
    }
    b
}

/// Two strictly sorted lists with the same elements are the same list.
pub proof fn lemma_sorted_unique(v: Seq<Seq<char>>, w: Seq<Seq<char>>, path: bool)
    requires
        strictly_sorted(v, path),
        strictly_sorted(w, path),
        v.to_set() == w.to_set(),
    ensures
        v == w,
    decreases v.len(),
{
    if v.len() == 0 {
        if w.len() > 0 {
            assert(w.to_set().contains(w[0]));
        }
        assert(v =~= w);
    } else if w.len() == 0 {
        assert(v.to_set().contains(v[0]));
    } else {
        // the first elements are the least of the common set
        assert(v.to_set().contains(v[0]));
        assert(w.to_set().contains(w[0]));
        let i = choose|i: int| 0 <= i < w.len() && w[i] == v[0];
        let j = choose|j: int| 0 <= j < v.len() && v[j] == w[0];
        if i > 0 {
            assert(seq_lt(w[0], w[i], path));
            if j > 0 {
                assert(seq_lt(v[0], v[j], path));
                lemma_seq_lt_asym(w[0], v[0], path);
            } else {
                lemma_seq_lt_irrefl(w[0], path);
            }
        }
        assert(v[0] == w[0]);
        let v1 = v.drop_first();
        let w1 = w.drop_first();
        assert(v1.to_set() =~= w1.to_set()) by {
            assert forall|x: Seq<char>| v1.to_set().contains(x) implies w1.to_set().contains(x) by {
                let a = choose|a: int| 0 <= a < v1.len() && v1[a] == x;
                assert(v.to_set().contains(x)) by { assert(v[a + 1] == x); }
                let b = choose|b: int| 0 <= b < w.len() && w[b] == x;
                if b == 0 {
                    assert(seq_lt(v[0], v[a + 1], path));
                    lemma_seq_lt_irrefl(v[0], path);
                }
                assert(w1[b - 1] == x);
            }
            assert forall|x: Seq<char>| w1.to_set().contains(x) implies v1.to_set().contains(x) by {
                let a = choose|a: int| 0 <= a < w1.len() && w1[a] == x;
                assert(w.to_set().contains(x)) by { assert(w[a + 1] == x); }
                let b = choose|b: int| 0 <= b < v.len() && v[b] == x;
                if b == 0 {
                    assert(seq_lt(w[0], w[a + 1], path));
                    lemma_seq_lt_irrefl(w[0], path);
                }
                assert(v1[b - 1] == x);
            }
        }
        lemma_sorted_unique(v1, w1, path);
        assert(v =~= seq![v[0]] + v1);
        assert(w =~= seq![w[0]] + w1);
    }
}

/// The strictly ascending list of the distinct strings of `v`.
pub open spec fn sorted_set(v: Seq<Seq<char>>, path: bool) -> Seq<Seq<char>> {
    choose|w: Seq<Seq<char>>| strictly_sorted(w, path) && w.to_set() == v.to_set()
}

/// The distinct strings of `v`, sorted ascending.
pub fn sort_dedup(v: &Vec<String>, path: bool) -> (r: Vec<String>)
    ensures
        strictly_sorted(string_views(r@), path),
        string_views(r@).to_set() == string_views(v@).to_set(),
        string_views(r@) == sorted_set(string_views(v@), path),
{
    let mut out: Vec<String> = Vec::new();
    let mut i: usize = 0;
    while i < v.len()
        invariant
            i <= v@.len(),
            strictly_sorted(string_views(out@), path),
            string_views(out@).to_set() == string_views(v@.take(i as int)).to_set(),
        decreases v@.len() - i,
    {
        let x = v[i].as_str();
        let mut p: usize = 0;
        while p < out.len() && str_less(out[p].as_str(), x, path)
            invariant
                p <= out@.len(),
                forall|k: int| 0 <= k < p ==> seq_lt(#[trigger] out@[k]@, x@, path),
            decreases out@.len() - p,
        {
            p += 1;
        }
        let ghost old_out = out@;
        let ghost ov = string_views(old_out);
        assert(v@.take(i + 1) == v@.take(i as int).push(v@[i as int]));
        assert(string_views(v@.take(i + 1)) =~= string_views(v@.take(i as int)).push(x@));
        if p < out.len() && !str_less(x, out[p].as_str(), path) {
            // equal to out[p]: already present
            proof {
                if out@[p as int]@ != x@ {
                    lemma_seq_lt_total(out@[p as int]@, x@, path);
                }
                assert(ov[p as int] == x@);
                assert(ov.to_set().insert(x@) =~= ov.to_set());
                string_views(v@.take(i as int)).lemma_push_to_set_commute(x@);
            }
        } else {
            out.insert(p, v[i].clone());
            proof {
                let nv = string_views(out@);
                assert(nv =~= ov.take(p as int).push(x@) + ov.skip(p as int));
                assert(nv[p as int] == x@);
                assert forall|a: int, b: int| 0 <= a < b < nv.len() implies seq_lt(#[trigger] nv[a], #[trigger] nv[b], path) by {
                    if b < p as int {
                        assert(nv[a] == ov[a] && nv[b] == ov[b]);
                    } else if a > p as int {
                        assert(nv[a] == ov[a - 1] && nv[b] == ov[b - 1]);
                    } else if a < p as int && b > p as int {
                        assert(nv[a] == ov[a] && nv[b] == ov[b - 1]);
                    } else if b == p as int {
                        assert(nv[a] == ov[a]);
                        assert(seq_lt(old_out[a]@, x@, path));
                    } else {
                        assert(nv[b] == ov[b - 1]);
                        // x is below out[p] (old)
                        if ov[p as int] != x@ {
                            lemma_seq_lt_total(ov[p as int], x@, path);
                        } else {
                            lemma_seq_lt_irrefl(x@, path);
                        }
                        if b - 1 > p as int {
                            lemma_seq_lt_trans(x@, ov[p as int], ov[b - 1], path);
                        }
                    }
                }
                assert(nv.to_set() =~= ov.to_set().insert(x@)) by {
                    assert forall|y: Seq<char>| nv.to_set().contains(y) implies ov.to_set().insert(x@).contains(y) by {
                        let k = choose|k: int| 0 <= k < nv.len() && nv[k] == y;
                        if k < p as int { assert(ov[k] == y); }
                        else if k > p as int { assert(ov[k - 1] == y); }
                    }
                    assert forall|y: Seq<char>| ov.to_set().insert(x@).contains(y) implies nv.to_set().contains(y) by {
                        if y == x@ {
                            assert(nv[p as int] == y);
                        } else {
                            let k = choose|k: int| 0 <= k < ov.len() && ov[k] == y;
                            if k < p as int { assert(nv[k] == y); } else { assert(nv[k + 1] == y); }
                        }
                    }
                }
                string_views(v@.take(i as int)).lemma_push_to_set_commute(x@);
            }
        }
        i += 1;
    }
    proof {
        assert(v@.take(v@.len() as int) == v@);
        let w = sorted_set(string_views(v@), path);
        assert(strictly_sorted(w, path) && w.to_set() == string_views(v@).to_set());
        lemma_sorted_unique(string_views(out@), w, path);
    }
    out
}

} // verus!
