//! The index behind clone detection: dense rank compression of the symbol
//! stream, its suffix array, and the longest common prefixes of neighbours.

use vstd::prelude::*;

verus! {

// ── rank compression ─────────────────────────────────────────────────────────

/// `r` is the dense, order-preserving renaming of `s` onto `0..k`.
pub open spec fn dense_ranks(s: Seq<u64>, r: Seq<u32>) -> bool {
    &&& r.len() == s.len()
    &&& forall|i: int, j: int| 0 <= i < s.len() && 0 <= j < s.len() ==>
        ((s[i] < s[j]) <==> (#[trigger] r[i] < #[trigger] r[j]))
    &&& forall|i: int, j: int| 0 <= i < s.len() && 0 <= j < s.len() ==>
        ((s[i] == s[j]) <==> (r[i] == r[j]))
    &&& forall|i: int, k: int| #![trigger r[i], rank_taken(r, k)] 0 <= i < s.len() && 0 <= k < r[i] ==> rank_taken(r, k)
}

/// Some position carries rank `k`.
pub open spec fn rank_taken(r: Seq<u32>, k: int) -> bool {
    exists|j: int| 0 <= j < r.len() && #[trigger] r[j] == k
}

/// `x` occurs among the first `upto` symbols.
pub open spec fn in_prefix(s: Seq<u64>, x: u64, upto: int) -> bool {
    exists|j: int| 0 <= j < upto && s[j] == x
}

pub open spec fn strictly_increasing(v: Seq<u64>) -> bool {
    forall|a: int, b: int| 0 <= a < b < v.len() ==> #[trigger] v[a] < #[trigger] v[b]
}

/// Map arbitrary u64 symbols to dense ranks `0..k` preserving order.
pub fn rank_compress(syms: &[u64]) -> (r: Vec<u32>)
    requires
        syms@.len() <= u32::MAX,
    ensures
        dense_ranks(syms@, r@),
{
    // The distinct values seen so far, strictly increasing.
    let mut sorted: Vec<u64> = Vec::new();
    let mut i: usize = 0;
    while i < syms.len()
        invariant
            i <= syms@.len(),
            strictly_increasing(sorted@),
            forall|k: int| 0 <= k < sorted@.len() ==> in_prefix(syms@, #[trigger] sorted@[k], i as int),
            forall|j: int| 0 <= j < i ==> sorted@.contains(#[trigger] syms@[j]),
            sorted@.len() <= i,
        decreases syms@.len() - i,
    {
        let x = syms[i];
        let mut p: usize = 0;
        while p < sorted.len() && sorted[p] < x
            invariant
                p <= sorted@.len(),
                strictly_increasing(sorted@),
                forall|k: int| 0 <= k < p ==> sorted@[k] < x,
            decreases sorted@.len() - p,
        {
            p += 1;
        }
        let ghost old_sorted = sorted@;
        if p < sorted.len() && sorted[p] == x {
            assert(sorted@.contains(x)) by { assert(sorted@[p as int] == x); }
        } else {
            sorted.insert(p, x);
            proof {
                assert forall|a: int, b: int| 0 <= a < b < sorted@.len() implies #[trigger] sorted@[a] < #[trigger] sorted@[b] by {
                    if a < p as int && b == p as int {
                    } else if a < p as int && b > p as int {
                        assert(sorted@[b] == old_sorted[b - 1]);
                        if b - 1 > a {
                            assert(old_sorted[a] < old_sorted[b - 1]);
                        }
                    } else if a == p as int {
                        assert(sorted@[b] == old_sorted[b - 1]);
                        assert(old_sorted[p as int] >= x);
                        if b - 1 > p as int {
                            assert(old_sorted[p as int] < old_sorted[b - 1]);
                        }
                    } else if a > p as int {
                        assert(sorted@[a] == old_sorted[a - 1]);
                        assert(sorted@[b] == old_sorted[b - 1]);
                    } else {
                        assert(sorted@[a] == old_sorted[a]);
                        assert(sorted@[b] == old_sorted[b]);
                    }
                }
                assert forall|k: int| 0 <= k < sorted@.len() implies in_prefix(syms@, #[trigger] sorted@[k], i + 1) by {
                    if k < p as int {
                        assert(sorted@[k] == old_sorted[k]);
                        assert(in_prefix(syms@, old_sorted[k], i as int));
                    } else if k == p as int {
                        assert(syms@[i as int] == sorted@[k]);
                    } else {
                        assert(sorted@[k] == old_sorted[k - 1]);
                        assert(in_prefix(syms@, old_sorted[k - 1], i as int));
                    }
                }
                assert forall|j: int| 0 <= j < i + 1 implies sorted@.contains(#[trigger] syms@[j]) by {
                    if j == i as int {
                        assert(sorted@[p as int] == x);
                    } else {
                        let k = choose|k: int| 0 <= k < old_sorted.len() && old_sorted[k] == syms@[j];
                        if k < p as int {
                            assert(sorted@[k] == syms@[j]);
                        } else {
                            assert(sorted@[k + 1] == syms@[j]);
                        }
                    }
                }
            }
        }
        i += 1;
    }

    assert forall|k: int| 0 <= k < sorted@.len() implies in_prefix(syms@, #[trigger] sorted@[k], syms@.len() as int) by {
        assert(in_prefix(syms@, sorted@[k], i as int));
    }
    let mut r: Vec<u32> = Vec::new();
    let mut i: usize = 0;
    while i < syms.len()
        invariant
            i <= syms@.len() <= u32::MAX,
            strictly_increasing(sorted@),
            sorted@.len() <= syms@.len(),
            forall|k: int| 0 <= k < sorted@.len() ==> in_prefix(syms@, #[trigger] sorted@[k], syms@.len() as int),
            forall|j: int| 0 <= j < syms@.len() ==> sorted@.contains(#[trigger] syms@[j]),
            r@.len() == i,
            forall|j: int| 0 <= j < i ==> (#[trigger] r@[j]) < sorted@.len() && sorted@[r@[j] as int] == syms@[j],
        decreases syms@.len() - i,
    {
        let x = syms[i];
        let mut p: usize = 0;
        while p < sorted.len() && sorted[p] < x
            invariant
                p <= sorted@.len(),
                forall|k: int| 0 <= k < p ==> sorted@[k] < x,
            decreases sorted@.len() - p,
        {
            p += 1;
        }
        proof {
            assert(sorted@.contains(syms@[i as int]));
            let k = choose|k: int| 0 <= k < sorted@.len() && sorted@[k] == x;
            if k < p as int {
                assert(sorted@[k] < x);
            }
            if k > p as int {
                assert(sorted@[p as int] < sorted@[k]);
            }
        }
        r.push(p as u32);
        i += 1;
    }
    proof {
        assert forall|i: int, j: int| 0 <= i < syms@.len() && 0 <= j < syms@.len() implies
            ((syms@[i] < syms@[j]) <==> (#[trigger] r@[i] < #[trigger] r@[j])) by {
            let (a, b) = (r@[i] as int, r@[j] as int);
            if a < b { assert(sorted@[a] < sorted@[b]); }
            if b < a { assert(sorted@[b] < sorted@[a]); }
        }
        assert forall|i: int, j: int| 0 <= i < syms@.len() && 0 <= j < syms@.len() implies
            ((syms@[i] == syms@[j]) <==> (r@[i] == r@[j])) by {
            let (a, b) = (r@[i] as int, r@[j] as int);
            if a < b { assert(sorted@[a] < sorted@[b]); }
            if b < a { assert(sorted@[b] < sorted@[a]); }
        }
        assert forall|i: int, k: int| #![trigger r@[i], rank_taken(r@, k)] 0 <= i < syms@.len() && 0 <= k < r@[i] implies
            rank_taken(r@, k) by {
            assert(in_prefix(syms@, sorted@[k], syms@.len() as int));
            let j = choose|j: int| 0 <= j < syms@.len() && syms@[j] == sorted@[k];
            let b = r@[j] as int;
            if b < k { assert(sorted@[b] < sorted@[k]); }
            if k < b { assert(sorted@[k] < sorted@[b]); }
        }
    }
    r
}

// ── suffix array + LCP ───────────────────────────────────────────────────────

/// Lexicographic order on symbol sequences (a proper prefix sorts first).
pub open spec fn lex_lt(a: Seq<u32>, b: Seq<u32>) -> bool
    decreases a.len(),
{
    if a.len() == 0 {
        b.len() > 0
    } else if b.len() == 0 {
        false
    } else if a[0] < b[0] {
        true
    } else if a[0] > b[0] {
        false
    } else {
        lex_lt(a.drop_first(), b.drop_first())
    }
}

pub proof fn lemma_lex_irrefl(a: Seq<u32>)
    ensures
        !lex_lt(a, a),
    decreases a.len(),
{
    if a.len() > 0 {
        lemma_lex_irrefl(a.drop_first());
    }
}

pub proof fn lemma_lex_trans(a: Seq<u32>, b: Seq<u32>, c: Seq<u32>)
    requires
        lex_lt(a, b),
        lex_lt(b, c),
    ensures
        lex_lt(a, c),
    decreases a.len(),
{
    if a.len() > 0 && b.len() > 0 && c.len() > 0 && a[0] == b[0] && b[0] == c[0] {
        lemma_lex_trans(a.drop_first(), b.drop_first(), c.drop_first());
    }
}

pub proof fn lemma_lex_total(a: Seq<u32>, b: Seq<u32>)
    requires
        a != b,
    ensures
        lex_lt(a, b) || lex_lt(b, a),
    decreases a.len(),
{
    if a.len() > 0 && b.len() > 0 && a[0] == b[0] {
        if a.drop_first() == b.drop_first() {
            assert(a =~= seq![a[0]] + a.drop_first());
            assert(b =~= seq![b[0]] + b.drop_first());
        }
        lemma_lex_total(a.drop_first(), b.drop_first());
    } else if a.len() == 0 && b.len() == 0 {
        assert(a =~= b);
    }
}

/// Skipping an equal prefix does not change the order.
proof fn lemma_lex_skip(a: Seq<u32>, b: Seq<u32>, k: int)
    requires
        0 <= k <= a.len(),
        k <= b.len(),
        forall|t: int| 0 <= t < k ==> a[t] == b[t],
    ensures
        lex_lt(a, b) == lex_lt(a.skip(k), b.skip(k)),
    decreases k,
{
    if k > 0 {
        assert(a[0] == b[0]);
        assert forall|t: int| 0 <= t < k - 1 implies a.drop_first()[t] == b.drop_first()[t] by {
            assert(a[t + 1] == b[t + 1]);
        }
        lemma_lex_skip(a.drop_first(), b.drop_first(), k - 1);
        assert(a.drop_first().skip(k - 1) =~= a.skip(k));
        assert(b.drop_first().skip(k - 1) =~= b.skip(k));
    } else {
        assert(a.skip(0) =~= a);
        assert(b.skip(0) =~= b);
    }
}

/// Is the suffix at `i` lexicographically smaller than the suffix at `j`?
pub fn suffix_less(s: &[u32], i: usize, j: usize) -> (r: bool)
    requires
        i <= s@.len(),
        j <= s@.len(),
    ensures
        r == lex_lt(s@.skip(i as int), s@.skip(j as int)),
{
    let n = s.len();
    let mut k: usize = 0;
    while i + k < n && j + k < n && s[i + k] == s[j + k]
        invariant
            n == s@.len(),
            i <= n,
            j <= n,
            i + k <= n,
            j + k <= n,
            forall|t: int| 0 <= t < k ==> s@.skip(i as int)[t] == s@.skip(j as int)[t],
        decreases n - i - k,
    {
        k += 1;
    }
    proof {
        lemma_lex_skip(s@.skip(i as int), s@.skip(j as int), k as int);
        assert(s@.skip(i as int).skip(k as int) =~= s@.skip(i + k));
        assert(s@.skip(j as int).skip(k as int) =~= s@.skip(j + k));
    }
    if i + k == n {
        j + k < n
    } else if j + k == n {
        false
    } else {
        s[i + k] < s[j + k]
    }
}

/// `sa` lists every suffix start of `s` exactly once, in increasing
/// lexicographic order of the suffixes.
pub open spec fn is_suffix_array(s: Seq<u32>, sa: Seq<usize>) -> bool {
    &&& sa.len() == s.len()
    &&& forall|k: int| 0 <= k < sa.len() ==> (#[trigger] sa[k]) < s.len()
    &&& sa.no_duplicates()
    &&& forall|a: int, b: int| 0 <= a < b < sa.len() ==>
        lex_lt(s.skip(#[trigger] sa[a] as int), s.skip(#[trigger] sa[b] as int))
}

/// Distinct suffix starts of `s`, in increasing lexicographic order of the
/// suffixes.
pub open spec fn sorted_starts(s: Seq<u32>, v: Seq<usize>) -> bool {
    &&& forall|k: int| 0 <= k < v.len() ==> (#[trigger] v[k]) < s.len()
    &&& v.no_duplicates()
    &&& forall|a: int, b: int| 0 <= a < b < v.len() ==>
        lex_lt(s.skip(#[trigger] v[a] as int), s.skip(#[trigger] v[b] as int))
}

/// The merge of two sorted runs of starts, the first from `lo..mid`, the
/// second from `mid..hi`.
fn merge_starts(s: &[u32], a: &Vec<usize>, b: &Vec<usize>, lo: usize, mid: usize, hi: usize) -> (r: Vec<usize>)
    requires
        lo <= mid <= hi <= s@.len(),
        sorted_starts(s@, a@),
        sorted_starts(s@, b@),
        forall|k: int| 0 <= k < a@.len() ==> lo <= #[trigger] a@[k] < mid,
        forall|k: int| 0 <= k < b@.len() ==> mid <= #[trigger] b@[k] < hi,
    ensures
        r@.len() == a@.len() + b@.len(),
        forall|k: int| 0 <= k < r@.len() ==> lo <= #[trigger] r@[k] < hi,
        sorted_starts(s@, r@),
{
    let ghost sv = s@;
    let mut out: Vec<usize> = Vec::new();
    let mut i: usize = 0;
    let mut j: usize = 0;
    while i < a.len() || j < b.len()
        invariant
            sv == s@,
            lo <= mid <= hi <= s@.len(),
            sorted_starts(s@, a@),
            sorted_starts(s@, b@),
            forall|k: int| 0 <= k < a@.len() ==> lo <= #[trigger] a@[k] < mid,
            forall|k: int| 0 <= k < b@.len() ==> mid <= #[trigger] b@[k] < hi,
            i <= a@.len(),
            j <= b@.len(),
            out@.len() == i + j,
            forall|k: int| 0 <= k < out@.len() ==> lo <= #[trigger] out@[k] < hi,
            forall|k: int| 0 <= k < out@.len() && out@[k] < mid ==> exists|p: int| 0 <= p < i && #[trigger] a@[p] == out@[k],
            forall|k: int| 0 <= k < out@.len() && out@[k] >= mid ==> exists|q: int| 0 <= q < j && #[trigger] b@[q] == out@[k],
            sorted_starts(s@, out@),
            out@.len() > 0 && i < a@.len() ==> lex_lt(sv.skip(out@.last() as int), sv.skip(a@[i as int] as int)),
            out@.len() > 0 && j < b@.len() ==> lex_lt(sv.skip(out@.last() as int), sv.skip(b@[j as int] as int)),
        decreases a@.len() + b@.len() - i - j,
    {
        let take_a = if j >= b.len() { true } else if i >= a.len() { false } else { suffix_less(s, a[i], b[j]) };
        let x = if take_a { a[i] } else { b[j] };
        proof {
            if !take_a && i < a@.len() {
                assert(sv.skip(a@[i as int] as int).len() != sv.skip(b@[j as int] as int).len());
                lemma_lex_total(sv.skip(a@[i as int] as int), sv.skip(b@[j as int] as int));
            }
            // every start already out sorts before x
            assert forall|k: int| 0 <= k < out@.len() implies lex_lt(sv.skip(#[trigger] out@[k] as int), sv.skip(x as int)) by {
                let last = out@.len() - 1;
                if k < last {
                    lemma_lex_trans(sv.skip(out@[k] as int), sv.skip(out@[last] as int), sv.skip(x as int));
                }
            }
            // x is new
            assert forall|k: int| 0 <= k < out@.len() implies #[trigger] out@[k] != x by {
                if take_a && out@[k] < mid {
                    let p = choose|p: int| 0 <= p < i && #[trigger] a@[p] == out@[k];
                    assert(a@[p] != a@[i as int]);
                } else if !take_a && out@[k] >= mid {
                    let q = choose|q: int| 0 <= q < j && #[trigger] b@[q] == out@[k];
                    assert(b@[q] != b@[j as int]);
                }
            }
        }
        let ghost before = out@;
        out.push(x);
        proof {
            assert forall|p: int, q: int| 0 <= p < q < out@.len() implies
                lex_lt(sv.skip(#[trigger] out@[p] as int), sv.skip(#[trigger] out@[q] as int)) by {
                if q == out@.len() - 1 {
                    assert(out@[p] == before[p]);
                } else {
                    assert(out@[p] == before[p] && out@[q] == before[q]);
                }
            }
            assert(out@.no_duplicates()) by {
                assert forall|p: int, q: int| 0 <= p < out@.len() && 0 <= q < out@.len() && p != q implies out@[p] != out@[q] by {
                    if p < before.len() && q < before.len() {
                        assert(out@[p] == before[p] && out@[q] == before[q]);
                    } else if p < before.len() {
                        assert(out@[p] == before[p]);
                    } else {
                        assert(out@[q] == before[q]);
                    }
                }
            }
        }
        if take_a {
            proof {
                if i + 1 < a@.len() {
                    assert(lex_lt(sv.skip(a@[i as int] as int), sv.skip(a@[i + 1] as int)));
                }
                assert forall|k: int| 0 <= k < out@.len() && out@[k] < mid implies exists|p: int| 0 <= p < i + 1 && #[trigger] a@[p] == out@[k] by {
                    if k < before.len() {
                        assert(out@[k] == before[k]);
                        let p = choose|p: int| 0 <= p < i && #[trigger] a@[p] == before[k];
                    } else {
                        assert(a@[i as int] == out@[k]);
                    }
                }
                assert forall|k: int| 0 <= k < out@.len() && out@[k] >= mid implies exists|q: int| 0 <= q < j && #[trigger] b@[q] == out@[k] by {
                    assert(out@[k] == before[k]);
                }
            }
            i += 1;
        } else {
            proof {
                if j + 1 < b@.len() {
                    assert(lex_lt(sv.skip(b@[j as int] as int), sv.skip(b@[j + 1] as int)));
                }
                assert forall|k: int| 0 <= k < out@.len() && out@[k] >= mid implies exists|q: int| 0 <= q < j + 1 && #[trigger] b@[q] == out@[k] by {
                    if k < before.len() {
                        assert(out@[k] == before[k]);
                        let q = choose|q: int| 0 <= q < j && #[trigger] b@[q] == before[k];
                    } else {
                        assert(b@[j as int] == out@[k]);
                    }
                }
                assert forall|k: int| 0 <= k < out@.len() && out@[k] < mid implies exists|p: int| 0 <= p < i && #[trigger] a@[p] == out@[k] by {
                    assert(out@[k] == before[k]);
                }
            }
            j += 1;
        }
    }
    out
}

/// The starts `lo..hi` of `s`, sorted by their suffixes (merge sort).
fn sort_starts(s: &[u32], lo: usize, hi: usize) -> (r: Vec<usize>)
    requires
        lo <= hi <= s@.len(),
    ensures
        r@.len() == hi - lo,
        forall|k: int| 0 <= k < r@.len() ==> lo <= #[trigger] r@[k] < hi,
        sorted_starts(s@, r@),
    decreases hi - lo,
{
    if hi - lo <= 1 {
        let mut r: Vec<usize> = Vec::new();
        if hi > lo {
            r.push(lo);
        }
        r
    } else {
        let mid = lo + (hi - lo) / 2;
        let a = sort_starts(s, lo, mid);
        let b = sort_starts(s, mid, hi);
        merge_starts(s, &a, &b, lo, mid, hi)
    }
}

/// Suffix array of `s`: suffix starts sorted lexicographically.
pub fn suffix_array(s: &[u32]) -> (sa: Vec<usize>)
    ensures
        is_suffix_array(s@, sa@),
{
    sort_starts(s, 0, s.len())
}

/// Length of the longest common prefix of two sequences.
pub open spec fn common_prefix(a: Seq<u32>, b: Seq<u32>) -> nat
    decreases a.len(),
{
    if a.len() == 0 || b.len() == 0 || a[0] != b[0] {
        0
    } else {
        1 + common_prefix(a.drop_first(), b.drop_first())
    }
}

proof fn lemma_common_prefix(a: Seq<u32>, b: Seq<u32>, k: int)
    requires
        0 <= k <= a.len(),
        k <= b.len(),
        forall|t: int| 0 <= t < k ==> a[t] == b[t],
        k == a.len() || k == b.len() || a[k] != b[k],
    ensures
        common_prefix(a, b) == k,
    decreases k,
{
    if k > 0 {
        lemma_common_prefix(a.drop_first(), b.drop_first(), k - 1);
    }
}

/// `lcp[i]` is the longest common prefix of the suffixes `sa[i-1]` and
/// `sa[i]`; `lcp[0]` is 0.
pub open spec fn is_lcp(s: Seq<u32>, sa: Seq<usize>, lcp: Seq<usize>) -> bool {
    &&& lcp.len() == s.len()
    &&& (lcp.len() > 0 ==> lcp[0] == 0)
    &&& forall|i: int| 1 <= i < lcp.len() ==>
        #[trigger] lcp[i] == common_prefix(s.skip(sa[i - 1] as int), s.skip(sa[i] as int))
}

/// LCP array of adjacent suffix-array entries.
pub fn kasai_lcp(s: &[u32], sa: &[usize]) -> (lcp: Vec<usize>)
    requires
        sa@.len() == s@.len(),
        forall|k: int| 0 <= k < sa@.len() ==> (#[trigger] sa@[k]) < s@.len(),
    ensures
        is_lcp(s@, sa@, lcp@),
{
    let n = s.len();
    let mut lcp: Vec<usize> = Vec::new();
    let mut i: usize = 0;
    while i < n
        invariant
            n == s@.len() == sa@.len(),
            forall|k: int| 0 <= k < sa@.len() ==> (#[trigger] sa@[k]) < s@.len(),
            i <= n,
            lcp@.len() == i,
            i > 0 ==> lcp@[0] == 0,
            forall|t: int| 1 <= t < i ==>
                #[trigger] lcp@[t] == common_prefix(s@.skip(sa@[t - 1] as int), s@.skip(sa@[t] as int)),
        decreases n - i,
    {
        if i == 0 {
            lcp.push(0);
        } else {
            let a = sa[i - 1];
            let b = sa[i];
            let mut h: usize = 0;
            while a + h < n && b + h < n && s[a + h] == s[b + h]
                invariant
                    n == s@.len(),
                    a < n,
                    b < n,
                    a + h <= n,
                    b + h <= n,
                    forall|t: int| 0 <= t < h ==> s@.skip(a as int)[t] == s@.skip(b as int)[t],
                decreases n - a - h,
            {
                h += 1;
            }
            proof {
                lemma_common_prefix(s@.skip(a as int), s@.skip(b as int), h as int);
            }
            lcp.push(h);
        }
        i += 1;
    }
    lcp
}

// ── uniqueness of the index ──────────────────────────────────────────────────

/// Position `i` holds rank `k` in `r1` exactly when it does in `r2`.
spec fn same_rank(r1: Seq<u32>, r2: Seq<u32>, i: int, k: int) -> bool {
    r1[i] == k <==> r2[i] == k
}

/// Two dense renamings of one stream agree on every position holding a rank
/// up to `k`.
proof fn lemma_dense_ranks_agree(s: Seq<u64>, r1: Seq<u32>, r2: Seq<u32>, k: int)
    requires
        dense_ranks(s, r1),
        dense_ranks(s, r2),
        0 <= k,
    ensures
        forall|i: int, k2: int| 0 <= i < s.len() && 0 <= k2 <= k ==> #[trigger] same_rank(r1, r2, i, k2),
    decreases k,
{
    if k > 0 {
        lemma_dense_ranks_agree(s, r1, r2, k - 1);
    }
    assert forall|i2: int, k2: int| 0 <= i2 < s.len() && 0 <= k2 < k implies #[trigger] same_rank(r2, r1, i2, k2) by {
        assert(same_rank(r1, r2, i2, k2));
    }
    assert forall|i: int| 0 <= i < s.len() implies #[trigger] same_rank(r1, r2, i, k) by {
        lemma_rank_step(s, r1, r2, k, i);
        lemma_rank_step(s, r2, r1, k, i);
    }
}

/// One direction of the step: if `r1` puts rank `k` at `i`, so does `r2`.
proof fn lemma_rank_step(s: Seq<u64>, r1: Seq<u32>, r2: Seq<u32>, k: int, i: int)
    requires
        dense_ranks(s, r1),
        dense_ranks(s, r2),
        0 <= k,
        0 <= i < s.len(),
        forall|i2: int, k2: int| 0 <= i2 < s.len() && 0 <= k2 < k ==> #[trigger] same_rank(r1, r2, i2, k2),
    ensures
        r1[i] == k ==> r2[i] == k,
{
    if r1[i] == k {
        if r2[i] < k {
            let k2 = r2[i] as int;
            assert(same_rank(r1, r2, i, k2));
        } else if r2[i] > k {
            assert(rank_taken(r2, k));
            let j = choose|j: int| 0 <= j < r2.len() && #[trigger] r2[j] == k;
            assert(r2[j] < r2[i]);
            assert(s[j] < s[i]);
            assert(r1[j] < r1[i]);
            let k3 = r1[j] as int;
            assert(same_rank(r1, r2, j, k3));
        }
    }
}

/// A stream has one dense renaming.
pub proof fn lemma_dense_ranks_unique(s: Seq<u64>, r1: Seq<u32>, r2: Seq<u32>)
    requires
        dense_ranks(s, r1),
        dense_ranks(s, r2),
    ensures
        r1 == r2,
{
    assert forall|i: int| 0 <= i < r1.len() implies r1[i] == r2[i] by {
        lemma_dense_ranks_agree(s, r1, r2, r1[i] as int);
        assert(same_rank(r1, r2, i, r1[i] as int));
    }
    assert(r1 =~= r2);
}

/// A duplicate-free list of `n` starts below `n` holds every start below `n`.
proof fn lemma_starts_cover(sa: Seq<usize>, n: int, x: int) -> (b: int)
    requires
        sa.len() == n,
        forall|k: int| 0 <= k < n ==> (#[trigger] sa[k]) < n,
        sa.no_duplicates(),
        0 <= x < n,
    ensures
        0 <= b < n,
        sa[b] == x,
{
    broadcast use vstd::seq_lib::seq_to_set_is_finite;
    let m = sa.map_values(|v: usize| v as int);
    assert(m.no_duplicates()) by {
        assert forall|i: int, j: int| 0 <= i < m.len() && 0 <= j < m.len() && i != j implies m[i] != m[j] by {
            assert(sa[i] != sa[j]);
        }
    }
    m.unique_seq_to_set();
    vstd::set_lib::lemma_int_range(0, n);
    assert(m.to_set().subset_of(vstd::set_lib::set_int_range(0, n))) by {
        assert forall|v: int| m.to_set().contains(v) implies vstd::set_lib::set_int_range(0, n).contains(v) by {
            let i = choose|i: int| 0 <= i < m.len() && m[i] == v;
            assert(sa[i] < n);
        }
    }
    vstd::set_lib::lemma_subset_equality(m.to_set(), vstd::set_lib::set_int_range(0, n));
    assert(vstd::set_lib::set_int_range(0, n).contains(x));
    assert(m.to_set().contains(x));
    let b = choose|b: int| 0 <= b < m.len() && m[b] == x;
    b
}

/// Two suffix arrays of one stream agree up to position `a`.
proof fn lemma_suffix_arrays_agree(s: Seq<u32>, sa1: Seq<usize>, sa2: Seq<usize>, a: int)
    requires
        is_suffix_array(s, sa1),
        is_suffix_array(s, sa2),
        0 <= a < s.len(),
    ensures
        forall|a2: int| 0 <= a2 <= a ==> #[trigger] sa1[a2] == sa2[a2],
    decreases a,
{
    if a > 0 {
        lemma_suffix_arrays_agree(s, sa1, sa2, a - 1);
    }
    let n = s.len() as int;
    let x = sa1[a] as int;
    let y = sa2[a] as int;
    if x != y {
        let b = lemma_starts_cover(sa1, n, y);
        let c = lemma_starts_cover(sa2, n, x);
        if b < a {
            assert(sa1[b] == sa2[b]);
        } else if c < a {
            assert(sa1[c] == sa2[c]);
        } else {
            assert(b != a && c != a);
            assert(lex_lt(s.skip(sa1[a] as int), s.skip(sa1[b] as int)));
            assert(lex_lt(s.skip(sa2[a] as int), s.skip(sa2[c] as int)));
            lemma_lex_trans(s.skip(x), s.skip(y), s.skip(x));
            lemma_lex_irrefl(s.skip(x));
        }
    }
}

/// A stream has one suffix array.
pub proof fn lemma_suffix_array_unique(s: Seq<u32>, sa1: Seq<usize>, sa2: Seq<usize>)
    requires
        is_suffix_array(s, sa1),
        is_suffix_array(s, sa2),
    ensures
        sa1 == sa2,
{
    if s.len() > 0 {
        lemma_suffix_arrays_agree(s, sa1, sa2, s.len() - 1);
        assert forall|a: int| 0 <= a < sa1.len() implies sa1[a] == sa2[a] by {
            assert(sa1[a] == sa2[a]);
        }
    }
    assert(sa1 =~= sa2);
}

/// A suffix array has one LCP array.
pub proof fn lemma_lcp_unique(s: Seq<u32>, sa: Seq<usize>, l1: Seq<usize>, l2: Seq<usize>)
    requires
        is_lcp(s, sa, l1),
        is_lcp(s, sa, l2),
    ensures
        l1 == l2,
{
    assert forall|i: int| 0 <= i < l1.len() implies l1[i] == l2[i] by {
        if i > 0 {
            assert(l1[i] == common_prefix(s.skip(sa[i - 1] as int), s.skip(sa[i] as int)));
            assert(l2[i] == common_prefix(s.skip(sa[i - 1] as int), s.skip(sa[i] as int)));
        }
    }
    assert(l1 =~= l2);
}

} // verus!
