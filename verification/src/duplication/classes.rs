//! Clone classes: runs of adjacent suffix-array entries that share at least
//! `min` symbols, their occurrences in the files, and the filters a class must
//! pass to be reported.

use vstd::prelude::*;
use std::collections::HashMap;
use crate::analysis::{DuplicationConfig, DuplicationMode};
use crate::duplication::report::{class_finding, make_finding, site_ok, sites_ok, window, Site};
use crate::duplication::suffix::{
    dense_ranks, is_lcp, is_suffix_array, kasai_lcp, lemma_dense_ranks_unique, lemma_lcp_unique,
    lemma_suffix_array_unique, rank_compress, suffix_array,
};
use crate::duplication::tokens::{group_of, index_group, lemma_stream_size, positions, stream, stream_size, FileTokens, BOUNDARY_BASE};
use crate::facts::{Tok, TokKind};
use crate::finding::{lemma_views_push, opt, views, Finding, FindingView};
use crate::path::{parent, parent_of};
use crate::text::str_is;

verus! {

// ── left-maximality ──────────────────────────────────────────────────────────

/// A repeat is left-maximal when one of its occurrences starts the stream, or
/// two are preceded by different symbols; otherwise it is a right-shifted
/// copy of a longer repeat.
pub open spec fn left_maximal_at(ranks: Seq<u32>, starts: Seq<usize>) -> bool {
    ||| exists|k: int| 0 <= k < starts.len() && #[trigger] starts[k] == 0
    ||| exists|x: int, y: int|
        0 <= x < starts.len() && 0 <= y < starts.len() && starts[x] > 0 && starts[y] > 0
            && ranks[starts[x] - 1] != ranks[starts[y] - 1]
}

/// Whether the repeat starting at `sa[a..=b]` is left-maximal.
fn left_maximal(ranks: &Vec<u32>, sa: &Vec<usize>, a: usize, b: usize) -> (r: bool)
    requires
        a <= b < sa@.len(),
        forall|k: int| 0 <= k < sa@.len() ==> (#[trigger] sa@[k]) < ranks@.len(),
    ensures
        r == left_maximal_at(ranks@, sa@.subrange(a as int, b + 1)),
{
    let ghost st = sa@.subrange(a as int, b + 1);
    let n = sa.len();
    let mut prev: Option<u32> = None;
    let mut k: usize = a;
    while k <= b
        invariant
            a <= k <= b + 1,
            b < n,
            n == sa@.len(),
            st == sa@.subrange(a as int, b + 1),
            forall|q: int| 0 <= q < sa@.len() ==> (#[trigger] sa@[q]) < ranks@.len(),
            forall|q: int| 0 <= q < k - a ==> #[trigger] st[q] != 0,
            k == a <==> prev is None,
            prev matches Some(p) ==> p == ranks@[st[0] - 1],
            forall|q: int| 0 <= q < k - a ==> ranks@[#[trigger] st[q] - 1] == ranks@[st[0] - 1],
        decreases b + 1 - k,
    {
        let s = sa[k];
        assert(s == st[k - a]);
        if s == 0 {
            return true;
        }
        let before = ranks[s - 1];
        match prev {
            None => {
                prev = Some(before);
            },
            Some(p) => {
                if p != before {
                    assert(st[0] > 0);
                    return true;
                }
            },
        }
        k += 1;
    }
    assert forall|x: int, y: int|
        0 <= x < st.len() && 0 <= y < st.len() && st[x] > 0 && st[y] > 0 implies
            ranks@[st[x] - 1] == ranks@[st[y] - 1] by {
        assert(ranks@[st[x] - 1] == ranks@[st[0] - 1]);
        assert(ranks@[st[y] - 1] == ranks@[st[0] - 1]);
    }
    false
}

// ── occurrences ──────────────────────────────────────────────────────────────

/// What a stream position stands for, given by its file's offset.
pub proof fn lemma_position(g: Seq<FileTokens>, s: int)
    requires
        0 <= s < positions(g).len(),
        positions(g).len() <= usize::MAX,
    ensures
        positions(g)[s] matches Some(p) ==> p.0 < g.len() && p.1 < g[p.0 as int].tokens@.len()
            && s == stream_size(g.take(p.0 as int)) + p.1,
    decreases g.len(),
{
    let h = g.drop_last();
    crate::duplication::tokens::lemma_stream_size(h, DuplicationMode::Exact);
    crate::duplication::tokens::lemma_stream_size(g, DuplicationMode::Exact);
    if s < positions(h).len() {
        assert(positions(g).len() == positions(h).len() + g.last().tokens@.len() + 1);
        lemma_position(h, s);
        assert(positions(g)[s] == positions(h)[s]);
        if let Some(p) = positions(g)[s] {
            assert(g.take(p.0 as int) =~= h.take(p.0 as int));
            assert(g[p.0 as int] == h[p.0 as int]);
        }
    } else {
        assert(g.take(g.len() - 1) =~= h);
        let blk = Seq::new(g.last().tokens@.len(), |t: int| Some(((g.len() - 1) as usize, t as usize)));
        assert(positions(g) == positions(h) + blk.push(None));
        let t = s - positions(h).len();
        if t < blk.len() {
            assert(positions(g)[s] == blk[t]);
            assert(0 <= t < usize::MAX);
            assert(g.len() - 1 < usize::MAX);
            assert(positions(g)[s] == Some(((g.len() - 1) as usize, t as usize)));
            assert(((g.len() - 1) as usize) as int == g.len() - 1);
            assert((t as usize) as int == t);
            assert(s == stream_size(g.take(g.len() - 1)) + t);
        } else {
            assert(positions(g)[s] is None);
        }
    }
}

/// The occurrences a run of stream starts yields: each start that is a token
/// whose `len`-symbol window ends in the same file, as a site.
pub open spec fn occurrences(locs: Seq<Option<Site>>, starts: Seq<usize>, len: int) -> Seq<Site>
    decreases starts.len(),
{
    if starts.len() == 0 {
        Seq::empty()
    } else {
        let o = occurrences(locs, starts.drop_last(), len);
        let s = starts.last() as int;
        match locs[s] {
            Some(p) => if s + len - 1 < locs.len() && (locs[s + len - 1] matches Some(q) && q.0 == p.0) {
                o.push(p)
            } else {
                o
            },
            None => o,
        }
    }
}

/// Site `a` comes before `b` in the stream: by file, then by token.
pub open spec fn pos_lt(a: Site, b: Site) -> bool {
    a.0 < b.0 || (a.0 == b.0 && a.1 < b.1)
}

/// The first index from `i` whose site comes strictly after `x`.
pub open spec fn pos_above(s: Seq<Site>, x: Site, i: int) -> int
    decreases s.len() - i,
{
    if i < 0 || i >= s.len() {
        s.len() as int
    } else if pos_lt(x, s[i]) {
        i
    } else {
        pos_above(s, x, i + 1)
    }
}

/// The stable sort of sites by file and token.
pub open spec fn sort_positions(s: Seq<Site>) -> Seq<Site>
    decreases s.len(),
{
    if s.len() == 0 {
        s
    } else {
        let t = sort_positions(s.drop_last());
        t.insert(pos_above(t, s.last(), 0), s.last())
    }
}

/// Sorted sites without those overlapping the last kept one in the same file.
pub open spec fn without_overlaps(s: Seq<Site>, len: int) -> Seq<Site>
    decreases s.len(),
{
    if s.len() == 0 {
        s
    } else {
        let k = without_overlaps(s.drop_last(), len);
        if k.len() > 0 && s.last().0 == k.last().0 && s.last().1 < k.last().1 + len {
            k
        } else {
            k.push(s.last())
        }
    }
}

/// The sites of a class: its occurrences in stream order, self-overlaps dropped.
pub open spec fn class_sites(locs: Seq<Option<Site>>, starts: Seq<usize>, len: int) -> Seq<Site> {
    without_overlaps(sort_positions(occurrences(locs, starts, len)), len)
}


/// The stream maps of a group: what each position stands for.
pub open spec fn locs_of(files: Seq<FileTokens>, members: Seq<usize>, locs: Seq<Option<Site>>) -> bool {
    &&& forall|k: int| 0 <= k < members.len() ==> (#[trigger] members[k]) < files.len()
    &&& locs == positions(group_of(files, members))
    &&& locs.len() <= usize::MAX
}

/// The occurrences of the run `sa[a..=b]` of a class of length `len`.
fn occurrences_of(
    files: &Vec<FileTokens>,
    members: &Vec<usize>,
    locs: &Vec<Option<Site>>,
    sa: &Vec<usize>,
    a: usize,
    b: usize,
    len: usize,
) -> (r: Vec<Site>)
    requires
        a <= b < sa@.len(),
        forall|k: int| 0 <= k < sa@.len() ==> (#[trigger] sa@[k]) < locs@.len(),
        len >= 1,
        locs_of(files@, members@, locs@),
    ensures
        r@ == occurrences(locs@, sa@.subrange(a as int, b + 1), len as int),
        sites_ok(files@, members@, r@, len as int),
{
    let ghost g = group_of(files@, members@);
    let ghost st = sa@.subrange(a as int, b + 1);
    let n = sa.len();
    let mut out: Vec<Site> = Vec::new();
    let mut k: usize = a;
    while k <= b
        invariant
            a <= k <= b + 1,
            b < n,
            n == sa@.len(),
            len >= 1,
            st == sa@.subrange(a as int, b + 1),
            g == group_of(files@, members@),
            forall|q: int| 0 <= q < sa@.len() ==> (#[trigger] sa@[q]) < locs@.len(),
            locs_of(files@, members@, locs@),
            out@ == occurrences(locs@, st.take(k - a), len as int),
            sites_ok(files@, members@, out@, len as int),
        decreases b + 1 - k,
    {
        let s = sa[k];
        assert(st.take(k - a + 1).drop_last() =~= st.take(k - a));
        assert(st.take(k - a + 1).last() == s);
        match locs[s] {
            Some(p) => {
                if len - 1 < locs.len() - s {
                    match locs[s + len - 1] {
                        Some(q) => {
                            if q.0 == p.0 {
                                proof {
                                    lemma_position(g, s as int);
                                    lemma_position(g, s + len - 1);
                                    assert(site_ok(g, p, len as int));
                                }
                                out.push(p);
                            }
                        },
                        None => {},
                    }
                }
            },
            None => {},
        }
        k += 1;
    }
    assert(st.take(b + 1 - a) =~= st);
    out
}

proof fn lemma_pos_above(s: Seq<Site>, x: Site, i: int)
    requires
        0 <= i <= s.len(),
    ensures
        i <= pos_above(s, x, i) <= s.len(),
    decreases s.len() - i,
{
    if i < s.len() && !pos_lt(x, s[i]) {
        lemma_pos_above(s, x, i + 1);
    }
}

/// Sites sorted by file and token, ties kept in order.
fn sorted_positions(occ: &Vec<Site>) -> (r: Vec<Site>)
    ensures
        r@ == sort_positions(occ@),
        forall|j: int| 0 <= j < r@.len() ==> occ@.contains(#[trigger] r@[j]),
{
    let mut out: Vec<Site> = Vec::new();
    let mut k: usize = 0;
    while k < occ.len()
        invariant
            k <= occ@.len(),
            out@ == sort_positions(occ@.take(k as int)),
            forall|j: int| 0 <= j < out@.len() ==> occ@.contains(#[trigger] out@[j]),
        decreases occ@.len() - k,
    {
        let x = occ[k];
        let ghost t = out@;
        let mut p: usize = 0;
        while p < out.len() && !(x.0 < out[p].0 || (x.0 == out[p].0 && x.1 < out[p].1))
            invariant
                p <= out@.len(),
                t == out@,
                pos_above(t, x, 0) == pos_above(t, x, p as int),
            decreases out@.len() - p,
        {
            p += 1;
        }
        assert(pos_above(t, x, 0) == p);
        assert(occ@.take(k + 1).drop_last() =~= occ@.take(k as int));
        out.insert(p, x);
        proof {
            assert(occ@[k as int] == x);
            assert forall|j: int| 0 <= j < out@.len() implies occ@.contains(#[trigger] out@[j]) by {
                if j < p as int {
                    assert(out@[j] == t[j]);
                } else if j > p as int {
                    assert(out@[j] == t[j - 1]);
                }
            }
        }
        k += 1;
    }
    assert(occ@.take(occ@.len() as int) =~= occ@);
    out
}

/// The sites of the run `sa[a..=b]`: its occurrences in stream order, those
/// overlapping an earlier kept one in the same file dropped.
fn sites_of(
    files: &Vec<FileTokens>,
    members: &Vec<usize>,
    locs: &Vec<Option<Site>>,
    sa: &Vec<usize>,
    a: usize,
    b: usize,
    len: usize,
) -> (r: Vec<Site>)
    requires
        a <= b < sa@.len(),
        forall|k: int| 0 <= k < sa@.len() ==> (#[trigger] sa@[k]) < locs@.len(),
        len >= 1,
        locs_of(files@, members@, locs@),
    ensures
        r@ == class_sites(locs@, sa@.subrange(a as int, b + 1), len as int),
        sites_ok(files@, members@, r@, len as int),
{
    let ghost g = group_of(files@, members@);
    let occ = occurrences_of(files, members, locs, sa, a, b, len);
    let sorted = sorted_positions(&occ);
    assert forall|j: int| 0 <= j < sorted@.len() implies site_ok(g, #[trigger] sorted@[j], len as int) by {
        assert(occ@.contains(sorted@[j]));
    }
    let mut out: Vec<Site> = Vec::new();
    let mut k: usize = 0;
    while k < sorted.len()
        invariant
            k <= sorted@.len(),
            g == group_of(files@, members@),
            locs_of(files@, members@, locs@),
            forall|j: int| 0 <= j < sorted@.len() ==> site_ok(g, #[trigger] sorted@[j], len as int),
            out@ == without_overlaps(sorted@.take(k as int), len as int),
            sites_ok(files@, members@, out@, len as int),
        decreases sorted@.len() - k,
    {
        let x = sorted[k];
        assert(sorted@.take(k + 1).drop_last() =~= sorted@.take(k as int));
        assert(sorted@.take(k + 1).last() == x);
        let n = out.len();
        let overlaps = n > 0 && x.0 == out[n - 1].0 && (x.1 as u128) < (out[n - 1].1 as u128) + (len as u128);
        if !overlaps {
            assert(site_ok(g, sorted@[k as int], len as int));
            out.push(x);
        }
        k += 1;
    }
    assert(sorted@.take(sorted@.len() as int) =~= sorted@);
    out
}


// ── filters ──────────────────────────────────────────────────────────────────

/// How many tokens of `ts` end a statement.
pub open spec fn stmt_ends(ts: Seq<Tok>) -> nat
    decreases ts.len(),
{
    if ts.len() == 0 {
        0
    } else {
        stmt_ends(ts.drop_last()) + if ts.last().stmt_end { 1nat } else { 0nat }
    }
}

/// `b` renames the identifiers of `a` one to one: two identifier positions
/// of `a` hold the same identifier exactly when they do in `b`.
pub open spec fn renaming_ok(a: Seq<Tok>, b: Seq<Tok>) -> bool {
    forall|p: int, q: int|
        #![trigger a[p], a[q]]
        0 <= p < a.len() && 0 <= q < a.len() && a[p].kind == TokKind::Ident && a[q].kind == TokKind::Ident ==> (
        (a[p].hash == a[q].hash) <==> (b[p].hash == b[q].hash))
}

/// Whether the windows of two sites use a consistent one-to-one renaming of
/// identifiers (numbers and strings are wildcards; punctuation already
/// matched in the index).
fn equivalent(files: &Vec<FileTokens>, members: &Vec<usize>, x: Site, y: Site, len: usize) -> (r: bool)
    requires
        forall|k: int| 0 <= k < members@.len() ==> (#[trigger] members@[k]) < files@.len(),
        site_ok(group_of(files@, members@), x, len as int),
        site_ok(group_of(files@, members@), y, len as int),
    ensures
        r == renaming_ok(window(group_of(files@, members@), x, len as int), window(group_of(files@, members@), y, len as int)),
{
    broadcast use vstd::std_specs::hash::group_hash_axioms;

    let ghost g = group_of(files@, members@);
    let ta = &files[members[x.0]].tokens;
    let tb = &files[members[y.0]].tokens;
    assert(*ta == g[x.0 as int].tokens);
    assert(*tb == g[y.0 as int].tokens);
    let na = ta.len();
    let nb = tb.len();
    let ghost wa = window(g, x, len as int);
    let ghost wb = window(g, y, len as int);
    let mut fwd: HashMap<u64, u64> = HashMap::new();
    let mut rev: HashMap<u64, u64> = HashMap::new();
    let mut k: usize = 0;
    while k < len
        invariant
            k <= len,
            x.1 + len <= na,
            y.1 + len <= nb,
            na == ta@.len(),
            nb == tb@.len(),
            wa == ta@.subrange(x.1 as int, x.1 + len),
            wb == tb@.subrange(y.1 as int, y.1 + len),
            wa == window(group_of(files@, members@), x, len as int),
            wb == window(group_of(files@, members@), y, len as int),
            renaming_ok(wa.take(k as int), wb.take(k as int)),
            forall|p: int| 0 <= p < k && (#[trigger] wa[p]).kind == TokKind::Ident ==> {
                &&& fwd@.contains_key(wa[p].hash)
                &&& fwd@[wa[p].hash] == wb[p].hash
                &&& rev@.contains_key(wb[p].hash)
                &&& rev@[wb[p].hash] == wa[p].hash
            },
            forall|h: u64| #[trigger] fwd@.contains_key(h) ==> exists|p: int|
                0 <= p < k && (#[trigger] wa[p]).kind == TokKind::Ident && wa[p].hash == h,
            forall|h: u64| #[trigger] rev@.contains_key(h) ==> exists|p: int|
                0 <= p < k && (#[trigger] wa[p]).kind == TokKind::Ident && wb[p].hash == h,
        decreases len - k,
    {
        let xt = ta[x.1 + k];
        let yt = tb[y.1 + k];
        assert(xt == wa[k as int]);
        assert(yt == wb[k as int]);
        if xt.kind == TokKind::Ident {
            match fwd.get(&xt.hash) {
                Some(v) => {
                    if *v != yt.hash {
                        proof {
                            let p = choose|p: int| 0 <= p < k && (#[trigger] wa[p]).kind == TokKind::Ident && wa[p].hash == xt.hash;
                            assert(wa[p].hash == wa[k as int].hash && wb[p].hash != wb[k as int].hash);
                            assert(wa[k as int].kind == TokKind::Ident);
                            assert(!renaming_ok(wa, wb));
                        }
                        return false;
                    }
                },
                None => {
                    fwd.insert(xt.hash, yt.hash);
                },
            }
            match rev.get(&yt.hash) {
                Some(v) => {
                    if *v != xt.hash {
                        proof {
                            let p = choose|p: int| 0 <= p < k && (#[trigger] wa[p]).kind == TokKind::Ident && wb[p].hash == yt.hash;
                            assert(wb[p].hash == wb[k as int].hash && wa[p].hash != wa[k as int].hash);
                            assert(wa[k as int].kind == TokKind::Ident);
                            assert(!renaming_ok(wa, wb));
                        }
                        return false;
                    }
                },
                None => {
                    rev.insert(yt.hash, xt.hash);
                },
            }
        }
        proof {
            let a2 = wa.take(k + 1);
            let b2 = wb.take(k + 1);
            assert forall|p: int, q: int|
                0 <= p < a2.len() && 0 <= q < a2.len() && a2[p].kind == TokKind::Ident && a2[q].kind == TokKind::Ident implies
                ((a2[p].hash == a2[q].hash) <==> (b2[p].hash == b2[q].hash)) by {
                assert(a2[p] == wa[p] && a2[q] == wa[q] && b2[p] == wb[p] && b2[q] == wb[q]);
                if p < k && q < k {
                    assert(wa.take(k as int)[p] == wa[p] && wa.take(k as int)[q] == wa[q]);
                    assert(wb.take(k as int)[p] == wb[p] && wb.take(k as int)[q] == wb[q]);
                }
            }
            assert forall|h: u64| #[trigger] fwd@.contains_key(h) implies exists|p: int|
                0 <= p < k + 1 && (#[trigger] wa[p]).kind == TokKind::Ident && wa[p].hash == h by {
                if h == xt.hash && xt.kind == TokKind::Ident {
                    assert(wa[k as int].hash == h);
                }
            }
            assert forall|h: u64| #[trigger] rev@.contains_key(h) implies exists|p: int|
                0 <= p < k + 1 && (#[trigger] wa[p]).kind == TokKind::Ident && wb[p].hash == h by {
                if h == yt.hash && xt.kind == TokKind::Ident {
                    assert(wb[k as int].hash == h);
                }
            }
        }
        k += 1;
    }
    assert(wa.take(len as int) =~= wa);
    assert(wb.take(len as int) =~= wb);
    true
}


/// Every site's file lies in the directory of the first site's file.
pub open spec fn same_dir(g: Seq<FileTokens>, occ: Seq<Site>) -> bool {
    forall|k: int| 0 <= k < occ.len() ==> parent(g[(#[trigger] occ[k]).0 as int].path@) == parent(g[occ[0].0 as int].path@)
}

/// The sites that are `first` or a consistent renaming of it, in order.
pub open spec fn renamed_sites(g: Seq<FileTokens>, first: Site, occ: Seq<Site>, len: int) -> Seq<Site>
    decreases occ.len(),
{
    if occ.len() == 0 {
        Seq::empty()
    } else {
        let r = renamed_sites(g, first, occ.drop_last(), len);
        let o = occ.last();
        if o == first || renaming_ok(window(g, first, len), window(g, o, len)) {
            r.push(o)
        } else {
            r
        }
    }
}

/// The finding of the class whose occurrences start at `starts` with length
/// `len`, if it passes the filters: at least two non-overlapping occurrences,
/// a block of at least two statements, consistent renaming in `semantic`
/// mode, and, under `skip_local`, more than one directory.
pub open spec fn class_of(
    g: Seq<FileTokens>,
    locs: Seq<Option<Site>>,
    starts: Seq<usize>,
    len: int,
    cfg: DuplicationConfig,
) -> Option<FindingView> {
    let occ = class_sites(locs, starts, len);
    if occ.len() < 2 {
        None
    } else if stmt_ends(window(g, occ[0], len)) < 2 {
        None
    } else {
        let kept = if cfg.mode == DuplicationMode::Semantic { renamed_sites(g, occ[0], occ, len) } else { occ };
        if kept.len() < 2 {
            None
        } else if cfg.skip_local && same_dir(g, kept) {
            None
        } else {
            Some(class_finding(g, kept, len, cfg.mode))
        }
    }
}

fn count_stmt_ends(files: &Vec<FileTokens>, members: &Vec<usize>, o: Site, len: usize) -> (r: usize)
    requires
        forall|k: int| 0 <= k < members@.len() ==> (#[trigger] members@[k]) < files@.len(),
        site_ok(group_of(files@, members@), o, len as int),
    ensures
        r == stmt_ends(window(group_of(files@, members@), o, len as int)),
{
    let ghost g = group_of(files@, members@);
    let ts = &files[members[o.0]].tokens;
    assert(*ts == g[o.0 as int].tokens);
    let n = ts.len();
    let ghost w = window(g, o, len as int);
    let mut c: usize = 0;
    let mut k: usize = 0;
    while k < len
        invariant
            k <= len,
            o.1 + len <= n,
            n == ts@.len(),
            w == ts@.subrange(o.1 as int, o.1 + len),
            c == stmt_ends(w.take(k as int)),
            c <= k,
        decreases len - k,
    {
        assert(w.take(k + 1).drop_last() =~= w.take(k as int));
        assert(w.take(k + 1).last() == ts@[o.1 + k]);
        if ts[o.1 + k].stmt_end {
            c += 1;
        }
        k += 1;
    }
    assert(w.take(len as int) =~= w);
    c
}

fn all_same_dir(files: &Vec<FileTokens>, members: &Vec<usize>, occ: &Vec<Site>, len: usize) -> (r: bool)
    requires
        occ@.len() >= 1,
        sites_ok(files@, members@, occ@, len as int),
    ensures
        r == same_dir(group_of(files@, members@), occ@),
{
    let ghost g = group_of(files@, members@);
    assert(site_ok(g, occ@[0], len as int));
    assert(files@[members@[occ@[0].0 as int] as int] == g[occ@[0].0 as int]);
    let first = parent_of(files[members[occ[0].0]].path.as_str());
    let mut k: usize = 0;
    while k < occ.len()
        invariant
            k <= occ@.len(),
            g == group_of(files@, members@),
            sites_ok(files@, members@, occ@, len as int),
            first@ == parent(g[occ@[0].0 as int].path@),
            forall|j: int| 0 <= j < k ==> parent(g[(#[trigger] occ@[j]).0 as int].path@) == first@,
        decreases occ@.len() - k,
    {
        assert(site_ok(g, occ@[k as int], len as int));
        assert(files@[members@[occ@[k as int].0 as int] as int] == g[occ@[k as int].0 as int]);
        let d = parent_of(files[members[occ[k].0]].path.as_str());
        if !str_is(d.as_str(), first.as_str()) {
            return false;
        }
        k += 1;
    }
    true
}

/// The sites among `occ` that are `first` or a consistent renaming of it.
fn renamed(files: &Vec<FileTokens>, members: &Vec<usize>, first: Site, occ: &Vec<Site>, len: usize) -> (r: Vec<Site>)
    requires
        site_ok(group_of(files@, members@), first, len as int),
        sites_ok(files@, members@, occ@, len as int),
    ensures
        r@ == renamed_sites(group_of(files@, members@), first, occ@, len as int),
        sites_ok(files@, members@, r@, len as int),
{
    let ghost g = group_of(files@, members@);
    let mut out: Vec<Site> = Vec::new();
    let mut k: usize = 0;
    while k < occ.len()
        invariant
            k <= occ@.len(),
            g == group_of(files@, members@),
            site_ok(g, first, len as int),
            sites_ok(files@, members@, occ@, len as int),
            sites_ok(files@, members@, out@, len as int),
            out@ == renamed_sites(g, first, occ@.take(k as int), len as int),
        decreases occ@.len() - k,
    {
        let o = occ[k];
        assert(site_ok(g, occ@[k as int], len as int));
        assert(occ@.take(k + 1).drop_last() =~= occ@.take(k as int));
        assert(occ@.take(k + 1).last() == o);
        if (o.0 == first.0 && o.1 == first.1) || equivalent(files, members, first, o, len) {
            out.push(o);
        }
        k += 1;
    }
    assert(occ@.take(occ@.len() as int) =~= occ@);
    out
}

/// The finding of the class at `sa[a..=b]` with length `len`, if it passes
/// the filters.
fn build_class(
    files: &Vec<FileTokens>,
    members: &Vec<usize>,
    locs: &Vec<Option<Site>>,
    sa: &Vec<usize>,
    a: usize,
    b: usize,
    len: usize,
    cfg: &DuplicationConfig,
) -> (r: Option<Finding>)
    requires
        a <= b < sa@.len(),
        forall|k: int| 0 <= k < sa@.len() ==> (#[trigger] sa@[k]) < locs@.len(),
        len >= 1,
        locs_of(files@, members@, locs@),
    ensures
        r matches Some(f) ==> class_of(group_of(files@, members@), locs@, sa@.subrange(a as int, b + 1), len as int, *cfg) == Some(f@),
        r is None ==> class_of(group_of(files@, members@), locs@, sa@.subrange(a as int, b + 1), len as int, *cfg) is None,
{
    let ghost g = group_of(files@, members@);
    let occ = sites_of(files, members, locs, sa, a, b, len);
    if occ.len() < 2 {
        return None;
    }
    let first = occ[0];
    assert(site_ok(g, occ@[0], len as int));
    if count_stmt_ends(files, members, first, len) < 2 {
        return None;
    }
    let kept = match cfg.mode {
        DuplicationMode::Semantic => renamed(files, members, first, &occ, len),
        _ => occ,
    };
    if kept.len() < 2 {
        return None;
    }
    if cfg.skip_local && all_same_dir(files, members, &kept, len) {
        return None;
    }
    Some(make_finding(files, members, &kept, len, cfg.mode))
}


// ── runs of the suffix array ─────────────────────────────────────────────────

/// The last index of the run of LCP values of at least `min` that goes on
/// from `j`.
pub open spec fn run_end(lcp: Seq<usize>, min: int, j: int) -> int
    decreases lcp.len() - j,
{
    if 0 <= j && j + 1 < lcp.len() && lcp[j + 1] >= min {
        run_end(lcp, min, j + 1)
    } else {
        j
    }
}

/// The least of `lcp[i..=j]`: the length the run's suffixes all share.
pub open spec fn run_min(lcp: Seq<usize>, i: int, j: int) -> int
    decreases j - i,
{
    if j <= i {
        lcp[i] as int
    } else {
        let m = run_min(lcp, i, j - 1);
        if (lcp[j] as int) < m { lcp[j] as int } else { m }
    }
}

/// What the run starting at suffix-array index `i` (reaching `j`) reports:
/// its class, if the repeat is left-maximal and the class passes the filters.
pub open spec fn run_finding(
    g: Seq<FileTokens>,
    ranks: Seq<u32>,
    sa: Seq<usize>,
    lcp: Seq<usize>,
    cfg: DuplicationConfig,
    i: int,
    j: int,
) -> Seq<FindingView> {
    let starts = sa.subrange(i - 1, j + 1);
    if left_maximal_at(ranks, starts) {
        opt(class_of(g, positions(g), starts, run_min(lcp, i, j), cfg))
    } else {
        Seq::empty()
    }
}

/// The findings of the classes from suffix-array index `i` on: each maximal
/// run of neighbours sharing at least `min` symbols is a class candidate;
/// the left-maximal ones that pass the filters are reported.
pub open spec fn classes_from(
    g: Seq<FileTokens>,
    ranks: Seq<u32>,
    sa: Seq<usize>,
    lcp: Seq<usize>,
    min: int,
    cfg: DuplicationConfig,
    i: int,
) -> Seq<FindingView>
    decreases sa.len() - i,
{
    if i < 1 || i >= sa.len() {
        Seq::empty()
    } else if (lcp[i] as int) < min {
        classes_from(g, ranks, sa, lcp, min, cfg, i + 1)
    } else {
        let j = run_end(lcp, min, i);
        if j < i || j >= sa.len() {
            Seq::empty()
        } else {
            run_finding(g, ranks, sa, lcp, cfg, i, j) + classes_from(g, ranks, sa, lcp, min, cfg, j + 1)
        }
    }
}

/// `ranks`, `sa` and `lcp` are the rank compression, suffix array and LCP
/// array of a group's stream.
pub open spec fn indexed(g: Seq<FileTokens>, mode: DuplicationMode, ranks: Seq<u32>, sa: Seq<usize>, lcp: Seq<usize>) -> bool {
    &&& dense_ranks(stream(g, mode), ranks)
    &&& is_suffix_array(ranks, sa)
    &&& is_lcp(ranks, sa, lcp)
}

/// `v` is what clone detection reports for a group: nothing when its stream
/// is no longer than `min`, else the classes found over its index.
pub open spec fn detected(g: Seq<FileTokens>, cfg: DuplicationConfig, min: int, v: Seq<FindingView>) -> bool {
    if stream(g, cfg.mode).len() <= min {
        v == Seq::<FindingView>::empty()
    } else {
        exists|ranks: Seq<u32>, sa: Seq<usize>, lcp: Seq<usize>|
            indexed(g, cfg.mode, ranks, sa, lcp) && v == classes_from(g, ranks, sa, lcp, min, cfg, 1)
    }
}

/// A group's stream has one index: its rank compression, suffix array and
/// LCP array are each determined by the stream.
pub proof fn lemma_index_unique(
    g: Seq<FileTokens>,
    mode: DuplicationMode,
    r1: Seq<u32>,
    sa1: Seq<usize>,
    l1: Seq<usize>,
    r2: Seq<u32>,
    sa2: Seq<usize>,
    l2: Seq<usize>,
)
    requires
        indexed(g, mode, r1, sa1, l1),
        indexed(g, mode, r2, sa2, l2),
    ensures
        r1 == r2,
        sa1 == sa2,
        l1 == l2,
{
    lemma_dense_ranks_unique(stream(g, mode), r1, r2);
    lemma_suffix_array_unique(r1, sa1, sa2);
    lemma_lcp_unique(r1, sa1, l1, l2);
}

/// Clone detection is deterministic: what it reports for a group is
/// determined by the group, the configuration and the least clone length.
pub proof fn law_detection_is_deterministic(g: Seq<FileTokens>, cfg: DuplicationConfig, min: int, v1: Seq<FindingView>, v2: Seq<FindingView>)
    requires
        detected(g, cfg, min, v1),
        detected(g, cfg, min, v2),
    ensures
        v1 == v2,
{
    if stream(g, cfg.mode).len() > min {
        let (r1, sa1, l1) = choose|r: Seq<u32>, sa: Seq<usize>, l: Seq<usize>|
            indexed(g, cfg.mode, r, sa, l) && v1 == classes_from(g, r, sa, l, min, cfg, 1);
        let (r2, sa2, l2) = choose|r: Seq<u32>, sa: Seq<usize>, l: Seq<usize>|
            indexed(g, cfg.mode, r, sa, l) && v2 == classes_from(g, r, sa, l, min, cfg, 1);
        lemma_index_unique(g, cfg.mode, r1, sa1, l1, r2, sa2, l2);
    }
}

proof fn lemma_run_end(lcp: Seq<usize>, min: int, j: int)
    requires
        0 <= j < lcp.len(),
    ensures
        j <= run_end(lcp, min, j) < lcp.len(),
    decreases lcp.len() - j,
{
    if j + 1 < lcp.len() && lcp[j + 1] >= min {
        lemma_run_end(lcp, min, j + 1);
    }
}

/// The class of the run that starts at suffix-array index `i`, and where
/// the run ends.
fn class_at(
    files: &Vec<FileTokens>,
    members: &Vec<usize>,
    locs: &Vec<Option<Site>>,
    ranks: &Vec<u32>,
    sa: &Vec<usize>,
    lcp: &Vec<usize>,
    i: usize,
    min: usize,
    cfg: &DuplicationConfig,
) -> (r: (Option<Finding>, usize))
    requires
        1 <= i < sa@.len(),
        min >= 1,
        lcp@[i as int] >= min,
        lcp@.len() == sa@.len(),
        ranks@.len() == sa@.len(),
        forall|k: int| 0 <= k < sa@.len() ==> (#[trigger] sa@[k]) < locs@.len(),
        forall|k: int| 0 <= k < sa@.len() ==> (#[trigger] sa@[k]) < ranks@.len(),
        locs_of(files@, members@, locs@),
    ensures
        r.1 == run_end(lcp@, min as int, i as int),
        i <= r.1 < sa@.len(),
        opt_finding(r.0) == run_finding(group_of(files@, members@), ranks@, sa@, lcp@, *cfg, i as int, r.1 as int),
{
    let n = sa.len();
    let mut j: usize = i;
    let mut run_len: usize = lcp[i];
    while j + 1 < n && lcp[j + 1] >= min
        invariant
            i <= j < n,
            n == lcp@.len(),
            lcp@[i as int] >= min,
            run_len == run_min(lcp@, i as int, j as int),
            run_len >= min,
            run_end(lcp@, min as int, i as int) == run_end(lcp@, min as int, j as int),
        decreases n - j,
    {
        j += 1;
        if lcp[j] < run_len {
            run_len = lcp[j];
        }
    }
    assert(run_end(lcp@, min as int, j as int) == j);
    if left_maximal(ranks, sa, i - 1, j) {
        (build_class(files, members, locs, sa, i - 1, j, run_len, cfg), j)
    } else {
        (None, j)
    }
}

/// A finding, if any, as a list of at most one view.
pub open spec fn opt_finding(f: Option<Finding>) -> Seq<FindingView> {
    match f {
        Some(x) => seq![x@],
        None => Seq::empty(),
    }
}

/// The clone classes of one language family's files.
pub(crate) fn detect(files: &Vec<FileTokens>, members: &Vec<usize>, cfg: &DuplicationConfig, min: usize) -> (r: Vec<Finding>)
    requires
        forall|k: int| 0 <= k < members@.len() ==> (#[trigger] members@[k]) < files@.len(),
        members@.len() < BOUNDARY_BASE,
        stream_size(group_of(files@, members@)) <= u32::MAX,
        min >= 1,
    ensures
        detected(group_of(files@, members@), *cfg, min as int, views(r@)),
{
    let ghost g = group_of(files@, members@);
    proof {
        lemma_stream_size(g, cfg.mode);
    }
    let (syms, locs) = index_group(files, members, cfg.mode);
    if syms.len() <= min {
        let none: Vec<Finding> = Vec::new();
        assert(views(none@) =~= Seq::<FindingView>::empty());
        return none;
    }
    let ranks = rank_compress(syms.as_slice());
    let sa = suffix_array(ranks.as_slice());
    let lcp = kasai_lcp(ranks.as_slice(), sa.as_slice());
    let n = sa.len();
    let mut findings: Vec<Finding> = Vec::new();
    let mut i: usize = 1;
    while i < n
        invariant
            1 <= i,
            n == sa@.len(),
            lcp@.len() == n,
            ranks@.len() == n,
            locs@.len() == n,
            min >= 1,
            g == group_of(files@, members@),
            locs_of(files@, members@, locs@),
            indexed(g, cfg.mode, ranks@, sa@, lcp@),
            views(findings@) + classes_from(g, ranks@, sa@, lcp@, min as int, *cfg, i as int)
                == classes_from(g, ranks@, sa@, lcp@, min as int, *cfg, 1),
        decreases n - i,
    {
        if lcp[i] < min {
            i += 1;
        } else {
            let (found, j) = class_at(files, members, &locs, &ranks, &sa, &lcp, i, min, cfg);
            let ghost before = views(findings@);
            match found {
                Some(f) => {
                    proof {
                        lemma_views_push(findings@, f);
                    }
                    findings.push(f);
                },
                None => {},
            }
            assert(views(findings@) =~= before + run_finding(g, ranks@, sa@, lcp@, *cfg, i as int, j as int));
            i = j + 1;
        }
    }
    proof {
        assert(views(findings@) =~= classes_from(g, ranks@, sa@, lcp@, min as int, *cfg, 1));
        assert(indexed(g, cfg.mode, ranks@, sa@, lcp@));
    }
    findings
}

} // verus!
