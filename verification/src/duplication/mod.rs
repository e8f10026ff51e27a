//! `duplicate-code` — cross-file token-clone detection over a suffix array.
//!
//! Pipeline: normalize each file's tokens to a class stream (in the requested
//! mode's alphabet) → concatenate per language family with unique file-boundary
//! sentinels → rank-compress → suffix array → LCP → maximal repeats of at least
//! `min_tokens` → filters (self-overlap, single-expression blocks, `skip_local`,
//! consistent renaming for `semantic`) → one finding per clone class.

pub mod suffix;
pub mod tokens;
pub mod report;

pub use self::suffix::{kasai_lcp, rank_compress, suffix_array};
pub mod classes;

use vstd::prelude::*;
use crate::analysis::DuplicationConfig;
use crate::duplication::classes::{detect, detected, law_detection_is_deterministic};
use crate::duplication::tokens::{group_of, stream_size, FileTokens};
use crate::finding::{lemma_views_push, views, Finding, FindingView};
use crate::order::{lemma_seq_lt_irrefl, lemma_seq_lt_trans, seq_lt, str_less};
use crate::text::str_is;

verus! {

/// The indices of the files of one language family (Python, or the
/// JavaScript family) among the first `n`, in order.
pub open spec fn family(files: Seq<FileTokens>, python: bool, n: int) -> Seq<usize>
    decreases n,
{
    if n <= 0 {
        Seq::empty()
    } else {
        let f = family(files, python, n - 1);
        if (files[n - 1].language is Python) == python {
            f.push((n - 1) as usize)
        } else {
            f
        }
    }
}

/// The files of one language family.
pub open spec fn family_files(files: Seq<FileTokens>, python: bool) -> Seq<FileTokens> {
    group_of(files, family(files, python, files.len() as int))
}

/// Finding `a` is listed before `b`: by file path, then by first line.
pub open spec fn finding_lt(a: FindingView, b: FindingView) -> bool {
    seq_lt(a.file, b.file, true) || (a.file == b.file && a.span.start_line < b.span.start_line)
}

/// The first index from `i` whose finding sorts strictly after `x`.
pub open spec fn finding_above(s: Seq<FindingView>, x: FindingView, i: int) -> int
    decreases s.len() - i,
{
    if i < 0 || i >= s.len() {
        s.len() as int
    } else if finding_lt(x, s[i]) {
        i
    } else {
        finding_above(s, x, i + 1)
    }
}

/// The stable sort of findings by file and first line.
pub open spec fn sort_findings(s: Seq<FindingView>) -> Seq<FindingView>
    decreases s.len(),
{
    if s.len() == 0 {
        s
    } else {
        let t = sort_findings(s.drop_last());
        t.insert(finding_above(t, s.last(), 0), s.last())
    }
}

/// The least clone length reported: `min_tokens`, at least one.
pub open spec fn min_len(cfg: DuplicationConfig) -> int {
    if cfg.min_tokens < 1 { 1 } else { cfg.min_tokens as int }
}

proof fn lemma_family(files: Seq<FileTokens>, python: bool, n: int)
    requires
        0 <= n <= files.len(),
        files.len() <= usize::MAX,
    ensures
        stream_size(group_of(files, family(files, python, n))) <= stream_size(files.take(n)),
        family(files, python, n).len() <= n,
        forall|k: int| 0 <= k < family(files, python, n).len() ==> (#[trigger] family(files, python, n)[k]) < n,
    decreases n,
{
    if n > 0 {
        lemma_family(files, python, n - 1);
        let f = family(files, python, n - 1);
        assert(files.take(n).drop_last() =~= files.take(n - 1));
        if (files[n - 1].language is Python) == python {
            let h = group_of(files, f.push((n - 1) as usize));
            assert(h.drop_last() =~= group_of(files, f));
            assert(h.last() == files[n - 1]);
            assert(files.take(n).last() == files[n - 1]);
        }
    }
}

proof fn lemma_family_members(files: Seq<FileTokens>, python: bool, n: int)
    requires
        0 <= n <= files.len(),
        files.len() <= usize::MAX,
    ensures
        forall|k: int| 0 <= k < family(files, python, n).len() ==> {
            &&& 0 <= (#[trigger] family(files, python, n)[k]) < n
            &&& (files[family(files, python, n)[k] as int].language is Python) == python
        },
        forall|i: int| 0 <= i < n ==> (#[trigger] family(files, python, n).contains(i as usize)
            <==> (files[i].language is Python) == python),
    decreases n,
{
    if n > 0 {
        lemma_family_members(files, python, n - 1);
        let f = family(files, python, n - 1);
        let g = family(files, python, n);
        assert forall|i: int| 0 <= i < n implies (#[trigger] g.contains(i as usize)
            <==> (files[i].language is Python) == python) by {
            if (files[n - 1].language is Python) == python {
                assert(g == f.push((n - 1) as usize));
                if i == n - 1 {
                    assert(g[f.len() as int] == (n - 1) as usize);
                } else {
                    if g.contains(i as usize) {
                        let k = choose|k: int| 0 <= k < g.len() && g[k] == i as usize;
                        if k == f.len() {
                            assert(g[k] == (n - 1) as usize);
                        } else {
                            assert(f[k] == i as usize);
                        }
                    }
                    if f.contains(i as usize) {
                        let k = choose|k: int| 0 <= k < f.len() && f[k] == i as usize;
                        assert(g[k] == i as usize);
                    }
                }
            } else {
                if i == n - 1 && g.contains(i as usize) {
                    let k = choose|k: int| 0 <= k < g.len() && g[k] == i as usize;
                    assert(g[k] < n - 1);
                }
            }
        }
    }
}

/// The two families part the files by language: the Python family holds
/// exactly the Python files and the JavaScript family exactly the others,
/// each file once, in file order, so each file's clones are looked for among
/// the files of its own language family.
pub proof fn law_families_split_by_language(files: Seq<FileTokens>, python: bool)
    requires
        files.len() <= usize::MAX,
    ensures
        forall|i: int| 0 <= i < files.len() ==> (#[trigger] family(files, python, files.len() as int).contains(i as usize)
            <==> (files[i].language is Python) == python),
        forall|k: int| 0 <= k < family(files, python, files.len() as int).len() ==> {
            &&& (#[trigger] family(files, python, files.len() as int)[k]) < files.len()
            &&& (files[family(files, python, files.len() as int)[k] as int].language is Python) == python
        },
        forall|k: int, l: int| 0 <= k < l < family(files, python, files.len() as int).len() ==>
            #[trigger] family(files, python, files.len() as int)[k] < #[trigger] family(files, python, files.len() as int)[l],
{
    lemma_family_members(files, python, files.len() as int);
    lemma_family_sorted(files, python, files.len() as int);
}

proof fn lemma_family_sorted(files: Seq<FileTokens>, python: bool, n: int)
    requires
        0 <= n <= files.len(),
        files.len() <= usize::MAX,
    ensures
        forall|k: int, l: int| 0 <= k < l < family(files, python, n).len() ==>
            #[trigger] family(files, python, n)[k] < #[trigger] family(files, python, n)[l],
    decreases n,
{
    if n > 0 {
        lemma_family_sorted(files, python, n - 1);
        lemma_family_members(files, python, n - 1);
    }
}

fn family_members(files: &Vec<FileTokens>, python: bool) -> (r: Vec<usize>)
    ensures
        r@ == family(files@, python, files@.len() as int),
{
    let mut out: Vec<usize> = Vec::new();
    let mut i: usize = 0;
    while i < files.len()
        invariant
            i <= files@.len(),
            out@ == family(files@, python, i as int),
        decreases files@.len() - i,
    {
        if files[i].language.is_python() == python {
            out.push(i);
        }
        i += 1;
    }
    out
}

fn finding_less(a: &Finding, b: &Finding) -> (r: bool)
    ensures
        r == finding_lt(a@, b@),
{
    if str_less(a.file.as_str(), b.file.as_str(), true) {
        true
    } else if str_is(a.file.as_str(), b.file.as_str()) {
        a.span.start_line < b.span.start_line
    } else {
        false
    }
}

fn sorted_findings(v: Vec<Finding>) -> (r: Vec<Finding>)
    ensures
        views(r@) == sort_findings(views(v@)),
{
    let mut out: Vec<Finding> = Vec::new();
    let mut rest = v;
    let ghost all = views(rest@);
    let mut taken: usize = 0;
    let mut k: usize = 0;
    let n = rest.len();
    while k < n
        invariant
            k <= n,
            n == rest@.len(),
            all == views(rest@),
            views(out@) == sort_findings(all.take(k as int)),
        decreases n - k,
    {
        let x = rest[k].duplicate();
        let ghost t = views(out@);
        let mut p: usize = 0;
        while p < out.len() && !finding_less(&x, &out[p])
            invariant
                p <= out@.len(),
                t == views(out@),
                finding_above(t, x@, 0) == finding_above(t, x@, p as int),
            decreases out@.len() - p,
        {
            p += 1;
        }
        assert(finding_above(t, x@, 0) == p);
        assert(all.take(k + 1).drop_last() =~= all.take(k as int));
        assert(all.take(k + 1).last() == x@);
        let ghost xv = x@;
        out.insert(p, x);
        assert(views(out@) =~= t.insert(p as int, xv));
        k += 1;
    }
    assert(all.take(n as int) =~= all);
    out
}

/// `v` is what duplication reports over `files`: nothing when it is
/// disabled, else the clones found among the Python files and among the
/// JavaScript-family files, each family indexed on its own, sorted by file
/// and first line.
pub open spec fn duplication_out(files: Seq<FileTokens>, cfg: DuplicationConfig, v: Seq<FindingView>) -> bool {
    if !cfg.enabled {
        v.len() == 0
    } else {
        exists|py: Seq<FindingView>, js: Seq<FindingView>|
            detected(family_files(files, true), cfg, min_len(cfg), py)
            && detected(family_files(files, false), cfg, min_len(cfg), js)
            && v == sort_findings(py + js)
    }
}

/// Duplication is deterministic: the same files and configuration give the
/// same findings in the same order.
pub proof fn law_duplication_is_deterministic(files: Seq<FileTokens>, cfg: DuplicationConfig, v1: Seq<FindingView>, v2: Seq<FindingView>)
    requires
        duplication_out(files, cfg, v1),
        duplication_out(files, cfg, v2),
    ensures
        v1 == v2,
{
    if cfg.enabled {
        let (py1, js1) = choose|py: Seq<FindingView>, js: Seq<FindingView>|
            detected(family_files(files, true), cfg, min_len(cfg), py)
            && detected(family_files(files, false), cfg, min_len(cfg), js)
            && v1 == sort_findings(py + js);
        let (py2, js2) = choose|py: Seq<FindingView>, js: Seq<FindingView>|
            detected(family_files(files, true), cfg, min_len(cfg), py)
            && detected(family_files(files, false), cfg, min_len(cfg), js)
            && v2 == sort_findings(py + js);
        law_detection_is_deterministic(family_files(files, true), cfg, min_len(cfg), py1, py2);
        law_detection_is_deterministic(family_files(files, false), cfg, min_len(cfg), js1, js2);
    } else {
        assert(v1 =~= v2);
    }
}

/// Duplicate-code findings over the files' token streams, Python and the
/// JavaScript family indexed separately, ordered by file and first line;
/// nothing unless duplication is enabled.
pub fn run(files: &Vec<FileTokens>, cfg: &DuplicationConfig) -> (r: Vec<Finding>)
    requires
        stream_size(files@) <= u32::MAX,
    ensures
        duplication_out(files@, *cfg, views(r@)),
{
    if !cfg.enabled {
        let none: Vec<Finding> = Vec::new();
        assert(views(none@).len() == 0);
        return none;
    }
    let min: usize = if cfg.min_tokens < 1 { 1 } else { cfg.min_tokens as usize };
    let py = family_members(files, true);
    let js = family_members(files, false);
    let nfiles = files.len();
    proof {
        assert(files@.take(files@.len() as int) =~= files@);
        lemma_family(files@, true, files@.len() as int);
        lemma_family(files@, false, files@.len() as int);
        crate::duplication::tokens::lemma_stream_size(files@, cfg.mode);
    }
    let mut found = detect(files, &py, cfg, min);
    let ghost a = views(found@);
    let more = detect(files, &js, cfg, min);
    let ghost b = views(more@);
    let mut k: usize = 0;
    while k < more.len()
        invariant
            k <= more@.len(),
            b == views(more@),
            views(found@) == a + b.take(k as int),
        decreases more@.len() - k,
    {
        let f = more[k].duplicate();
        proof {
            lemma_views_push(found@, f);
            assert(b.take(k + 1) =~= b.take(k as int).push(f@));
        }
        found.push(f);
        k += 1;
    }
    assert(b.take(more@.len() as int) =~= b);
    let r = sorted_findings(found);
    assert(views(r@) == sort_findings(a + b));
    r
}


/// No finding of `s` sorts before an earlier one.
pub open spec fn findings_ordered(s: Seq<FindingView>) -> bool {
    forall|i: int, j: int| 0 <= i < j < s.len() ==> !finding_lt(#[trigger] s[j], #[trigger] s[i])
}

proof fn lemma_finding_lt_trans(a: FindingView, b: FindingView, c: FindingView)
    requires
        finding_lt(a, b),
        finding_lt(b, c),
    ensures
        finding_lt(a, c),
{
    if seq_lt(a.file, b.file, true) && seq_lt(b.file, c.file, true) {
        lemma_seq_lt_trans(a.file, b.file, c.file, true);
    }
}

proof fn lemma_finding_above(s: Seq<FindingView>, x: FindingView, i: int)
    requires
        0 <= i <= s.len(),
    ensures
        i <= finding_above(s, x, i) <= s.len(),
        forall|k: int| i <= k < finding_above(s, x, i) ==> !finding_lt(x, #[trigger] s[k]),
        finding_above(s, x, i) < s.len() ==> finding_lt(x, s[finding_above(s, x, i)]),
    decreases s.len() - i,
{
    if i < s.len() && !finding_lt(x, s[i]) {
        lemma_finding_above(s, x, i + 1);
    }
}

/// Duplicate-code findings come ordered by file, then by first line: their
/// sort reorders them (as a multiset they are unchanged) so that none sorts
/// before an earlier one.
pub proof fn law_findings_come_in_order(s: Seq<FindingView>)
    ensures
        findings_ordered(sort_findings(s)),
        sort_findings(s).to_multiset() == s.to_multiset(),
    decreases s.len(),
{
    broadcast use vstd::seq_lib::group_to_multiset_ensures;

    if s.len() > 0 {
        let t = sort_findings(s.drop_last());
        law_findings_come_in_order(s.drop_last());
        let x = s.last();
        lemma_finding_above(t, x, 0);
        let p = finding_above(t, x, 0);
        let r = t.insert(p, x);
        assert(r == sort_findings(s));
        assert forall|i: int, j: int| 0 <= i < j < r.len() implies !finding_lt(#[trigger] r[j], #[trigger] r[i]) by {
            if j < p {
                assert(r[i] == t[i] && r[j] == t[j]);
            } else if i > p {
                assert(r[i] == t[i - 1] && r[j] == t[j - 1]);
            } else if i < p && j > p {
                assert(r[i] == t[i] && r[j] == t[j - 1]);
            } else if j == p {
                assert(r[i] == t[i] && r[j] == x);
            } else {
                // i == p: nothing after x sorts before it
                assert(r[i] == x && r[j] == t[j - 1]);
                if finding_lt(t[j - 1], x) {
                    lemma_finding_lt_trans(t[j - 1], x, t[p]);
                    if j - 1 == p {
                        lemma_seq_lt_irrefl(t[p].file, true);
                    }
                }
            }
        }
        assert(s =~= s.drop_last().push(x));
    }
}

} // verus!

verus! {

/// With duplication on, what is reported is exactly the clones found among
/// the Python files plus those found among the other files, each family
/// detected on its own, listed in file and line order.
pub proof fn law_both_families_are_reported(files: Seq<FileTokens>, cfg: DuplicationConfig, v: Seq<FindingView>)
    requires
        cfg.enabled,
        duplication_out(files, cfg, v),
    ensures
        exists|py: Seq<FindingView>, js: Seq<FindingView>| {
            &&& detected(group_of(files, family(files, true, files.len() as int)), cfg, min_len(cfg), py)
            &&& detected(group_of(files, family(files, false, files.len() as int)), cfg, min_len(cfg), js)
            &&& v.to_multiset() == py.to_multiset().add(js.to_multiset())
        },
        findings_ordered(v),
{
    let (py, js) = choose|py: Seq<FindingView>, js: Seq<FindingView>|
        detected(family_files(files, true), cfg, min_len(cfg), py)
        && detected(family_files(files, false), cfg, min_len(cfg), js)
        && v == sort_findings(py + js);
    law_findings_come_in_order(py + js);
    vstd::seq_lib::lemma_multiset_commutative(py, js);
}

} // verus!
