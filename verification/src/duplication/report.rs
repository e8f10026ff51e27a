//! The finding a clone class becomes: its occurrences in path-and-line order,
//! the first of them as the reported site, a fingerprint of its normalized
//! tokens, and where else it occurs.

use vstd::prelude::*;
use vstd::bytes::{spec_u64_to_le_bytes, u64_to_le_bytes};
use crate::analysis::{mode_name, DuplicationMode};
use crate::duplication::tokens::{class_sym, class_symbol, FileTokens, group_of};
use crate::facts::Tok;
use crate::finding::{Confidence, Finding, FindingView, RuleId, Severity};
use crate::hash::{content_hash, xxh3_of};
use crate::ids::Span;
use crate::order::{seq_lt, str_less};
use crate::text::{decimal, push_str, str_is, string_from, u64_to_string};

verus! {

/// A clone occurrence: the file's index in its group and the index of its
/// first token.
pub type Site = (usize, usize);

/// The `len` tokens of an occurrence.
pub open spec fn window(g: Seq<FileTokens>, o: Site, len: int) -> Seq<Tok> {
    g[o.0 as int].tokens@.subrange(o.1 as int, o.1 + len)
}

/// The occurrence lies within its file's tokens.
pub open spec fn site_ok(g: Seq<FileTokens>, o: Site, len: int) -> bool {
    o.0 < g.len() && o.1 + len <= g[o.0 as int].tokens@.len()
}

/// The line an occurrence starts on.
pub open spec fn line_at(g: Seq<FileTokens>, o: Site) -> u32 {
    g[o.0 as int].tokens@[o.1 as int].line
}

/// Occurrence `a` is reported before `b`: by path, then by line.
pub open spec fn site_lt(g: Seq<FileTokens>, a: Site, b: Site) -> bool {
    let pa = g[a.0 as int].path@;
    let pb = g[b.0 as int].path@;
    seq_lt(pa, pb, true) || (pa == pb && line_at(g, a) < line_at(g, b))
}

/// The first index from `i` whose occurrence sorts strictly after `x`.
pub open spec fn site_above(g: Seq<FileTokens>, s: Seq<Site>, x: Site, i: int) -> int
    decreases s.len() - i,
{
    if i < 0 || i >= s.len() {
        s.len() as int
    } else if site_lt(g, x, s[i]) {
        i
    } else {
        site_above(g, s, x, i + 1)
    }
}

/// The stable sort of occurrences by path and line.
pub open spec fn sort_sites(g: Seq<FileTokens>, s: Seq<Site>) -> Seq<Site>
    decreases s.len(),
{
    if s.len() == 0 {
        s
    } else {
        let t = sort_sites(g, s.drop_last());
        t.insert(site_above(g, t, s.last(), 0), s.last())
    }
}

/// The bytes a fingerprint hashes: each token's identifier-collapsing class
/// symbol, little-endian.
pub open spec fn fingerprint_bytes(ts: Seq<Tok>) -> Seq<u8>
    decreases ts.len(),
{
    if ts.len() == 0 {
        Seq::empty()
    } else {
        fingerprint_bytes(ts.drop_last()) + spec_u64_to_le_bytes(class_sym(ts.last(), DuplicationMode::Semantic))
    }
}

/// The 32-bit fingerprint of a class, taken at an occurrence: stable across
/// line shifts and modes.
pub open spec fn fingerprint(g: Seq<FileTokens>, o: Site, len: int) -> u32 {
    (xxh3_of(fingerprint_bytes(window(g, o, len))) & 0xffff_ffff) as u32
}

pub open spec fn hex_char(d: nat) -> char {
    if d < 10 {
        ((d + 48) as u8) as char
    } else {
        ((d + 87) as u8) as char
    }
}

/// The last `n` lowercase hexadecimal digits of `x`, zero-padded.
pub open spec fn hex_digits(x: nat, n: nat) -> Seq<char>
    decreases n,
{
    if n == 0 {
        Seq::empty()
    } else {
        hex_digits(x / 16, (n - 1) as nat).push(hex_char(x % 16))
    }
}

/// Where an occurrence is: `path:line`.
pub open spec fn site_text(g: Seq<FileTokens>, o: Site) -> Seq<char> {
    g[o.0 as int].path@ + ":"@ + decimal(line_at(g, o) as nat)
}

/// The sites of occurrences, separated by `", "`.
pub open spec fn sites_text(g: Seq<FileTokens>, s: Seq<Site>) -> Seq<char>
    decreases s.len(),
{
    if s.len() == 0 {
        Seq::empty()
    } else if s.len() == 1 {
        site_text(g, s[0])
    } else {
        sites_text(g, s.drop_last()) + ", "@ + site_text(g, s.last())
    }
}

/// The finding of a clone class whose occurrences are `sorted`, in report
/// order, with fingerprint `fp`.
pub open spec fn clone_view(g: Seq<FileTokens>, sorted: Seq<Site>, len: int, mode: DuplicationMode, fp: u32) -> FindingView {
    let p = sorted[0];
    let start = line_at(g, p);
    let end = g[p.0 as int].tokens@[p.1 + len - 1].line;
    FindingView {
        rule: RuleId::DuplicateCode,
        severity: Severity::Warn,
        confidence: if mode == DuplicationMode::Exact || mode == DuplicationMode::Mild {
            Confidence::High
        } else {
            Confidence::Medium
        },
        symbol: Some("dup:"@ + hex_digits(fp as nat, 8)),
        file: g[p.0 as int].path@,
        span: Span { start_line: start, end_line: if end > start { end } else { start } },
        message: "Duplicated block ("@ + decimal(len as nat) + " tokens, "@ + decimal(sorted.len()) + " occurrences): also at "@
            + sites_text(g, sorted.drop_first()) + "."@,
        reason: "identical normalized token stream (mode: "@ + mode_name(mode) + ")"@,
    }
}

/// The finding of a clone class with the given occurrences.
pub open spec fn class_finding(g: Seq<FileTokens>, occ: Seq<Site>, len: int, mode: DuplicationMode) -> FindingView {
    let sorted = sort_sites(g, occ);
    clone_view(g, sorted, len, mode, fingerprint(g, sorted[0], len))
}

fn hex_text(x: u32, n: usize) -> (r: Vec<char>)
    ensures
        r@ == hex_digits(x as nat, n as nat),
    decreases n,
{
    if n == 0 {
        Vec::new()
    } else {
        let mut v = hex_text(x / 16, n - 1);
        let d = x % 16;
        let c = if d < 10 { ((d + 48) as u8) as char } else { ((d + 87) as u8) as char };
        v.push(c);
        v
    }
}

fn site_less(files: &Vec<FileTokens>, members: &Vec<usize>, a: Site, b: Site) -> (r: bool)
    requires
        a.0 < members@.len(),
        b.0 < members@.len(),
        a.1 < files@[members@[a.0 as int] as int].tokens@.len(),
        b.1 < files@[members@[b.0 as int] as int].tokens@.len(),
        forall|k: int| 0 <= k < members@.len() ==> (#[trigger] members@[k]) < files@.len(),
    ensures
        r == site_lt(group_of(files@, members@), a, b),
{
    let fa = &files[members[a.0]];
    let fb = &files[members[b.0]];
    if str_less(fa.path.as_str(), fb.path.as_str(), true) {
        true
    } else if str_is(fa.path.as_str(), fb.path.as_str()) {
        fa.tokens[a.1].line < fb.tokens[b.1].line
    } else {
        false
    }
}

/// The valid occurrences of a group.
pub open spec fn sites_ok(files: Seq<FileTokens>, members: Seq<usize>, s: Seq<Site>, len: int) -> bool {
    &&& forall|k: int| 0 <= k < members.len() ==> (#[trigger] members[k]) < files.len()
    &&& forall|k: int| 0 <= k < s.len() ==> site_ok(group_of(files, members), #[trigger] s[k], len)
}

proof fn lemma_site_above(g: Seq<FileTokens>, s: Seq<Site>, x: Site, i: int)
    requires
        0 <= i <= s.len(),
    ensures
        i <= site_above(g, s, x, i) <= s.len(),
    decreases s.len() - i,
{
    if i < s.len() && !site_lt(g, x, s[i]) {
        lemma_site_above(g, s, x, i + 1);
    }
}

/// The occurrences in report order: by path, then line, ties kept in order.
fn sorted_sites(files: &Vec<FileTokens>, members: &Vec<usize>, occ: &Vec<Site>, len: usize) -> (r: Vec<Site>)
    requires
        len >= 1,
        sites_ok(files@, members@, occ@, len as int),
    ensures
        r@ == sort_sites(group_of(files@, members@), occ@),
        r@.len() == occ@.len(),
        sites_ok(files@, members@, r@, len as int),
{
    let ghost g = group_of(files@, members@);
    let mut out: Vec<Site> = Vec::new();
    let mut k: usize = 0;
    while k < occ.len()
        invariant
            k <= occ@.len(),
            len >= 1,
            g == group_of(files@, members@),
            sites_ok(files@, members@, occ@, len as int),
            sites_ok(files@, members@, out@, len as int),
            out@ == sort_sites(g, occ@.take(k as int)),
            out@.len() == k,
        decreases occ@.len() - k,
    {
        let x = occ[k];
        assert(site_ok(g, occ@[k as int], len as int));
        let ghost t = out@;
        let mut p: usize = 0;
        while p < out.len() && !site_less(files, members, x, out[p])
            invariant
                p <= out@.len(),
                t == out@,
                x == occ@[k as int],
                k < occ@.len(),
                len >= 1,
                g == group_of(files@, members@),
                sites_ok(files@, members@, occ@, len as int),
                sites_ok(files@, members@, out@, len as int),
                site_above(g, t, x, 0) == site_above(g, t, x, p as int),
            decreases out@.len() - p,
        {
            assert(site_ok(g, out@[p as int], len as int));
            p += 1;
        }
        proof {
            if p < out@.len() {
                assert(site_ok(g, out@[p as int], len as int));
            }
            assert(site_above(g, t, x, 0) == p);
            assert(occ@.take(k + 1).drop_last() =~= occ@.take(k as int));
        }
        out.insert(p, x);
        proof {
            assert forall|j: int| 0 <= j < out@.len() implies site_ok(g, #[trigger] out@[j], len as int) by {
                if j < p as int {
                    assert(out@[j] == t[j]);
                } else if j > p as int {
                    assert(out@[j] == t[j - 1]);
                }
            }
        }
        k += 1;
    }
    assert(occ@.take(occ@.len() as int) =~= occ@);
    out
}

/// The finding of a clone class whose occurrences are `sorted`, in report
/// order, given its fingerprint.
pub fn clone_finding(
    files: &Vec<FileTokens>,
    members: &Vec<usize>,
    sorted: &Vec<Site>,
    len: usize,
    mode: DuplicationMode,
    fp: u32,
) -> (r: Finding)
    requires
        len >= 1,
        sorted@.len() >= 1,
        sites_ok(files@, members@, sorted@, len as int),
    ensures
        r@ == clone_view(group_of(files@, members@), sorted@, len as int, mode, fp),
{
    let ghost g = group_of(files@, members@);
    let p = sorted[0];
    assert(site_ok(g, sorted@[0], len as int));
    let f = &files[members[p.0]];
    assert(*f == g[p.0 as int]);
    let ntok = f.tokens.len();
    assert(p.1 + len <= ntok);
    let start = f.tokens[p.1].line;
    let end = f.tokens[p.1 + len - 1].line;
    let mut sym: Vec<char> = Vec::new();
    push_str(&mut sym, "dup:");
    let hex = hex_text(fp, 8);
    let ghost sym0 = sym@;
    let mut k: usize = 0;
    while k < hex.len()
        invariant
            k <= hex@.len(),
            sym@ == sym0 + hex@.take(k as int),
        decreases hex@.len() - k,
    {
        sym.push(hex[k]);
        assert(hex@.take(k + 1) =~= hex@.take(k as int).push(hex@[k as int]));
        k += 1;
    }
    assert(hex@.take(hex@.len() as int) =~= hex@);
    let mut m: Vec<char> = Vec::new();
    push_str(&mut m, "Duplicated block (");
    push_str(&mut m, u64_to_string(len as u64).as_str());
    push_str(&mut m, " tokens, ");
    push_str(&mut m, u64_to_string(sorted.len() as u64).as_str());
    push_str(&mut m, " occurrences): also at ");
    let ghost base = m@;
    let ghost rest = sorted@.drop_first();
    let mut k: usize = 1;
    while k < sorted.len()
        invariant
            1 <= k <= sorted@.len(),
            len >= 1,
            rest == sorted@.drop_first(),
            g == group_of(files@, members@),
            sites_ok(files@, members@, sorted@, len as int),
            m@ == base + sites_text(g, rest.take(k - 1)),
        decreases sorted@.len() - k,
    {
        proof {
            let t = rest.take(k as int);
            assert(t.drop_last() =~= rest.take(k - 1));
            assert(t.last() == sorted@[k as int]);
            if k == 1 {
                assert(t[0] == sorted@[1]);
            }
        }
        if k > 1 {
            push_str(&mut m, ", ");
        }
        let o = sorted[k];
        assert(site_ok(g, sorted@[k as int], len as int));
        let fo = &files[members[o.0]];
        assert(*fo == g[o.0 as int]);
        push_str(&mut m, fo.path.as_str());
        push_str(&mut m, ":");
        push_str(&mut m, u64_to_string(fo.tokens[o.1].line as u64).as_str());
        proof {
            reveal_strlit(":");
            assert(m@ =~= base + sites_text(g, rest.take(k as int)));
        }
        k += 1;
    }
    assert(rest.take(sorted@.len() - 1) =~= rest);
    push_str(&mut m, ".");
    Finding {
        rule: RuleId::DuplicateCode,
        severity: Severity::Warn,
        confidence: match mode {
            DuplicationMode::Exact | DuplicationMode::Mild => Confidence::High,
            _ => Confidence::Medium,
        },
        symbol: Some(string_from(sym.as_slice())),
        file: f.path.clone(),
        span: Span::new(start, if end > start { end } else { start }),
        message: string_from(m.as_slice()),
        reason: crate::text::cat3("identical normalized token stream (mode: ", mode.as_str(), ")"),
    }
}


/// The fingerprint of a class, taken at an occurrence.
fn class_fingerprint(files: &Vec<FileTokens>, members: &Vec<usize>, o: Site, len: usize) -> (r: u32)
    requires
        forall|k: int| 0 <= k < members@.len() ==> (#[trigger] members@[k]) < files@.len(),
        site_ok(group_of(files@, members@), o, len as int),
    ensures
        r == fingerprint(group_of(files@, members@), o, len as int),
{
    let ghost g = group_of(files@, members@);
    let f = &files[members[o.0]];
    assert(*f == g[o.0 as int]);
    let ntok = f.tokens.len();
    let ghost w = window(g, o, len as int);
    let mut bytes: Vec<u8> = Vec::new();
    let mut k: usize = 0;
    while k < len
        invariant
            k <= len,
            o.1 + len <= ntok,
            ntok == f.tokens@.len(),
            w == f.tokens@.subrange(o.1 as int, o.1 + len),
            bytes@ == fingerprint_bytes(w.take(k as int)),
        decreases len - k,
    {
        let sym = class_symbol(&f.tokens[o.1 + k], DuplicationMode::Semantic);
        let b = u64_to_le_bytes(sym);
        let ghost before = bytes@;
        let mut j: usize = 0;
        while j < b.len()
            invariant
                j <= b@.len(),
                bytes@ == before + b@.take(j as int),
            decreases b@.len() - j,
        {
            bytes.push(b[j]);
            assert(b@.take(j + 1) =~= b@.take(j as int).push(b@[j as int]));
            j += 1;
        }
        proof {
            assert(b@.take(b@.len() as int) =~= b@);
            assert(w.take(k + 1).drop_last() =~= w.take(k as int));
            assert(w.take(k + 1).last() == f.tokens@[o.1 + k]);
        }
        k += 1;
    }
    assert(w.take(len as int) =~= w);
    let h = content_hash(bytes.as_slice());
    (h & 0xffff_ffff) as u32
}

/// The finding of a clone class with the given occurrences.
pub(crate) fn make_finding(files: &Vec<FileTokens>, members: &Vec<usize>, occ: &Vec<Site>, len: usize, mode: DuplicationMode) -> (r: Finding)
    requires
        len >= 1,
        occ@.len() >= 1,
        sites_ok(files@, members@, occ@, len as int),
    ensures
        r@ == class_finding(group_of(files@, members@), occ@, len as int, mode),
{
    let sorted = sorted_sites(files, members, occ, len);
    assert(site_ok(group_of(files@, members@), sorted@[0], len as int));
    let fp = class_fingerprint(files, members, sorted[0], len);
    clone_finding(files, members, &sorted, len, mode, fp)
}

} // verus!
