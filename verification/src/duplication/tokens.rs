//! The files of a language family as one symbol stream: each token becomes
//! its class symbol in the requested mode, and each file ends in a sentinel of
//! its own so that no repeat spans two files.

use vstd::prelude::*;
use crate::analysis::DuplicationMode;
use crate::facts::{Tok, TokKind};
use crate::ids::Language;

verus! {

/// A file's duplication tokens, as handed in by the orchestrator.
#[derive(Debug)]
pub struct FileTokens {
    pub path: String,
    pub language: Language,
    pub tokens: Vec<Tok>,
}

/// The symbol ending the `k`-th file of a stream.
pub const BOUNDARY_BASE: u64 = 0x4000_0000_0000_0000;

/// The bit every concrete (hashed) symbol carries, so that it never meets a
/// collapsed sentinel or a boundary.
pub const CONCRETE_BIT: u64 = 0x8000_0000_0000_0000;

/// The class symbol of a token under a mode: two tokens share it iff the mode
/// deems them equal. Punctuation is always exact; the modes collapse numbers,
/// then strings, then identifiers to one sentinel per kind.
pub open spec fn class_sym(t: Tok, mode: DuplicationMode) -> u64 {
    if t.kind == TokKind::Num && mode != DuplicationMode::Exact {
        1
    } else if t.kind == TokKind::Str && (mode == DuplicationMode::Weak || mode == DuplicationMode::Semantic) {
        2
    } else if t.kind == TokKind::Ident && mode == DuplicationMode::Semantic {
        3
    } else {
        t.hash | CONCRETE_BIT
    }
}

/// The class symbol of a token under a mode.
pub fn class_symbol(t: &Tok, mode: DuplicationMode) -> (r: u64)
    ensures
        r == class_sym(*t, mode),
{
    let collapse_num = match mode {
        DuplicationMode::Exact => false,
        _ => true,
    };
    let collapse_str = match mode {
        DuplicationMode::Weak | DuplicationMode::Semantic => true,
        _ => false,
    };
    let collapse_ident = match mode {
        DuplicationMode::Semantic => true,
        _ => false,
    };
    match t.kind {
        TokKind::Num if collapse_num => 1,
        TokKind::Str if collapse_str => 2,
        TokKind::Ident if collapse_ident => 3,
        _ => t.hash | CONCRETE_BIT,
    }
}

/// The files of a group, by their indices into `files`.
pub open spec fn group_of(files: Seq<FileTokens>, members: Seq<usize>) -> Seq<FileTokens> {
    members.map_values(|k: usize| files[k as int])
}

/// The class symbols of one file's tokens.
pub open spec fn file_syms(f: FileTokens, mode: DuplicationMode) -> Seq<u64> {
    f.tokens@.map_values(|t: Tok| class_sym(t, mode))
}

/// The symbol stream of a group: each file's class symbols, then its boundary.
pub open spec fn stream(g: Seq<FileTokens>, mode: DuplicationMode) -> Seq<u64>
    decreases g.len(),
{
    if g.len() == 0 {
        Seq::empty()
    } else {
        stream(g.drop_last(), mode) + file_syms(g.last(), mode).push((BOUNDARY_BASE + (g.len() - 1)) as u64)
    }
}

/// For each stream position, the (file, token) it stands for; `None` at a
/// boundary.
pub open spec fn positions(g: Seq<FileTokens>) -> Seq<Option<(usize, usize)>>
    decreases g.len(),
{
    if g.len() == 0 {
        Seq::empty()
    } else {
        positions(g.drop_last()) + Seq::new(
            g.last().tokens@.len(),
            |t: int| Some(((g.len() - 1) as usize, t as usize)),
        ).push(None)
    }
}

/// The number of stream positions a group takes: its tokens and one boundary
/// per file.
pub open spec fn stream_size(g: Seq<FileTokens>) -> nat
    decreases g.len(),
{
    if g.len() == 0 {
        0
    } else {
        stream_size(g.drop_last()) + g.last().tokens@.len() + 1
    }
}

pub proof fn lemma_stream_size(g: Seq<FileTokens>, mode: DuplicationMode)
    ensures
        stream(g, mode).len() == stream_size(g),
        positions(g).len() == stream_size(g),
        stream_size(g) >= g.len(),
    decreases g.len(),
{
    if g.len() > 0 {
        lemma_stream_size(g.drop_last(), mode);
    }
}

/// The stream of a group and what each of its positions stands for.
pub fn index_group(files: &Vec<FileTokens>, members: &Vec<usize>, mode: DuplicationMode) -> (r: (Vec<u64>, Vec<Option<(usize, usize)>>))
    requires
        forall|k: int| 0 <= k < members@.len() ==> (#[trigger] members@[k]) < files@.len(),
        members@.len() < BOUNDARY_BASE,
        stream_size(group_of(files@, members@)) <= usize::MAX,
    ensures
        r.0@ == stream(group_of(files@, members@), mode),
        r.1@ == positions(group_of(files@, members@)),
{
    let ghost g = group_of(files@, members@);
    let mut syms: Vec<u64> = Vec::new();
    let mut locs: Vec<Option<(usize, usize)>> = Vec::new();
    let mut fi: usize = 0;
    while fi < members.len()
        invariant
            fi <= members@.len(),
            g == group_of(files@, members@),
            forall|k: int| 0 <= k < members@.len() ==> (#[trigger] members@[k]) < files@.len(),
            members@.len() < BOUNDARY_BASE,
            stream_size(g) <= usize::MAX,
            syms@ == stream(g.take(fi as int), mode),
            locs@ == positions(g.take(fi as int)),
        decreases members@.len() - fi,
    {
        proof {
            assert(g.take(fi + 1).drop_last() =~= g.take(fi as int));
            lemma_stream_size(g.take(fi as int), mode);
            lemma_size_prefix(g, fi + 1);
        }
        let f = &files[members[fi]];
        assert(*f == g[fi as int]);
        let ghost base_syms = syms@;
        let ghost base_locs = locs@;
        let mut ti: usize = 0;
        while ti < f.tokens.len()
            invariant
                ti <= f.tokens@.len(),
                fi < members@.len(),
                syms@ == base_syms + file_syms(*f, mode).take(ti as int),
                locs@ == base_locs + Seq::new(f.tokens@.len(), |t: int| Some((fi, t as usize))).take(ti as int),
            decreases f.tokens@.len() - ti,
        {
            syms.push(class_symbol(&f.tokens[ti], mode));
            locs.push(Some((fi, ti)));
            assert(file_syms(*f, mode).take(ti + 1) =~= file_syms(*f, mode).take(ti as int).push(class_sym(f.tokens@[ti as int], mode)));
            assert(Seq::new(f.tokens@.len(), |t: int| Some((fi, t as usize))).take(ti + 1) =~= Seq::new(f.tokens@.len(), |t: int| Some((fi, t as usize))).take(ti as int).push(Some((fi, ti))));
            ti += 1;
        }
        syms.push(BOUNDARY_BASE + fi as u64);
        locs.push(None);
        assert(file_syms(*f, mode).take(f.tokens@.len() as int) =~= file_syms(*f, mode));
        assert(Seq::new(f.tokens@.len(), |t: int| Some((fi, t as usize))).take(f.tokens@.len() as int) =~= Seq::new(f.tokens@.len(), |t: int| Some((fi, t as usize))));
        assert(syms@ =~= stream(g.take(fi + 1), mode));
        assert(locs@ =~= positions(g.take(fi + 1)));
        fi += 1;
    }
    assert(g.take(members@.len() as int) =~= g);
    (syms, locs)
}

proof fn lemma_size_prefix(g: Seq<FileTokens>, k: int)
    requires
        0 <= k <= g.len(),
    ensures
        stream_size(g.take(k)) <= stream_size(g),
    decreases g.len() - k,
{
    if k < g.len() {
        lemma_size_prefix(g, k + 1);
        assert(g.take(k + 1).drop_last() =~= g.take(k));
    } else {
        assert(g.take(k) =~= g);
    }
}

} // verus!
