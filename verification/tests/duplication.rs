use noslop::duplication::{kasai_lcp, rank_compress, suffix_array};
use noslop::analysis::{DuplicationConfig, DuplicationMode};
use noslop::duplication::run;
use noslop::duplication::tokens::{class_symbol, FileTokens};
use noslop::facts::{Tok, TokKind};
use noslop::finding::{Confidence, RuleId, Severity};
use noslop::hash::content_hash;
use noslop::ids::Language;

/// Naive suffix array for cross-checking.
fn naive_sa(s: &[u32]) -> Vec<usize> {
    let mut sa: Vec<usize> = (0..s.len()).collect();
    sa.sort_by(|&a, &b| s[a..].cmp(&s[b..]));
    sa
}

fn naive_lcp(s: &[u32], sa: &[usize]) -> Vec<usize> {
    let mut lcp = vec![0usize; s.len()];
    for i in 1..sa.len() {
        let (a, b) = (sa[i - 1], sa[i]);
        let mut k = 0;
        while a + k < s.len() && b + k < s.len() && s[a + k] == s[b + k] {
            k += 1;
        }
        lcp[i] = k;
    }
    lcp
}

#[test]
fn suffix_array_and_lcp_match_naive() {
    let mut state: u64 = 0x1234_5678;
    for _ in 0..200 {
        let n = (state % 40) as usize + 1;
        let s: Vec<u32> = (0..n)
            .map(|_| {
                state = state.wrapping_mul(6364136223846793005).wrapping_add(1);
                ((state >> 33) % 4) as u32
            })
            .collect();
        let sa = suffix_array(&s);
        assert_eq!(sa, naive_sa(&s), "SA mismatch for {s:?}");
        assert_eq!(kasai_lcp(&s, &sa), naive_lcp(&s, &sa), "LCP mismatch for {s:?}");
    }
}

#[test]
fn rank_compress_is_order_preserving() {
    let r = rank_compress(&[50, 10, 10, 99, 0]);
    assert_eq!(r, vec![2, 1, 1, 3, 0]);
}

fn tok(kind: TokKind, hash: u64, line: u32, stmt_end: bool) -> Tok {
    Tok { hash, kind, line, stmt_end }
}

/// `x = 1; y = 2;` with the identifiers' hashes given.
fn block(first_line: u32, x: u64, y: u64) -> Vec<Tok> {
    vec![
        tok(TokKind::Ident, x, first_line, false),
        tok(TokKind::Punct, 61, first_line, false),
        tok(TokKind::Num, 1, first_line, true),
        tok(TokKind::Ident, y, first_line + 1, false),
        tok(TokKind::Punct, 61, first_line + 1, false),
        tok(TokKind::Num, 2, first_line + 1, true),
    ]
}

fn file(path: &str, language: Language, tokens: Vec<Tok>) -> FileTokens {
    FileTokens { path: path.to_string(), language, tokens }
}

fn config(mode: DuplicationMode, min_tokens: u32, skip_local: bool) -> DuplicationConfig {
    DuplicationConfig { enabled: true, mode, min_tokens, skip_local }
}

#[test]
fn class_symbols_follow_the_mode() {
    let n = tok(TokKind::Num, 7, 1, false);
    let s = tok(TokKind::Str, 7, 1, false);
    let i = tok(TokKind::Ident, 7, 1, false);
    let p = tok(TokKind::Punct, 7, 1, false);
    let concrete = 7 | (1u64 << 63);
    assert_eq!(class_symbol(&n, DuplicationMode::Exact), concrete);
    assert_eq!(class_symbol(&n, DuplicationMode::Mild), 1);
    assert_eq!(class_symbol(&s, DuplicationMode::Mild), concrete);
    assert_eq!(class_symbol(&s, DuplicationMode::Weak), 2);
    assert_eq!(class_symbol(&i, DuplicationMode::Weak), concrete);
    assert_eq!(class_symbol(&i, DuplicationMode::Semantic), 3);
    assert_eq!(class_symbol(&p, DuplicationMode::Semantic), concrete);
}

#[test]
fn content_hash_is_xxh3() {
    assert_eq!(content_hash(b"abc"), xxhash_rust::xxh3::xxh3_64(b"abc"));
    assert_ne!(content_hash(b"abc"), content_hash(b"abd"));
}

#[test]
fn identical_blocks_in_two_files_are_one_clone() {
    let files = vec![
        file("b/y.ts", Language::TypeScript, block(10, 100, 200)),
        file("a/x.ts", Language::TypeScript, block(3, 100, 200)),
    ];
    let out = run(&files, &config(DuplicationMode::Exact, 4, false));
    assert_eq!(out.len(), 1);
    let f = &out[0];
    assert_eq!(f.rule, RuleId::DuplicateCode);
    assert_eq!(f.severity, Severity::Warn);
    assert_eq!(f.confidence, Confidence::High);
    assert_eq!(f.file, "a/x.ts");
    assert_eq!((f.span.start_line, f.span.end_line), (3, 4));
    assert_eq!(f.message, "Duplicated block (6 tokens, 2 occurrences): also at b/y.ts:10.");
    assert_eq!(f.reason, "identical normalized token stream (mode: exact)");
    let mut bytes = Vec::new();
    for t in block(3, 100, 200) {
        let sym = match t.kind {
            TokKind::Num => 1,
            TokKind::Str => 2,
            TokKind::Ident => 3,
            TokKind::Punct => t.hash | (1u64 << 63),
        };
        bytes.extend_from_slice(&sym.to_le_bytes());
    }
    let fp = (xxhash_rust::xxh3::xxh3_64(&bytes) & 0xffff_ffff) as u32;
    assert_eq!(f.symbol, Some(format!("dup:{fp:08x}")));
}

#[test]
fn disabled_duplication_reports_nothing() {
    let files = vec![
        file("a/x.ts", Language::TypeScript, block(1, 100, 200)),
        file("b/y.ts", Language::TypeScript, block(1, 100, 200)),
    ];
    let mut cfg = config(DuplicationMode::Exact, 4, false);
    cfg.enabled = false;
    assert!(run(&files, &cfg).is_empty());
}

#[test]
fn languages_are_indexed_apart() {
    let files = vec![
        file("a/x.ts", Language::TypeScript, block(1, 100, 200)),
        file("b/y.py", Language::Python, block(1, 100, 200)),
    ];
    assert!(run(&files, &config(DuplicationMode::Exact, 4, false)).is_empty());
}

#[test]
fn renamed_identifiers_only_match_in_semantic_mode() {
    let files = vec![
        file("a/x.ts", Language::TypeScript, block(1, 100, 200)),
        file("b/y.ts", Language::TypeScript, block(1, 300, 400)),
    ];
    assert!(run(&files, &config(DuplicationMode::Weak, 4, false)).is_empty());
    let out = run(&files, &config(DuplicationMode::Semantic, 4, false));
    assert_eq!(out.len(), 1);
    assert_eq!(out[0].confidence, Confidence::Medium);
    assert_eq!(out[0].reason, "identical normalized token stream (mode: semantic)");
}

#[test]
fn inconsistent_renaming_is_no_clone() {
    let files = vec![
        file("a/x.ts", Language::TypeScript, block(1, 100, 100)),
        file("b/y.ts", Language::TypeScript, block(1, 300, 400)),
    ];
    assert!(run(&files, &config(DuplicationMode::Semantic, 4, false)).is_empty());
}

#[test]
fn skip_local_drops_clones_within_one_directory() {
    let files = vec![
        file("a/x.ts", Language::TypeScript, block(1, 100, 200)),
        file("a/y.ts", Language::TypeScript, block(1, 100, 200)),
    ];
    assert_eq!(run(&files, &config(DuplicationMode::Exact, 4, false)).len(), 1);
    assert!(run(&files, &config(DuplicationMode::Exact, 4, true)).is_empty());
}

#[test]
fn a_single_statement_is_no_clone() {
    let short = vec![
        tok(TokKind::Ident, 100, 1, false),
        tok(TokKind::Punct, 61, 1, false),
        tok(TokKind::Num, 1, 1, true),
        tok(TokKind::Punct, 59, 1, false),
    ];
    let files = vec![
        file("a/x.ts", Language::TypeScript, short.clone()),
        file("b/y.ts", Language::TypeScript, short),
    ];
    assert!(run(&files, &config(DuplicationMode::Exact, 3, false)).is_empty());
}

#[test]
fn clone_findings_come_ordered_by_file_and_line() {
    let files = vec![
        file("c/z.ts", Language::TypeScript, block(20, 500, 600)),
        file("d/w.ts", Language::TypeScript, block(1, 500, 600)),
        file("b/y.ts", Language::TypeScript, block(7, 100, 200)),
        file("a/x.ts", Language::TypeScript, block(9, 100, 200)),
    ];
    let out = run(&files, &config(DuplicationMode::Exact, 4, false));
    assert_eq!(out.len(), 2);
    assert_eq!((out[0].file.as_str(), out[0].span.start_line), ("a/x.ts", 9));
    assert_eq!((out[1].file.as_str(), out[1].span.start_line), ("c/z.ts", 20));
}
