//! Per-file extraction: what a file's syntax tree says, read from the walk
//! that `syntax::source_events` gives, as language-neutral facts.

pub mod walk;
pub mod nodes;
pub mod tokens;
pub mod typescript;
pub mod python;
pub mod complexity;

use vstd::prelude::*;
use crate::extract::complexity::{complexity_from_events, cx_from, metrics_views};
use crate::extract::walk::{
    annotation_views, annotations_of, call_views, calls_of, class_refs_of, export_names_of, export_views,
    exports_of, facts_from_walk, import_views, imports_of, marker_views, markers_of, members_of, ref_views,
    refs_of, strings_of, suppression_views, suppressions_of, symbol_views, symbols_of, Fact, FactView,
};
use crate::facts::{with_annotations, with_exports, CssName, FileFacts, RawSymbol};
use crate::fix::lines::{lines, split_lines};
use crate::hash::{content_hash, xxh3_of};
use crate::ids::Language;
use crate::order::string_views;
use crate::syntax::{
    css_classes_upto, css_declared_upto, css_facts, css_names_view, css_var_refs_upto, events_view, rows_fit,
    rows_fit_exec, source_events, source_events_of, EventView, SyntaxEvent,
};

verus! {

/// What the walk of a file in `language` records.
pub open spec fn walk_of(ev: Seq<EventView>, language: Language) -> Seq<FactView> {
    if language is Python {
        crate::extract::python::py_from(ev, 0, Seq::empty())
    } else if language is Css {
        Seq::empty()
    } else {
        crate::extract::typescript::ts_from(ev, 0)
    }
}

/// `r` holds the facts a walk `ev` of the file `path` (id `file`, written in
/// `language`, content hash `hash`, `loc` lines) gives: every kind of record
/// in the order the walk made it; symbols marked exported where an export
/// names them and given the visibility an annotation on their line states;
/// the complexity of each function (none for CSS); and for CSS its custom
/// properties, `var()` references and class selectors.
pub open spec fn facts_of(r: FileFacts, path: Seq<char>, file: usize, language: Language, hash: u64, loc: u32, ev: Seq<EventView>) -> bool {
    let w = walk_of(ev, language);
    &&& r.file == file
    &&& r.path@ == path
    &&& r.language == language
    &&& r.content_hash == hash
    &&& r.metrics.loc == loc
    &&& metrics_views(r.functions@) == if language is Css { Seq::empty() } else { cx_from(ev, 0, language, Seq::empty(), Seq::empty()) }
    &&& css_names_view(r.style.declared_tokens@) == if language is Css { css_declared_upto(ev, ev.len() as int) } else { Seq::empty() }
    &&& string_views(r.style.var_refs@) == if language is Css { css_var_refs_upto(ev, ev.len() as int) } else { Seq::empty() }
    &&& css_names_view(r.style.class_selectors@) == if language is Css { css_classes_upto(ev, ev.len() as int) } else { Seq::empty() }
    &&& string_views(r.style.class_refs@) == class_refs_of(w)
    &&& import_views(r.imports@) == imports_of(w)
    &&& export_views(r.exports@) == exports_of(w)
    &&& ref_views(r.refs@) == refs_of(w)
    &&& string_views(r.member_accesses@) == members_of(w)
    &&& marker_views(r.markers@) == markers_of(w)
    &&& suppression_views(r.suppressions@) == suppressions_of(w)
    &&& annotation_views(r.annotations@) == annotations_of(w)
    &&& string_views(r.string_literals@) == strings_of(w)
    &&& call_views(r.calls@) == calls_of(w)
    &&& exists|s: Seq<RawSymbol>, n: Seq<String>| #[trigger] symbol_views(s) == symbols_of(w)
        && #[trigger] string_views(n) == export_names_of(w)
        && r.symbols@ == with_annotations(with_exports(s, n), r.annotations@)
}

proof fn lemma_open_at_bound(s: Seq<RawSymbol>, line: u32, i: int)
    ensures
        crate::facts::open_at(s, line, i) < s.len(),
    decreases s.len() - i,
{
    if 0 <= i < s.len() && !(s[i].span.start_line == line && s[i].visibility is None) {
        lemma_open_at_bound(s, line, i + 1);
    }
}

proof fn lemma_annotations_keep_length(s: Seq<RawSymbol>, anns: Seq<crate::facts::Annotation>)
    ensures
        with_annotations(s, anns).len() == s.len(),
    decreases anns.len(),
{
    if anns.len() > 0 {
        lemma_annotations_keep_length(s, anns.drop_last());
        let t = with_annotations(s, anns.drop_last());
        lemma_open_at_bound(t, anns.last().line, 0);
    }
}

/// A parse that gives no tree (an empty walk) gives empty-but-valid facts:
/// the file's identity, hash and line count, and nothing else.
pub proof fn law_no_tree_no_facts(r: FileFacts, path: Seq<char>, file: usize, language: Language, hash: u64, loc: u32)
    requires
        facts_of(r, path, file, language, hash, loc, Seq::empty()),
    ensures
        r.file == file && r.path@ == path && r.language == language && r.content_hash == hash && r.metrics.loc == loc,
        r.symbols@.len() == 0,
        r.imports@.len() == 0,
        r.exports@.len() == 0,
        r.refs@.len() == 0,
        r.member_accesses@.len() == 0,
        r.markers@.len() == 0,
        r.suppressions@.len() == 0,
        r.annotations@.len() == 0,
        r.string_literals@.len() == 0,
        r.calls@.len() == 0,
        r.functions@.len() == 0,
        r.style.declared_tokens@.len() == 0,
        r.style.var_refs@.len() == 0,
        r.style.class_selectors@.len() == 0,
        r.style.class_refs@.len() == 0,
{
    let ev = Seq::<EventView>::empty();
    let w = walk_of(ev, language);
    assert(w =~= Seq::<FactView>::empty());
    assert(cx_from(ev, 0, language, Seq::empty(), Seq::empty()) =~= Seq::empty());
    assert(css_declared_upto(ev, 0) =~= Seq::empty());
    assert(css_var_refs_upto(ev, 0) =~= Seq::empty());
    assert(css_classes_upto(ev, 0) =~= Seq::empty());
    assert(metrics_views(r.functions@).len() == r.functions@.len());
    assert(css_names_view(r.style.declared_tokens@).len() == r.style.declared_tokens@.len());
    assert(string_views(r.style.var_refs@).len() == r.style.var_refs@.len());
    assert(css_names_view(r.style.class_selectors@).len() == r.style.class_selectors@.len());
    assert(string_views(r.style.class_refs@).len() == r.style.class_refs@.len());
    assert(import_views(r.imports@).len() == r.imports@.len());
    assert(export_views(r.exports@).len() == r.exports@.len());
    assert(ref_views(r.refs@).len() == r.refs@.len());
    assert(string_views(r.member_accesses@).len() == r.member_accesses@.len());
    assert(marker_views(r.markers@).len() == r.markers@.len());
    assert(suppression_views(r.suppressions@).len() == r.suppressions@.len());
    assert(annotation_views(r.annotations@).len() == r.annotations@.len());
    assert(string_views(r.string_literals@).len() == r.string_literals@.len());
    assert(call_views(r.calls@).len() == r.calls@.len());
    let (s, n) = choose|s: Seq<RawSymbol>, n: Seq<String>| #[trigger] symbol_views(s) == symbols_of(w)
        && #[trigger] string_views(n) == export_names_of(w)
        && r.symbols@ == with_annotations(with_exports(s, n), r.annotations@);
    assert(symbol_views(s).len() == s.len());
    lemma_annotations_keep_length(with_exports(s, n), r.annotations@);
}

/// The facts of a file from its walk.
pub fn facts_from_events(rel_path: String, file_id: usize, language: Language, hash: u64, loc: u32, ev: &Vec<SyntaxEvent>) -> (r: FileFacts)
    requires
        rows_fit(events_view(ev@)),
    ensures
        facts_of(r, rel_path@, file_id, language, hash, loc, events_view(ev@)),
{
    let ghost evv = events_view(ev@);
    let ghost path = rel_path@;
    let (walk, functions, css) = if language.is_css() {
        let w: Vec<Fact> = Vec::new();
        assert(crate::extract::walk::fact_views(w@) =~= Seq::<FactView>::empty());
        (w, Vec::new(), css_facts(ev))
    } else {
        let w = if language.is_python() {
            crate::extract::python::walk_facts(ev)
        } else {
            crate::extract::typescript::walk_facts(ev)
        };
        let empty = (Vec::<CssName>::new(), Vec::<String>::new(), Vec::<CssName>::new());
        assert(css_names_view(empty.0@) =~= Seq::empty());
        assert(string_views(empty.1@) =~= Seq::empty());
        assert(css_names_view(empty.2@) =~= Seq::empty());
        (w, complexity_from_events(ev, language), empty)
    };
    let r = facts_from_walk(rel_path, file_id, language, hash, loc, walk, functions, css);
    proof {
        if language is Css {
            assert(metrics_views(r.functions@) =~= Seq::empty());
        }
    }
    r
}

/// The number of lines of a text, as a line count is kept (`u32::MAX` past it).
pub open spec fn line_count(source: Seq<char>) -> u32 {
    if lines(source).len() < u32::MAX { lines(source).len() as u32 } else { u32::MAX }
}

/// Extracts the facts of one already-read source file. `rel_path` must be
/// repo-relative: it becomes part of every symbol id. A parse that gives no
/// tree yields empty-but-valid facts (`tree-sitter` is error-tolerant, and one
/// unparseable file must not stop a scan); `None` only when a node's row does
/// not fit a line number.
pub fn extract(rel_path: String, source: &str, file_id: usize, language: Language) -> (r: Option<FileFacts>)
    ensures
        match r {
            None => !rows_fit(source_events_of(source@, language)),
            Some(f) => rows_fit(source_events_of(source@, language)) && facts_of(f, rel_path@, file_id, language,
                xxh3_of(vstd::utf8::encode_utf8(source@)), line_count(source@), source_events_of(source@, language)),
        },
{
    let hash = content_hash(source.as_bytes());
    let n = split_lines(source).len();
    let loc: u32 = if n < u32::MAX as usize { n as u32 } else { u32::MAX };
    let ev = source_events(source, language);
    if !rows_fit_exec(&ev) {
        return None;
    }
    Some(facts_from_events(rel_path, file_id, language, hash, loc, &ev))
}

} // verus!
