//! Primitive identifiers and location types shared across every stage.

use vstd::prelude::*;
use vstd::string::*;
use crate::path::{file_name, file_name_of, rfind, rfind_char};
use crate::text::{chars_of, str_is};

verus! {

/// Dense index into `Graph::files`, stable only within a single run.
pub type FileId = usize;

/// The languages analyzed.
#[derive(Debug, Clone, Copy, PartialEq, Eq, Structural)]
pub enum Language {
    TypeScript,
    /// TSX / JSX — a distinct grammar, same downstream handling.
    Tsx,
    JavaScript,
    Python,
    /// CSS / CSS Modules — analyzed for token and class liveness only.
    Css,
}

/// The language a file extension denotes, if it is one that is analyzed.
pub open spec fn extension_language(ext: Seq<char>) -> Option<Language> {
    if ext == "ts"@ || ext == "mts"@ || ext == "cts"@ {
        Some(Language::TypeScript)
    } else if ext == "tsx"@ || ext == "jsx"@ {
        Some(Language::Tsx)
    } else if ext == "js"@ || ext == "mjs"@ || ext == "cjs"@ {
        Some(Language::JavaScript)
    } else if ext == "py"@ || ext == "pyi"@ {
        Some(Language::Python)
    } else if ext == "css"@ {
        Some(Language::Css)
    } else {
        None
    }
}

impl Language {
    pub open spec fn js_family(self) -> bool {
        self is TypeScript || self is Tsx || self is JavaScript
    }

    /// Best-effort language detection from a file extension; `None` for files
    /// that are not analyzed.
    pub fn from_extension(ext: &str) -> (r: Option<Language>)
        ensures
            r == extension_language(ext@),
    {
        if str_is(ext, "ts") || str_is(ext, "mts") || str_is(ext, "cts") {
            Some(Language::TypeScript)
        } else if str_is(ext, "tsx") || str_is(ext, "jsx") {
            Some(Language::Tsx)
        } else if str_is(ext, "js") || str_is(ext, "mjs") || str_is(ext, "cjs") {
            Some(Language::JavaScript)
        } else if str_is(ext, "py") || str_is(ext, "pyi") {
            Some(Language::Python)
        } else if str_is(ext, "css") {
            Some(Language::Css)
        } else {
            None
        }
    }

    /// True for the TypeScript/JavaScript family.
    pub fn is_js_family(self) -> (r: bool)
        ensures
            r == self.js_family(),
    {
        match self {
            Language::TypeScript | Language::Tsx | Language::JavaScript => true,
            _ => false,
        }
    }

    pub fn is_python(self) -> (r: bool)
        ensures
            r == (self is Python),
    {
        match self {
            Language::Python => true,
            _ => false,
        }
    }

    pub fn is_css(self) -> (r: bool)
        ensures
            r == (self is Css),
    {
        match self {
            Language::Css => true,
            _ => false,
        }
    }
}

/// What kind of file this is for dead-code purposes.
#[derive(Debug, Clone, Copy, PartialEq, Eq, Structural)]
pub enum FileRole {
    /// Ordinary code — the only role `unused-file`/`unused-export` judge.
    Source,
    /// A tool config loaded by convention; a reachability seed.
    Config,
    /// Ambient type declarations (`*.d.ts`, `.pyi`).
    TypeDecl,
    /// A Python package marker (`__init__.py`).
    PackageInit,
}

/// ASCII lowercase of one character.
pub open spec fn lower(c: char) -> char {
    if 'A' <= c && c <= 'Z' { ((c as u32) + 32) as char } else { c }
}

pub open spec fn lower_all(s: Seq<char>) -> Seq<char> {
    s.map_values(|c: char| lower(c))
}

pub open spec fn ends_with(s: Seq<char>, suffix: Seq<char>) -> bool {
    suffix.len() <= s.len() && s.skip(s.len() - suffix.len()) == suffix
}

pub open spec fn starts_with(s: Seq<char>, prefix: Seq<char>) -> bool {
    prefix.len() <= s.len() && s.take(prefix.len() as int) == prefix
}

/// The JS-family extensions a tooling config can wear.
pub open spec fn js_config_ext(ext: Seq<char>) -> bool {
    ||| ext == "js"@ ||| ext == "cjs"@ ||| ext == "mjs"@ ||| ext == "ts"@
    ||| ext == "mts"@ ||| ext == "cts"@ ||| ext == "jsx"@ ||| ext == "tsx"@
}

/// Universal JS tool-config shapes: `*.config.<js-ext>` and dot-rc files.
pub open spec fn tooling_config(name: Seq<char>) -> bool {
    let dot = rfind(name, '.');
    &&& dot >= 0
    &&& js_config_ext(name.skip(dot + 1))
    &&& (ends_with(name.take(dot), ".config"@)
        || (starts_with(name, "."@) && ends_with(name.take(dot), "rc"@)))
}

/// The role of a repo-relative path of the given language.
pub open spec fn role_of(path: Seq<char>, language: Language) -> FileRole {
    let name = lower_all(file_name(path));
    if language is Python {
        if name == "__init__.py"@ {
            FileRole::PackageInit
        } else if ends_with(name, ".pyi"@) {
            FileRole::TypeDecl
        } else {
            FileRole::Source
        }
    } else if ends_with(name, ".d.ts"@) || ends_with(name, ".d.mts"@) || ends_with(name, ".d.cts"@) {
        FileRole::TypeDecl
    } else if tooling_config(name) {
        FileRole::Config
    } else {
        FileRole::Source
    }
}

pub fn lower_char(c: char) -> (r: char)
    ensures
        r == lower(c),
{
    if 'A' <= c && c <= 'Z' {
        let b = (c as u32) + 32;
        assert(b < 128);
        (b as u8) as char
    } else {
        c
    }
}

/// ASCII-lowercased copy of a character vector.
pub fn lower_chars(v: &Vec<char>) -> (r: Vec<char>)
    ensures
        r@ == lower_all(v@),
{
    let mut r: Vec<char> = Vec::new();
    let mut i: usize = 0;
    while i < v.len()
        invariant
            i <= v@.len(),
            r@.len() == i,
            forall|j: int| 0 <= j < i ==> r@[j] == lower(v@[j]),
        decreases v@.len() - i,
    {
        r.push(lower_char(v[i]));
        i += 1;
    }
    assert(r@ == lower_all(v@));
    r
}

/// Does `s[from..]`... end with the characters of `suffix`?
pub fn seq_ends_with(s: &Vec<char>, upto: usize, suffix: &str) -> (r: bool)
    requires
        upto <= s@.len(),
    ensures
        r == ends_with(s@.take(upto as int), suffix@),
{
    let suf = chars_of(suffix);
    if suf.len() > upto {
        return false;
    }
    let base = upto - suf.len();
    let mut i: usize = 0;
    while i < suf.len()
        invariant
            i <= suf@.len(),
            base + suf@.len() == upto,
            upto <= s@.len(),
            suf@ == suffix@,
            forall|j: int| 0 <= j < i ==> s@[base + j] == suf@[j],
        decreases suf@.len() - i,
    {
        if s[base + i] != suf[i] {
            assert(s@.take(upto as int).skip(base as int)[i as int] != suffix@[i as int]);
            return false;
        }
        i += 1;
    }
    assert(s@.take(upto as int).skip(base as int) == suffix@);
    true
}

/// Does `s` begin with the characters of `prefix`?
pub fn seq_starts_with(s: &Vec<char>, prefix: &str) -> (r: bool)
    ensures
        r == starts_with(s@, prefix@),
{
    let pre = chars_of(prefix);
    if pre.len() > s.len() {
        return false;
    }
    let mut i: usize = 0;
    while i < pre.len()
        invariant
            i <= pre@.len() <= s@.len(),
            pre@ == prefix@,
            forall|j: int| 0 <= j < i ==> s@[j] == pre@[j],
        decreases pre@.len() - i,
    {
        if s[i] != pre[i] {
            assert(s@.take(prefix@.len() as int)[i as int] != prefix@[i as int]);
            return false;
        }
        i += 1;
    }
    assert(s@.take(prefix@.len() as int) == prefix@);
    true
}

fn is_js_config_ext(ext: &str) -> (r: bool)
    ensures
        r == js_config_ext(ext@),
{
    str_is(ext, "js") || str_is(ext, "cjs") || str_is(ext, "mjs") || str_is(ext, "ts")
        || str_is(ext, "mts") || str_is(ext, "cts") || str_is(ext, "jsx") || str_is(ext, "tsx")
}

fn is_tooling_config(name: &Vec<char>) -> (r: bool)
    ensures
        r == tooling_config(name@),
{
    match rfind_char(name, '.') {
        None => false,
        Some(dot) => {
            assert(dot < name.len());
            let ext = crate::path::slice_to_string(name, dot + 1, name.len());
            if !is_js_config_ext(ext.as_str()) {
                return false;
            }
            if seq_ends_with(name, dot, ".config") {
                return true;
            }
            seq_starts_with(name, ".") && seq_ends_with(name, dot, "rc")
        }
    }
}

impl FileRole {
    /// Classify a repo-relative path (by name and language conventions only).
    pub fn classify(rel_path: &str, language: Language) -> (r: FileRole)
        ensures
            r == role_of(rel_path@, language),
    {
        let raw = file_name_of(rel_path);
        let raw_chars = chars_of(raw.as_str());
        let name = lower_chars(&raw_chars);
        if language.is_python() {
            let name_s = crate::path::slice_to_string(&name, 0, name.len());
            assert(name@.subrange(0, name@.len() as int) == name@);
            if str_is(name_s.as_str(), "__init__.py") {
                return FileRole::PackageInit;
            }
            if seq_ends_with(&name, name.len(), ".pyi") {
                assert(name@.take(name@.len() as int) == name@);
                return FileRole::TypeDecl;
            }
            assert(name@.take(name@.len() as int) == name@);
            return FileRole::Source;
        }
        assert(name@.take(name@.len() as int) == name@);
        if seq_ends_with(&name, name.len(), ".d.ts") || seq_ends_with(&name, name.len(), ".d.mts")
            || seq_ends_with(&name, name.len(), ".d.cts") {
            return FileRole::TypeDecl;
        }
        if is_tooling_config(&name) {
            return FileRole::Config;
        }
        FileRole::Source
    }

    /// A leaf reachability root that is never itself reported dead.
    pub fn is_reachability_seed(self) -> (r: bool)
        ensures
            r == (self is Config),
    {
        match self {
            FileRole::Config => true,
            _ => false,
        }
    }

    /// Should `unused-file` / `unused-export` judge this file at all?
    pub fn is_source(self) -> (r: bool)
        ensures
            r == (self is Source),
    {
        match self {
            FileRole::Source => true,
            _ => false,
        }
    }
}

/// A 1-based, inclusive line range within a file.
#[derive(Debug, Clone, Copy, PartialEq, Eq, Structural)]
pub struct Span {
    pub start_line: u32,
    pub end_line: u32,
}

impl Span {
    pub fn new(start_line: u32, end_line: u32) -> (r: Span)
        ensures
            r.start_line == start_line,
            r.end_line == end_line,
    {
        Span { start_line, end_line }
    }

    /// A span from a parse node's 0-based row range.
    pub fn from_rows(start_row: usize, end_row: usize) -> (r: Span)
        requires
            start_row < u32::MAX,
            end_row < u32::MAX,
        ensures
            r.start_line == start_row + 1,
            r.end_line == end_row + 1,
    {
        Span { start_line: start_row as u32 + 1, end_line: end_row as u32 + 1 }
    }
}

} // verus!
