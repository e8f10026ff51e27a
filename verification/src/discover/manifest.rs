//! Manifest facts: `package.json`, `tsconfig.json`, `pyproject.toml`. A
//! malformed manifest degrades to fewer facts, never to an error.

use vstd::prelude::*;
use crate::fix::manifest::requirement_name;
use crate::scan::{find_either, find_either_from, lemma_find_either, trim, trim_bounds};
use crate::ids::{ends_with, seq_ends_with};
use crate::order::{contains_view, string_views};
use crate::path::{join, join_path};
use crate::text::{cat, chars_of, copy_string, owned, str_is, string_from};
use crate::doc::{doc_get, doc_str, opt_get, str_elems, string_elems, strings_in, Doc};
use crate::doc_text::{json_doc_of, parse_json, parse_toml, toml_doc_of};
use crate::fix::apply::{union_in_order, union_into};

verus! {

/// `package.json` fields relevant to discovery.
#[derive(Debug)]
pub struct PackageJson {
    pub name: Option<String>,
    pub dependencies: Vec<String>,
    /// Workspace globs (`workspaces: [...]` or `workspaces: { packages: [...] }`).
    pub workspaces: Vec<String>,
    /// Entry targets declared via `main` / `bin`, relative to the package root.
    pub entry_targets: Vec<String>,
}

/// `tsconfig.json` resolution settings.
#[derive(Debug)]
pub struct TsConfig {
    pub base_url: Option<String>,
    pub paths: Vec<(String, Vec<String>)>,
}

/// `pyproject.toml` fields.
#[derive(Debug)]
pub struct PyProject {
    pub name: Option<String>,
    pub dependencies: Vec<String>,
    /// `module.path` targets from `[project.scripts]` (the `:attr` part dropped).
    pub script_modules: Vec<String>,
    /// True if the package has a `src/` directory.
    pub src_layout: bool,
}

/// The end of a `/* */` comment whose body starts at `k - 1`: the first
/// position `k' >= k` holding the closing `/` after a `*`, else the length.
pub open spec fn block_end(s: Seq<char>, k: int) -> int
    decreases s.len() - k,
{
    if k < 1 || k >= s.len() {
        s.len() as int
    } else if s[k - 1] == '*' && s[k] == '/' {
        k
    } else {
        block_end(s, k + 1)
    }
}

/// `s[i..]` with `//` and `/* */` comments removed, string literals kept
/// intact; `in_str` and `esc` tell whether `i` is inside a string literal and
/// right after a backslash there. A line comment keeps its newline.
pub open spec fn uncommented(s: Seq<char>, i: int, in_str: bool, esc: bool) -> Seq<char>
    decreases s.len() - i,
{
    if i < 0 || i >= s.len() {
        Seq::empty()
    } else if in_str {
        let c = s[i];
        seq![c] + if esc {
            uncommented(s, i + 1, true, false)
        } else if c == '\\' {
            uncommented(s, i + 1, true, true)
        } else if c == '"' {
            uncommented(s, i + 1, false, false)
        } else {
            uncommented(s, i + 1, true, false)
        }
    } else {
        let c = s[i];
        if c == '"' {
            seq![c] + uncommented(s, i + 1, true, false)
        } else if c == '/' && i + 1 < s.len() && s[i + 1] == '/' {
            let j = find_either(s, '\n', '\n', i + 2);
            proof { lemma_find_either(s, '\n', '\n', i + 2); }
            if j < s.len() { seq!['\n'] + uncommented(s, j + 1, false, false) } else { Seq::empty() }
        } else if c == '/' && i + 1 < s.len() && s[i + 1] == '*' {
            let j = block_end(s, i + 3);
            proof { lemma_block_end(s, i + 3); }
            if j < s.len() { uncommented(s, j + 1, false, false) } else { Seq::empty() }
        } else {
            seq![c] + uncommented(s, i + 1, false, false)
        }
    }
}

pub proof fn lemma_block_end(s: Seq<char>, k: int)
    requires
        1 <= k,
    ensures
        k <= block_end(s, k) || block_end(s, k) == s.len(),
        block_end(s, k) <= s.len(),
    decreases s.len() - k,
{
    if k < s.len() && !(s[k - 1] == '*' && s[k] == '/') {
        lemma_block_end(s, k + 1);
    }
}

/// The text with `//` and `/* */` comments removed, so that a JSONC
/// `tsconfig.json` parses as JSON; string literals are left intact.
pub fn strip_jsonc(text: &str) -> (r: String)
    ensures
        r@ == uncommented(text@, 0, false, false),
{
    let s = chars_of(text);
    let ghost sv = s@;
    let mut out: Vec<char> = Vec::new();
    let mut i: usize = 0;
    let mut in_str = false;
    let mut esc = false;
    while i < s.len()
        invariant
            sv == s@,
            sv == text@,
            i <= s@.len(),
            !in_str ==> !esc,
            out@ + uncommented(sv, i as int, in_str, esc) == uncommented(sv, 0, false, false),
        decreases s@.len() - i,
    {
        let c = s[i];
        let ghost before = out@;
        let ghost i0 = i as int;
        let ghost s0 = in_str;
        let ghost e0 = esc;
        if in_str {
            out.push(c);
            if esc {
                esc = false;
            } else if c == '\\' {
                esc = true;
            } else if c == '"' {
                in_str = false;
            }
            i += 1;
            assert(out@ + uncommented(sv, i as int, in_str, esc) =~= before + uncommented(sv, i0, s0, e0));
        } else if c == '"' {
            out.push(c);
            in_str = true;
            i += 1;
        } else if c == '/' && i + 1 < s.len() && s[i + 1] == '/' {
            let j = find_either_from(&s, '\n', '\n', i + 2);
            if j < s.len() {
                out.push('\n');
                i = j + 1;
            } else {
                i = s.len();
            }
            assert(out@ + uncommented(sv, i as int, in_str, esc) =~= before + uncommented(sv, i0, s0, e0));
        } else if c == '/' && i + 1 < s.len() && s[i + 1] == '*' {
            let mut k = i + 2;
            if k < s.len() {
                k = k + 1;
            }
            assert(k == i + 3 || (k == i + 2 && k == s@.len()));
            while k < s.len() && !(s[k - 1] == '*' && s[k] == '/')
                invariant
                    i + 2 <= k,
                    k == i + 2 ==> k == s@.len(),
                    i + 1 < s@.len(),
                    sv == s@,
                    block_end(sv, i + 3) == block_end(sv, k as int),
                decreases s@.len() - k,
            {
                k += 1;
            }
            assert(k < s@.len() ==> block_end(sv, k as int) == k);
            assert(k >= s@.len() ==> block_end(sv, i + 3) == sv.len());
            if k < s.len() {
                i = k + 1;
            } else {
                i = s.len();
            }
            assert(out@ + uncommented(sv, i as int, in_str, esc) =~= before + uncommented(sv, i0, s0, e0));
        } else {
            out.push(c);
            i += 1;
        }
        assert(out@ + uncommented(sv, i as int, in_str, esc) =~= before + uncommented(sv, i0, s0, e0));
    }
    assert(out@ =~= uncommented(sv, 0, false, false));
    string_from(out.as_slice())
}

/// The distribution a PEP 508 requirement names (`fastapi>=0.100` names
/// `fastapi`, `uvicorn[standard]` names `uvicorn`).
pub fn dep_name(spec: &str) -> (r: String)
    ensures
        r@ == requirement_name(spec@),
{
    let v = chars_of(spec);
    let (a, b) = trim_bounds(&v, 0, v.len());
    assert(v@.subrange(0, v@.len() as int) =~= v@);
    let ghost t = trim(spec@);
    let mut i = a;
    while i < b && !(v[i] == ' ' || v[i] == '<' || v[i] == '>' || v[i] == '=' || v[i] == '!'
        || v[i] == '~' || v[i] == ';' || v[i] == '[' || v[i] == '(')
        invariant
            a <= i <= b <= v@.len(),
            v@ == spec@,
            t == v@.subrange(a as int, b as int),
            crate::fix::manifest::name_stop(t, 0) == crate::fix::manifest::name_stop(t, i - a),
        decreases b - i,
    {
        i += 1;
    }
    proof { crate::fix::manifest::lemma_name_stop(t, 0); }
    assert(t.take(crate::fix::manifest::name_stop(t, 0)) =~= v@.subrange(a as int, i as int));
    let (c, d) = trim_bounds(&v, a, i);
    let name = string_from(&v.as_slice()[c..d]);
    assert(name@ =~= v@.subrange(c as int, d as int));
    name
}

/// A dotted module path as a path (`pkg.sub.mod` to `pkg/sub/mod`).
pub open spec fn dots_to_slashes(s: Seq<char>) -> Seq<char> {
    s.map_values(|c: char| if c == '.' { '/' } else { c })
}

/// `s` with every trailing repetition of `suf` removed.
pub open spec fn strip_all_suffix(s: Seq<char>, suf: Seq<char>) -> Seq<char>
    decreases s.len(),
{
    if suf.len() > 0 && ends_with(s, suf) { strip_all_suffix(s.take(s.len() - suf.len()), suf) } else { s }
}

/// Where a manifest-declared entry target may live under the package root,
/// in the order they are tried: for Python `m.py` then `m/__main__.py`; else
/// the target itself, then its TypeScript sources beside a `.js`/`.cjs` build
/// output.
pub open spec fn entry_candidates(root: Seq<char>, target: Seq<char>, is_python: bool) -> Seq<Seq<char>> {
    if is_python {
        let rel = dots_to_slashes(target);
        seq![join(root, rel + ".py"@), join(root, rel + "/__main__.py"@)]
    } else {
        let stem = strip_all_suffix(strip_all_suffix(target, ".js"@), ".cjs"@);
        seq![join(root, target), join(root, stem + ".ts"@), join(root, stem + ".tsx"@), join(root, stem + ".mts"@)]
    }
}

fn strip_suffixes(v: &Vec<char>, suf: &str) -> (r: Vec<char>)
    ensures
        r@ == strip_all_suffix(v@, suf@),
{
    let n = suf.unicode_len();
    let mut cur: Vec<char> = Vec::new();
    let mut k: usize = 0;
    while k < v.len()
        invariant
            k <= v@.len(),
            cur@ == v@.take(k as int),
        decreases v@.len() - k,
    {
        cur.push(v[k]);
        assert(v@.take(k as int + 1) =~= v@.take(k as int).push(v@[k as int]));
        k += 1;
    }
    assert(v@.take(v@.len() as int) =~= v@);
    let mut upto = cur.len();
    while n > 0 && seq_ends_with(&cur, upto, suf)
        invariant
            upto <= cur@.len(),
            n == suf@.len(),
            strip_all_suffix(cur@.take(upto as int), suf@) == strip_all_suffix(v@, suf@),
        decreases upto,
    {
        assert(cur@.take(upto as int).take(upto - n) =~= cur@.take(upto - n));
        upto = upto - n;
    }
    let mut r: Vec<char> = Vec::new();
    let mut k: usize = 0;
    while k < upto
        invariant
            k <= upto <= cur@.len(),
            r@ == cur@.take(k as int),
        decreases upto - k,
    {
        r.push(cur[k]);
        assert(cur@.take(k as int + 1) =~= cur@.take(k as int).push(cur@[k as int]));
        k += 1;
    }
    r
}

/// The candidate paths of a manifest-declared entry target, in the order
/// they are tried.
pub fn entry_target_candidates(pkg_root: &str, target: &str, is_python: bool) -> (r: Vec<String>)
    ensures
        string_views(r@) == entry_candidates(pkg_root@, target@, is_python),
{
    let v = chars_of(target);
    let mut out: Vec<String> = Vec::new();
    if is_python {
        let mut rel: Vec<char> = Vec::new();
        let mut k: usize = 0;
        while k < v.len()
            invariant
                k <= v@.len(),
                rel@ == dots_to_slashes(v@.take(k as int)),
            decreases v@.len() - k,
        {
            rel.push(if v[k] == '.' { '/' } else { v[k] });
            assert(dots_to_slashes(v@.take(k as int + 1)) =~= dots_to_slashes(v@.take(k as int)).push(if v@[k as int] == '.' { '/' } else { v@[k as int] }));
            k += 1;
        }
        assert(v@.take(v@.len() as int) =~= v@);
        let r = string_from(rel.as_slice());
        let a = cat(r.as_str(), ".py");
        let b = cat(r.as_str(), "/__main__.py");
        out.push(join_path(pkg_root, a.as_str()));
        out.push(join_path(pkg_root, b.as_str()));
    } else {
        let s1 = strip_suffixes(&v, ".js");
        let s2 = strip_suffixes(&s1, ".cjs");
        let stem = string_from(s2.as_slice());
        out.push(join_path(pkg_root, target));
        let a = cat(stem.as_str(), ".ts");
        let b = cat(stem.as_str(), ".tsx");
        let c = cat(stem.as_str(), ".mts");
        out.push(join_path(pkg_root, a.as_str()));
        out.push(join_path(pkg_root, b.as_str()));
        out.push(join_path(pkg_root, c.as_str()));
    }
    assert(string_views(out@) =~= entry_candidates(pkg_root@, target@, is_python));
    out
}

/// The first candidate of a manifest-declared entry target that is among the
/// files `present`, if any.
pub fn resolve_entry_target(pkg_root: &str, target: &str, is_python: bool, present: &Vec<String>) -> (r: Option<String>)
    ensures
        ({
            let c = entry_candidates(pkg_root@, target@, is_python);
            match r {
                Some(p) => exists|i: int| 0 <= i < c.len() && c[i] == p@ && string_views(present@).contains(c[i])
                    && forall|j: int| 0 <= j < i ==> !string_views(present@).contains(#[trigger] c[j]),
                None => forall|j: int| 0 <= j < c.len() ==> !string_views(present@).contains(#[trigger] c[j]),
            }
        }),
{
    let cands = entry_target_candidates(pkg_root, target, is_python);
    let ghost c = string_views(cands@);
    let mut i: usize = 0;
    while i < cands.len()
        invariant
            i <= cands@.len(),
            c == string_views(cands@),
            c == entry_candidates(pkg_root@, target@, is_python),
            forall|j: int| 0 <= j < i ==> !string_views(present@).contains(#[trigger] c[j]),
        decreases cands@.len() - i,
    {
        if contains_view(present, cands[i].as_str()) {
            let r = copy_string(&cands[i]);
            assert(c[i as int] == r@ && string_views(present@).contains(c[i as int]));
            return Some(r);
        }
        i += 1;
    }
    None
}

/// The keys of a table value, in order; empty for anything else.
pub open spec fn table_keys(d: Option<Doc>) -> Seq<Seq<char>> {
    match d {
        Some(Doc::Table(t)) => t@.map_values(|e: (String, Doc)| e.0@),
        _ => Seq::empty(),
    }
}

/// The string values of a table value, in order; empty for anything else.
pub open spec fn table_strs(d: Option<Doc>) -> Seq<Seq<char>> {
    match d {
        Some(Doc::Table(t)) => strings_in(t@.map_values(|e: (String, Doc)| e.1)),
        _ => Seq::empty(),
    }
}

/// What `package.json` says: its name, the distinct names of its
/// dependencies of every kind, its workspace globs, and its `main` and `bin`
/// targets.
pub open spec fn package_json_of(doc: Doc) -> (Option<Seq<char>>, Seq<Seq<char>>, Seq<Seq<char>>, Seq<Seq<char>>) {
    let deps = union_in_order(union_in_order(union_in_order(union_in_order(Seq::empty(),
        table_keys(doc_get(doc, "dependencies"@))), table_keys(doc_get(doc, "devDependencies"@))),
        table_keys(doc_get(doc, "peerDependencies"@))), table_keys(doc_get(doc, "optionalDependencies"@)));
    let ws = match doc_get(doc, "workspaces"@) {
        Some(Doc::Array(a)) => strings_in(a@),
        Some(Doc::Table(t)) => str_elems(doc_get(Doc::Table(t), "packages"@)),
        _ => Seq::empty(),
    };
    let main = match doc_str(doc_get(doc, "main"@)) { Some(m) => seq![m], None => Seq::empty() };
    let bin = match doc_get(doc, "bin"@) {
        Some(Doc::Str(b)) => seq![b@],
        Some(Doc::Table(t)) => table_strs(Some(Doc::Table(t))),
        _ => Seq::empty(),
    };
    (doc_str(doc_get(doc, "name"@)), deps, ws, main + bin)
}

impl PackageJson {
    /// No facts: what a missing or malformed `package.json` yields.
    pub fn empty() -> (r: PackageJson)
        ensures
            r.name is None,
            r.dependencies@.len() == 0,
            r.workspaces@.len() == 0,
            r.entry_targets@.len() == 0,
    {
        PackageJson { name: None, dependencies: Vec::new(), workspaces: Vec::new(), entry_targets: Vec::new() }
    }
}

fn keys_into(d: Option<&Doc>, out: &mut Vec<String>)
    ensures
        string_views(final(out)@) == union_in_order(string_views(old(out)@), table_keys(match d { Some(x) => Some(*x), None => None })),
{
    match d {
        Some(Doc::Table(t)) => {
            let mut keys: Vec<String> = Vec::new();
            let mut i: usize = 0;
            while i < t.len()
                invariant
                    i <= t@.len(),
                    string_views(keys@) == t@.take(i as int).map_values(|e: (String, Doc)| e.0@),
                decreases t@.len() - i,
            {
                let ghost before = keys@;
                keys.push(copy_string(&t[i].0));
                assert(string_views(keys@) =~= string_views(before).push(t@[i as int].0@));
                assert(t@.take(i as int + 1).map_values(|e: (String, Doc)| e.0@) =~= t@.take(i as int).map_values(|e: (String, Doc)| e.0@).push(t@[i as int].0@));
                i += 1;
            }
            assert(t@.take(t@.len() as int) =~= t@);
            union_into(out, &keys);
        },
        _ => {},
    }
}

fn table_values_into(t: &Vec<(String, Doc)>, out: &mut Vec<String>)
    ensures
        string_views(final(out)@) == string_views(old(out)@) + strings_in(t@.map_values(|e: (String, Doc)| e.1)),
{
    let ghost vals = t@.map_values(|e: (String, Doc)| e.1);
    let ghost base = string_views(out@);
    let mut i: usize = 0;
    while i < t.len()
        invariant
            i <= t@.len(),
            vals == t@.map_values(|e: (String, Doc)| e.1),
            base == string_views(old(out)@),
            string_views(out@) == base + strings_in(vals.take(i as int)),
        decreases t@.len() - i,
    {
        proof {
            assert(vals.take(i as int + 1).drop_last() =~= vals.take(i as int));
            assert(vals.take(i as int + 1).last() == t@[i as int].1);
        }
        match &t[i].1 {
            Doc::Str(v) => {
                let ghost before = out@;
                out.push(copy_string(v));
                assert(string_views(out@) =~= string_views(before).push(v@));
            },
            _ => {},
        }
        i += 1;
    }
    assert(vals.take(vals.len() as int) =~= vals);
}

/// The facts a parsed `package.json` gives.
pub fn package_json_from_doc(doc: &Doc) -> (r: PackageJson)
    ensures
        ({
            let (name, deps, ws, targets) = package_json_of(*doc);
            &&& match r.name { Some(n) => name == Some(n@), None => name is None }
            &&& string_views(r.dependencies@) == deps
            &&& string_views(r.workspaces@) == ws
            &&& string_views(r.entry_targets@) == targets
        }),
{
    let name = match doc.get("name") {
        Some(n) => match n.as_str() {
            Some(s) => Some(owned(s)),
            None => None,
        },
        None => None,
    };
    let mut deps: Vec<String> = Vec::new();
    assert(string_views(deps@) =~= Seq::<Seq<char>>::empty());
    keys_into(doc.get("dependencies"), &mut deps);
    keys_into(doc.get("devDependencies"), &mut deps);
    keys_into(doc.get("peerDependencies"), &mut deps);
    keys_into(doc.get("optionalDependencies"), &mut deps);
    let workspaces = match doc.get("workspaces") {
        Some(w) => match w {
            Doc::Array(_) => string_elems(Some(w)),
            Doc::Table(_) => string_elems(w.get("packages")),
            _ => Vec::new(),
        },
        None => Vec::new(),
    };
    let mut targets: Vec<String> = Vec::new();
    match doc.get("main") {
        Some(m) => match m.as_str() {
            Some(s) => { targets.push(owned(s)); },
            None => {},
        },
        None => {},
    }
    let ghost mid = string_views(targets@);
    match doc.get("bin") {
        Some(b) => match b {
            Doc::Str(s) => { targets.push(copy_string(s)); },
            Doc::Table(t) => { table_values_into(t, &mut targets); },
            _ => {},
        },
        None => {},
    }
    let r = PackageJson { name, dependencies: deps, workspaces, entry_targets: targets };
    proof {
        let (n0, d0, w0, t0) = package_json_of(*doc);
        assert(string_views(r.entry_targets@) =~= t0);
        assert(string_views(r.workspaces@) =~= w0);
    }
    r
}

/// The path aliases of a `compilerOptions.paths` table, each with its string
/// targets (none for a value that is not an array).
pub open spec fn ts_paths_of(t: Seq<(String, Doc)>) -> Seq<(Seq<char>, Seq<Seq<char>>)> {
    t.map_values(|e: (String, Doc)| (e.0@, match e.1 {
        Doc::Array(a) => strings_in(a@),
        _ => Seq::empty(),
    }))
}

/// What a parsed `tsconfig.json` says: `compilerOptions.baseUrl` and
/// `compilerOptions.paths`.
pub open spec fn tsconfig_of(doc: Doc) -> (Option<Seq<char>>, Seq<(Seq<char>, Seq<Seq<char>>)>) {
    match doc_get(doc, "compilerOptions"@) {
        None => (None, Seq::empty()),
        Some(co) => (
            doc_str(doc_get(co, "baseUrl"@)),
            match doc_get(co, "paths"@) {
                Some(Doc::Table(t)) => ts_paths_of(t@),
                _ => Seq::empty(),
            },
        ),
    }
}

/// The resolution settings of a parsed `tsconfig.json`.
pub fn tsconfig_from_doc(doc: &Doc) -> (r: TsConfig)
    ensures
        match r.base_url { Some(b) => tsconfig_of(*doc).0 == Some(b@), None => tsconfig_of(*doc).0 is None },
        r.paths@.map_values(|e: (String, Vec<String>)| (e.0@, string_views(e.1@))) == tsconfig_of(*doc).1,
{
    let mut out = TsConfig { base_url: None, paths: Vec::new() };
    let co = match doc.get("compilerOptions") {
        None => {
            assert(out.paths@.map_values(|e: (String, Vec<String>)| (e.0@, string_views(e.1@))) =~= Seq::<(Seq<char>, Seq<Seq<char>>)>::empty());
            return out;
        },
        Some(co) => co,
    };
    out.base_url = match co.get("baseUrl") {
        Some(b) => match b.as_str() {
            Some(s) => Some(owned(s)),
            None => None,
        },
        None => None,
    };
    match co.get("paths") {
        Some(Doc::Table(t)) => {
            let ghost want = ts_paths_of(t@);
            let mut i: usize = 0;
            while i < t.len()
                invariant
                    i <= t@.len(),
                    want == ts_paths_of(t@),
                    match out.base_url { Some(b) => tsconfig_of(*doc).0 == Some(b@), None => tsconfig_of(*doc).0 is None },
                    out.paths@.map_values(|e: (String, Vec<String>)| (e.0@, string_views(e.1@))) == want.take(i as int),
                decreases t@.len() - i,
            {
                let targets = match &t[i].1 {
                    Doc::Array(_) => string_elems(Some(&t[i].1)),
                    _ => {
                        let v: Vec<String> = Vec::new();
                        assert(string_views(v@) =~= Seq::<Seq<char>>::empty());
                        v
                    },
                };
                let ghost before = out.paths@;
                out.paths.push((copy_string(&t[i].0), targets));
                assert(out.paths@.map_values(|e: (String, Vec<String>)| (e.0@, string_views(e.1@)))
                    =~= before.map_values(|e: (String, Vec<String>)| (e.0@, string_views(e.1@))).push(want[i as int]));
                assert(want.take(i as int + 1) =~= want.take(i as int).push(want[i as int]));
                i += 1;
            }
            assert(want.take(want.len() as int) =~= want);
        },
        _ => {
            assert(out.paths@.map_values(|e: (String, Vec<String>)| (e.0@, string_views(e.1@))) =~= Seq::<(Seq<char>, Seq<Seq<char>>)>::empty());
        },
    }
    out
}

/// The module part of a `[project.scripts]` target (`pkg.cli:main` gives `pkg.cli`).
pub open spec fn script_module(target: Seq<char>) -> Seq<char> {
    target.take(find_either(target, ':', ':', 0))
}

/// The names other than `python`, in order.
pub open spec fn but_python(ks: Seq<Seq<char>>) -> Seq<Seq<char>>
    decreases ks.len(),
{
    if ks.len() == 0 {
        Seq::empty()
    } else {
        but_python(ks.drop_last()) + if ks.last() == "python"@ { Seq::empty() } else { seq![ks.last()] }
    }
}

/// The keys of a table value other than `python`, in order.
pub open spec fn keys_but_python(d: Option<Doc>) -> Seq<Seq<char>> {
    but_python(table_keys(d))
}

/// What a parsed `pyproject.toml` says: the project name, the distinct names
/// of its `project.dependencies` requirements and of its Poetry dependencies
/// (but `python`), and the modules of its scripts.
pub open spec fn pyproject_of(doc: Doc) -> (Option<Seq<char>>, Seq<Seq<char>>, Seq<Seq<char>>) {
    let project = doc_get(doc, "project"@);
    let reqs = str_elems(opt_get(project, "dependencies"@)).map_values(|s: Seq<char>| requirement_name(s));
    let poetry = keys_but_python(opt_get(opt_get(doc_get(doc, "tool"@), "poetry"@), "dependencies"@));
    let scripts = table_strs(opt_get(project, "scripts"@)).map_values(|t: Seq<char>| script_module(t));
    (doc_str(opt_get(project, "name"@)), union_in_order(union_in_order(Seq::empty(), reqs), poetry), scripts)
}

/// The facts a parsed `pyproject.toml` gives; `src_layout` tells whether
/// the package has a `src/` directory.
pub fn pyproject_from_doc(doc: &Doc, src_layout: bool) -> (r: PyProject)
    ensures
        ({
            let (name, deps, scripts) = pyproject_of(*doc);
            &&& match r.name { Some(n) => name == Some(n@), None => name is None }
            &&& string_views(r.dependencies@) == deps
            &&& string_views(r.script_modules@) == scripts
            &&& r.src_layout == src_layout
        }),
{
    let project = doc.get("project");
    let name = match crate::doc::opt_doc_get(project, "name") {
        Some(n) => match n.as_str() {
            Some(s) => Some(owned(s)),
            None => None,
        },
        None => None,
    };
    let specs = string_elems(crate::doc::opt_doc_get(project, "dependencies"));
    let mut reqs: Vec<String> = Vec::new();
    let mut i: usize = 0;
    while i < specs.len()
        invariant
            i <= specs@.len(),
            string_views(reqs@) == string_views(specs@).take(i as int).map_values(|s: Seq<char>| requirement_name(s)),
        decreases specs@.len() - i,
    {
        let ghost before = reqs@;
        reqs.push(dep_name(specs[i].as_str()));
        assert(string_views(reqs@) =~= string_views(before).push(requirement_name(specs@[i as int]@)));
        assert(string_views(specs@).take(i as int + 1).map_values(|s: Seq<char>| requirement_name(s))
            =~= string_views(specs@).take(i as int).map_values(|s: Seq<char>| requirement_name(s)).push(requirement_name(specs@[i as int]@)));
        i += 1;
    }
    assert(string_views(specs@).take(specs@.len() as int) =~= string_views(specs@));
    let mut deps: Vec<String> = Vec::new();
    assert(string_views(deps@) =~= Seq::<Seq<char>>::empty());
    union_into(&mut deps, &reqs);
    let poetry = crate::doc::opt_doc_get(crate::doc::opt_doc_get(doc.get("tool"), "poetry"), "dependencies");
    let mut keys: Vec<String> = Vec::new();
    match poetry {
        Some(Doc::Table(t)) => {
            let mut i: usize = 0;
            while i < t.len()
                invariant
                    i <= t@.len(),
                    string_views(keys@) == but_python(t@.take(i as int).map_values(|e: (String, Doc)| e.0@)),
                decreases t@.len() - i,
            {
                proof {
                    let ks = t@.take(i as int + 1).map_values(|e: (String, Doc)| e.0@);
                    assert(ks.drop_last() =~= t@.take(i as int).map_values(|e: (String, Doc)| e.0@));
                    assert(ks.last() == t@[i as int].0@);
                }
                if !str_is(t[i].0.as_str(), "python") {
                    let ghost before = keys@;
                    keys.push(copy_string(&t[i].0));
                    assert(string_views(keys@) =~= string_views(before).push(t@[i as int].0@));
                }
                i += 1;
            }
            assert(t@.take(t@.len() as int) =~= t@);
        },
        _ => {
            assert(string_views(keys@) =~= Seq::<Seq<char>>::empty());
        },
    }
    union_into(&mut deps, &keys);
    let mut targets: Vec<String> = Vec::new();
    match crate::doc::opt_doc_get(project, "scripts") {
        Some(Doc::Table(t)) => { table_values_into(t, &mut targets); },
        _ => {},
    }
    assert(string_views(targets@) =~= table_strs(opt_get(doc_get(*doc, "project"@), "scripts"@)));
    let mut scripts: Vec<String> = Vec::new();
    let mut i: usize = 0;
    while i < targets.len()
        invariant
            i <= targets@.len(),
            string_views(scripts@) == string_views(targets@).take(i as int).map_values(|t: Seq<char>| script_module(t)),
        decreases targets@.len() - i,
    {
        let v = chars_of(targets[i].as_str());
        let j = find_either_from(&v, ':', ':', 0);
        let m = string_from(&v.as_slice()[0..j]);
        assert(m@ =~= script_module(targets@[i as int]@));
        let ghost before = scripts@;
        scripts.push(m);
        assert(string_views(scripts@) =~= string_views(before).push(script_module(targets@[i as int]@)));
        assert(string_views(targets@).take(i as int + 1).map_values(|t: Seq<char>| script_module(t))
            =~= string_views(targets@).take(i as int).map_values(|t: Seq<char>| script_module(t)).push(script_module(targets@[i as int]@)));
        i += 1;
    }
    assert(string_views(targets@).take(targets@.len() as int) =~= string_views(targets@));
    PyProject { name, dependencies: deps, script_modules: scripts, src_layout }
}

/// The document a manifest text holds, `Null` where it does not parse.
pub open spec fn or_null(d: Option<Doc>) -> Doc {
    match d {
        Some(x) => x,
        None => Doc::Null,
    }
}

/// The facts a `package.json` text gives; none where it is no JSON.
pub fn parse_package_json(text: &str) -> (r: PackageJson)
    ensures
        ({
            let (name, deps, ws, targets) = package_json_of(or_null(json_doc_of(text@)));
            &&& match r.name { Some(n) => name == Some(n@), None => name is None }
            &&& string_views(r.dependencies@) == deps
            &&& string_views(r.workspaces@) == ws
            &&& string_views(r.entry_targets@) == targets
        }),
{
    match parse_json(text) {
        Some(d) => package_json_from_doc(&d),
        None => package_json_from_doc(&Doc::Null),
    }
}

/// The resolution settings a `tsconfig.json` text gives, its `//` and
/// `/* */` comments stripped first; none where it is no JSON then.
pub fn parse_tsconfig(text: &str) -> (r: TsConfig)
    ensures
        ({
            let d = or_null(json_doc_of(uncommented(text@, 0, false, false)));
            &&& match r.base_url { Some(b) => tsconfig_of(d).0 == Some(b@), None => tsconfig_of(d).0 is None }
            &&& r.paths@.map_values(|e: (String, Vec<String>)| (e.0@, string_views(e.1@))) == tsconfig_of(d).1
        }),
{
    let cleaned = strip_jsonc(text);
    match parse_json(cleaned.as_str()) {
        Some(d) => tsconfig_from_doc(&d),
        None => tsconfig_from_doc(&Doc::Null),
    }
}

/// The facts a `pyproject.toml` text gives; `src_layout` tells whether the
/// package has a `src/` directory. None (and no `src` layout) where the text
/// is no TOML.
pub fn parse_pyproject(text: &str, src_layout: bool) -> (r: PyProject)
    ensures
        ({
            let (name, deps, scripts) = pyproject_of(or_null(toml_doc_of(text@)));
            &&& match r.name { Some(n) => name == Some(n@), None => name is None }
            &&& string_views(r.dependencies@) == deps
            &&& string_views(r.script_modules@) == scripts
            &&& r.src_layout == (src_layout && toml_doc_of(text@) is Some)
        }),
{
    match parse_toml(text) {
        Some(d) => pyproject_from_doc(&d, src_layout),
        None => pyproject_from_doc(&Doc::Null, false),
    }
}

} // verus!
