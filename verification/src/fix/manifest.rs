//! Removing an unused dependency from `package.json` or `pyproject.toml`.
//! The text is read into a `Doc` and written back by `doc_text`; the choice
//! of manifest, the dependency sections, the match of a PEP 508 requirement
//! against a package name, the edit and the outcome are this module's.

use vstd::prelude::*;
use vstd::string::*;
use crate::doc::{key_slot, lemma_key_slot, Doc};
use crate::order::{contains_view, string_views};
use crate::path::{file_name, file_name_of};
use crate::scan::trim;
use crate::text::{cat, cat3, owned, str_is};
use crate::doc_text::{json_doc_of, json_pretty_of, parse_json, parse_toml, render_json, render_toml, toml_doc_of, toml_pretty_of};

verus! {

/// Why a dependency could not be removed.
#[derive(Debug)]
pub enum ManifestEditError {
    /// The file is neither `package.json` nor `pyproject.toml`.
    Unsupported { name: String },
    /// The manifest does not parse as `syntax` (JSON or TOML).
    Invalid { file: String, syntax: String },
    /// No dependency section names the package.
    NotFound { dep: String, file: String },
    /// The edited document could not be rendered again; `reason` is what the
    /// renderer said.
    Render { file: String, reason: String },
}

impl ManifestEditError {
    /// The human-readable message.
    pub fn message(&self) -> (r: String)
        ensures
            r@ == match *self {
                ManifestEditError::Unsupported { name } => "unsupported manifest '"@ + name@ + "' for dependency removal"@,
                ManifestEditError::Invalid { file, syntax } => file@ + " is not valid "@ + syntax@,
                ManifestEditError::NotFound { dep, file } => "dependency '"@ + dep@ + "' not found in "@ + file@,
                ManifestEditError::Render { file, reason } => reason@,
            },
    {
        match self {
            ManifestEditError::Unsupported { name } => cat3("unsupported manifest '", name.as_str(), "' for dependency removal"),
            ManifestEditError::Invalid { file, syntax } => cat3(file.as_str(), " is not valid ", syntax.as_str()),
            ManifestEditError::NotFound { dep, file } => {
                let a = cat3("dependency '", dep.as_str(), "' not found in ");
                cat(a.as_str(), file.as_str())
            },
            ManifestEditError::Render { reason, .. } => owned(reason.as_str()),
        }
    }
}

/// The characters that end the package name of a PEP 508 requirement.
pub open spec fn name_end(c: char) -> bool {
    c == ' ' || c == '<' || c == '>' || c == '=' || c == '!' || c == '~' || c == ';' || c == '[' || c == '('
}

/// The index of the first name-ending character at or after `i`, else the length.
pub open spec fn name_stop(s: Seq<char>, i: int) -> int
    decreases s.len() - i,
{
    if i < 0 || i >= s.len() {
        if i < 0 { 0 } else { s.len() as int }
    } else if name_end(s[i]) {
        i
    } else {
        name_stop(s, i + 1)
    }
}

/// The package a requirement string names: the trimmed text before the first
/// version, marker or extras character.
pub open spec fn requirement_name(spec: Seq<char>) -> Seq<char> {
    let t = trim(spec);
    trim(t.take(name_stop(t, 0)))
}

pub proof fn lemma_name_stop(s: Seq<char>, i: int)
    requires
        0 <= i <= s.len(),
    ensures
        i <= name_stop(s, i) <= s.len(),
    decreases s.len() - i,
{
    if i < s.len() && !name_end(s[i]) {
        lemma_name_stop(s, i + 1);
    }
}

/// Does the requirement `spec` name the package `dep`?
pub fn requirement_names(spec: &str, dep: &str) -> (r: bool)
    ensures
        r == (requirement_name(spec@) == dep@),
{
    let name = crate::discover::manifest::dep_name(spec);
    str_is(name.as_str(), dep)
}

// ── the edit, over the parsed document ───────────────────────────────────────

/// `t` has an entry keyed `key`.
pub open spec fn has_key(t: Seq<(String, Doc)>, key: Seq<char>) -> bool {
    exists|i: int| 0 <= i < t.len() && (#[trigger] t[i]).0@ == key
}

/// The entries of `t` but those keyed `key`, in order.
pub open spec fn without_key(t: Seq<(String, Doc)>, key: Seq<char>) -> Seq<(String, Doc)>
    decreases t.len(),
{
    if t.len() == 0 {
        Seq::empty()
    } else {
        without_key(t.drop_last(), key) + if t.last().0@ == key { Seq::empty() } else { seq![t.last()] }
    }
}

/// A requirement string whose package is `dep`.
pub open spec fn names_dep(e: Doc, dep: Seq<char>) -> bool {
    match e {
        Doc::Str(s) => requirement_name(s@) == dep,
        _ => false,
    }
}

/// The elements of `a` but the requirements of `dep`, in order.
pub open spec fn without_requirement(a: Seq<Doc>, dep: Seq<char>) -> Seq<Doc>
    decreases a.len(),
{
    if a.len() == 0 {
        Seq::empty()
    } else {
        without_requirement(a.drop_last(), dep) + if names_dep(a.last(), dep) { Seq::empty() } else { seq![a.last()] }
    }
}

/// What the edit does to one value it reaches: drop a table member, drop
/// requirement strings from an array, go into `tool.poetry`, or, at the top
/// of `pyproject.toml`, go into `project` or `tool`.
#[derive(Debug, Clone, Copy)]
pub enum EditStep {
    Members,
    Requirements,
    Poetry,
    PyProject,
}

pub open spec fn step_level(s: EditStep) -> nat {
    match s {
        EditStep::Members => 0,
        EditStep::Requirements => 0,
        EditStep::Poetry => 1,
        EditStep::PyProject => 2,
    }
}

/// Entry `i` is the first entry of `t` under one of `keys`: the one a lookup
/// of that key finds.
pub open spec fn is_slot(t: Seq<(String, Doc)>, keys: Seq<Seq<char>>, i: int) -> bool {
    exists|k: int| 0 <= k < keys.len() && key_slot(t, keys[k], 0) == i
}

/// `after` is `before` with the step applied to the value under each of
/// `keys` (a table; anything else is left as it is).
pub open spec fn table_edited(before: Doc, after: Doc, keys: Seq<Seq<char>>, step: EditStep, dep: Seq<char>) -> bool
    decreases step_level(step), 2nat,
{
    match before {
        Doc::Table(t) => match after {
            Doc::Table(u) => slots_edited(t@, u@, keys, step, dep),
            _ => false,
        },
        _ => after == before,
    }
}

/// `u` is `t` with the step applied to the value of each slot of `keys`,
/// every other entry unchanged.
pub open spec fn slots_edited(t: Seq<(String, Doc)>, u: Seq<(String, Doc)>, keys: Seq<Seq<char>>, step: EditStep, dep: Seq<char>) -> bool
    decreases step_level(step), 1nat,
{
    &&& u.len() == t.len()
    &&& forall|i: int| 0 <= i < t.len() ==> {
        &&& (#[trigger] u[i]).0 == t[i].0
        &&& if is_slot(t, keys, i) { step_edited(step, dep, t[i].0@, t[i].1, u[i].1) } else { u[i].1 == t[i].1 }
    }
}

/// What the step makes of the value `before` found under `key`.
pub open spec fn step_edited(step: EditStep, dep: Seq<char>, key: Seq<char>, before: Doc, after: Doc) -> bool
    decreases step_level(step), 0nat,
{
    match step {
        EditStep::Members => match before {
            Doc::Table(t) => match after {
                Doc::Table(u) => u@ == without_key(t@, dep),
                _ => false,
            },
            _ => after == before,
        },
        EditStep::Requirements => match before {
            Doc::Array(a) => match after {
                Doc::Array(b) => b@ == without_requirement(a@, dep),
                _ => false,
            },
            _ => after == before,
        },
        EditStep::Poetry => table_edited(before, after, seq!["dependencies"@], EditStep::Members, dep),
        EditStep::PyProject => if key == "project"@ {
            table_edited(before, after, seq!["dependencies"@], EditStep::Requirements, dep)
        } else {
            table_edited(before, after, seq!["poetry"@], EditStep::Poetry, dep)
        },
    }
}

/// Some value under one of `keys` holds `dep` as the step reads it.
pub open spec fn table_found(d: Doc, keys: Seq<Seq<char>>, step: EditStep, dep: Seq<char>) -> bool
    decreases step_level(step), 2nat,
{
    match d {
        Doc::Table(t) => slots_found(t@, keys, step, dep),
        _ => false,
    }
}

pub open spec fn slots_found(t: Seq<(String, Doc)>, keys: Seq<Seq<char>>, step: EditStep, dep: Seq<char>) -> bool
    decreases step_level(step), 1nat,
{
    exists|i: int| 0 <= i < t.len() && is_slot(t, keys, i) && step_found(step, dep, (#[trigger] t[i]).0@, t[i].1)
}

/// The value found under `key` holds `dep` as the step reads it.
pub open spec fn step_found(step: EditStep, dep: Seq<char>, key: Seq<char>, d: Doc) -> bool
    decreases step_level(step), 0nat,
{
    match step {
        EditStep::Members => match d {
            Doc::Table(t) => has_key(t@, dep),
            _ => false,
        },
        EditStep::Requirements => match d {
            Doc::Array(a) => exists|i: int| 0 <= i < a@.len() && names_dep(#[trigger] a@[i], dep),
            _ => false,
        },
        EditStep::Poetry => table_found(d, seq!["dependencies"@], EditStep::Members, dep),
        EditStep::PyProject => if key == "project"@ {
            table_found(d, seq!["dependencies"@], EditStep::Requirements, dep)
        } else {
            table_found(d, seq!["poetry"@], EditStep::Poetry, dep)
        },
    }
}

/// The dependency sections of `package.json`.
pub open spec fn json_sections() -> Seq<Seq<char>> {
    seq!["dependencies"@, "devDependencies"@, "peerDependencies"@, "optionalDependencies"@]
}

/// The tables of `pyproject.toml` the edit goes into: `project` (for its
/// `dependencies` array) and `tool` (for `poetry.dependencies`).
pub open spec fn pyproject_sections() -> Seq<Seq<char>> {
    seq!["project"@, "tool"@]
}

/// `key_slot` finds the first entry with the key.
proof fn lemma_first_slot(t: Seq<(String, Doc)>, key: Seq<char>, s: int, i: int)
    requires
        0 <= s <= i < t.len(),
    ensures
        key_slot(t, key, s) == i <==> (t[i].0@ == key && forall|j: int| s <= j < i ==> t[j].0@ != key),
    decreases i - s,
{
    if s < i {
        lemma_first_slot(t, key, s + 1, i);
        if t[s].0@ == key {
            assert(key_slot(t, key, s) == s);
            assert(!(forall|j: int| s <= j < i ==> t[j].0@ != key));
        }
    } else if t[i].0@ != key {
        lemma_slot_after(t, key, i + 1);
    }
}

/// A lookup from `s` finds nothing or an entry at or after `s`.
proof fn lemma_slot_after(t: Seq<(String, Doc)>, key: Seq<char>, s: int)
    requires
        0 <= s,
    ensures
        key_slot(t, key, s) == -1 || key_slot(t, key, s) >= s,
    decreases t.len() - s,
{
    if s < t.len() && t[s].0@ != key {
        lemma_slot_after(t, key, s + 1);
    }
}

/// Entry `k` is a slot exactly when its key is one of `keys` and no earlier
/// entry has that key.
proof fn lemma_is_slot(t: Seq<(String, Doc)>, keys: Seq<Seq<char>>, k: int)
    requires
        0 <= k < t.len(),
    ensures
        is_slot(t, keys, k) <==> (keys.contains(t[k].0@) && forall|j: int| 0 <= j < k ==> t[j].0@ != t[k].0@),
{
    if is_slot(t, keys, k) {
        let q = choose|q: int| 0 <= q < keys.len() && key_slot(t, keys[q], 0) == k;
        lemma_first_slot(t, keys[q], 0, k);
    }
    if keys.contains(t[k].0@) && forall|j: int| 0 <= j < k ==> t[j].0@ != t[k].0@ {
        let q = choose|q: int| 0 <= q < keys.len() && keys[q] == t[k].0@;
        lemma_first_slot(t, keys[q], 0, k);
    }
}

fn has_earlier(out: &Vec<(String, Doc)>, name: &str) -> (r: bool)
    ensures
        r == exists|j: int| 0 <= j < out@.len() && (#[trigger] out@[j]).0@ == name@,
{
    let mut j: usize = 0;
    while j < out.len()
        invariant
            j <= out@.len(),
            forall|i: int| 0 <= i < j ==> (#[trigger] out@[i]).0@ != name@,
        decreases out@.len() - j,
    {
        if str_is(out[j].0.as_str(), name) {
            return true;
        }
        j += 1;
    }
    false
}

fn without_key_vec(t: Vec<(String, Doc)>, key: &str) -> (r: (Vec<(String, Doc)>, bool))
    ensures
        r.0@ == without_key(t@, key@),
        r.1 == has_key(t@, key@),
{
    let ghost orig = t@;
    let mut rest = t;
    let mut out: Vec<(String, Doc)> = Vec::new();
    let mut found = false;
    let n = rest.len();
    let mut k: usize = 0;
    while k < n
        invariant
            n == orig.len(),
            k <= n,
            rest@ == orig.skip(k as int),
            out@ == without_key(orig.take(k as int), key@),
            found == has_key(orig.take(k as int), key@),
        decreases n - k,
    {
        let ghost before = rest@;
        let e = rest.remove(0);
        assert(e == orig[k as int]);
        assert(rest@ =~= orig.skip(k + 1));
        let ghost p = orig.take(k + 1);
        assert(p.drop_last() =~= orig.take(k as int));
        assert(p.last() == e);
        if str_is(e.0.as_str(), key) {
            found = true;
            assert(p[k as int].0@ == key@);
            assert(has_key(p, key@));
        } else {
            assert(has_key(p, key@) == has_key(orig.take(k as int), key@)) by {
                if has_key(p, key@) {
                    let i = choose|i: int| 0 <= i < p.len() && (#[trigger] p[i]).0@ == key@;
                    assert(orig.take(k as int)[i] == p[i]);
                }
                if has_key(orig.take(k as int), key@) {
                    let i = choose|i: int| 0 <= i < k && (#[trigger] orig.take(k as int)[i]).0@ == key@;
                    assert(p[i] == orig.take(k as int)[i]);
                }
            }
            out.push(e);
        }
        k += 1;
    }
    assert(orig.take(n as int) =~= orig);
    (out, found)
}

fn names_dep_exec(e: &Doc, dep: &str) -> (r: bool)
    ensures
        r == names_dep(*e, dep@),
{
    match e {
        Doc::Str(s) => requirement_names(s.as_str(), dep),
        _ => false,
    }
}

fn without_requirement_vec(a: Vec<Doc>, dep: &str) -> (r: (Vec<Doc>, bool))
    ensures
        r.0@ == without_requirement(a@, dep@),
        r.1 == exists|i: int| 0 <= i < a@.len() && names_dep(#[trigger] a@[i], dep@),
{
    let ghost orig = a@;
    let mut rest = a;
    let mut out: Vec<Doc> = Vec::new();
    let mut found = false;
    let n = rest.len();
    let mut k: usize = 0;
    while k < n
        invariant
            n == orig.len(),
            k <= n,
            rest@ == orig.skip(k as int),
            out@ == without_requirement(orig.take(k as int), dep@),
            found == exists|i: int| 0 <= i < k && names_dep(#[trigger] orig[i], dep@),
        decreases n - k,
    {
        let e = rest.remove(0);
        assert(e == orig[k as int]);
        assert(rest@ =~= orig.skip(k + 1));
        let ghost p = orig.take(k + 1);
        assert(p.drop_last() =~= orig.take(k as int));
        assert(p.last() == e);
        if names_dep_exec(&e, dep) {
            found = true;
        } else {
            out.push(e);
        }
        k += 1;
    }
    assert(orig.take(n as int) =~= orig);
    (out, found)
}

fn key_list(a: &str) -> (r: Vec<String>)
    ensures
        string_views(r@) == seq![a@],
{
    let mut r: Vec<String> = Vec::new();
    r.push(owned(a));
    assert(string_views(r@) =~= seq![a@]);
    r
}

/// Applies the step to the value `v` found under `key`.
fn apply_step(step: EditStep, key: &str, v: Doc, dep: &str) -> (r: (Doc, bool))
    ensures
        step_edited(step, dep@, key@, v, r.0),
        r.1 == step_found(step, dep@, key@, v),
    decreases step_level(step), 0nat,
{
    proof { reveal_strlit("project"); reveal_strlit("dependencies"); reveal_strlit("poetry"); }
    match step {
        EditStep::Members => match v {
            Doc::Table(t) => {
                let (u, f) = without_key_vec(t, dep);
                (Doc::Table(u), f)
            },
            other => (other, false),
        },
        EditStep::Requirements => match v {
            Doc::Array(a) => {
                let (b, f) = without_requirement_vec(a, dep);
                (Doc::Array(b), f)
            },
            other => (other, false),
        },
        EditStep::Poetry => edit_table(v, &key_list("dependencies"), EditStep::Members, dep),
        EditStep::PyProject => if str_is(key, "project") {
            edit_table(v, &key_list("dependencies"), EditStep::Requirements, dep)
        } else {
            edit_table(v, &key_list("poetry"), EditStep::Poetry, dep)
        },
    }
}

/// Applies `step` to the values under `keys` of a table; anything else is
/// left as it is.
fn edit_table(v: Doc, keys: &Vec<String>, step: EditStep, dep: &str) -> (r: (Doc, bool))
    ensures
        table_edited(v, r.0, string_views(keys@), step, dep@),
        r.1 == table_found(v, string_views(keys@), step, dep@),
    decreases step_level(step), 2nat,
{
    match v {
        Doc::Table(t) => {
            let (u, f) = edit_slots(t, keys, step, dep);
            (Doc::Table(u), f)
        },
        other => (other, false),
    }
}

/// Applies `step` to the value of each slot of `keys` in the entries `t`.
fn edit_slots(t: Vec<(String, Doc)>, keys: &Vec<String>, step: EditStep, dep: &str) -> (r: (Vec<(String, Doc)>, bool))
    ensures
        slots_edited(t@, r.0@, string_views(keys@), step, dep@),
        r.1 == slots_found(t@, string_views(keys@), step, dep@),
    decreases step_level(step), 1nat,
{
    let ghost orig = t@;
    let ghost ks = string_views(keys@);
    let mut rest = t;
    let mut out: Vec<(String, Doc)> = Vec::new();
    let mut found = false;
    let n = rest.len();
    let mut k: usize = 0;
    while k < n
        invariant
            n == orig.len(),
            k <= n,
            ks == string_views(keys@),
            rest@ == orig.skip(k as int),
            out@.len() == k,
            forall|i: int| 0 <= i < k ==> {
                &&& (#[trigger] out@[i]).0 == orig[i].0
                &&& if is_slot(orig, ks, i) { step_edited(step, dep@, orig[i].0@, orig[i].1, out@[i].1) } else { out@[i].1 == orig[i].1 }
            },
            found == exists|i: int| 0 <= i < k && is_slot(orig, ks, i) && step_found(step, dep@, (#[trigger] orig[i]).0@, orig[i].1),
        decreases n - k,
    {
        let e = rest.remove(0);
        assert(e == orig[k as int]);
        assert(rest@ =~= orig.skip(k + 1));
        let (name, v) = e;
        let earlier = has_earlier(&out, name.as_str());
        let listed = contains_view(keys, name.as_str());
        proof {
            lemma_is_slot(orig, ks, k as int);
            if earlier {
                let j = choose|j: int| 0 <= j < out@.len() && (#[trigger] out@[j]).0@ == name@;
                assert(orig[j].0@ == orig[k as int].0@);
            } else {
                assert forall|j: int| 0 <= j < k implies orig[j].0@ != orig[k as int].0@ by {
                    assert(out@[j].0 == orig[j].0);
                }
            }
        }
        let ghost old_out = out@;
        if !earlier && listed {
            let (v2, f) = apply_step(step, name.as_str(), v, dep);
            found = found || f;
            out.push((name, v2));
        } else {
            out.push((name, v));
        }
        assert forall|i: int| 0 <= i < k implies #[trigger] out@[i] == old_out[i] by {}
        k += 1;
    }
    proof {
        assert(out@.len() == orig.len());
        assert(slots_edited(orig, out@, ks, step, dep@));
        if found {
            let i = choose|i: int| 0 <= i < k && is_slot(orig, ks, i) && step_found(step, dep@, (#[trigger] orig[i]).0@, orig[i].1);
            assert(0 <= i < orig.len() && is_slot(orig, ks, i) && step_found(step, dep@, orig[i].0@, orig[i].1));
        }
        assert(slots_found(orig, ks, step, dep@) == exists|i: int| 0 <= i < orig.len() && is_slot(orig, ks, i) && step_found(step, dep@, (#[trigger] orig[i]).0@, orig[i].1));
        if slots_found(orig, ks, step, dep@) {
            let i = choose|i: int| 0 <= i < orig.len() && is_slot(orig, ks, i) && step_found(step, dep@, (#[trigger] orig[i]).0@, orig[i].1);
            assert(0 <= i < k);
        }
        assert(found == slots_found(orig, ks, step, dep@));
    }
    (out, found)
}

/// Remove `dep` from the manifest at `path`, given parsed (`None` when its
/// text does not parse); the edited document. `remove_dependency` works on
/// the text. Only `package.json` (every
/// dependency section: `dependencies`, `devDependencies`,
/// `peerDependencies`, `optionalDependencies`) and `pyproject.toml` (the
/// `project.dependencies` requirements naming `dep`, and the
/// `tool.poetry.dependencies` entry) are supported.
pub fn remove_dependency_from_doc(path: &str, doc: Option<Doc>, dep: &str) -> (r: Result<Doc, ManifestEditError>)
    ensures
        file_name(path@) == "package.json"@ ==> match doc {
            None => r matches Err(ManifestEditError::Invalid { file, syntax }) && file@ == "package.json"@ && syntax@ == "JSON"@,
            Some(d) => if table_found(d, json_sections(), EditStep::Members, dep@) {
                r matches Ok(e) && table_edited(d, e, json_sections(), EditStep::Members, dep@)
            } else {
                r matches Err(ManifestEditError::NotFound { dep: x, file }) && x@ == dep@ && file@ == "package.json"@
            },
        },
        file_name(path@) == "pyproject.toml"@ ==> match doc {
            None => r matches Err(ManifestEditError::Invalid { file, syntax }) && file@ == "pyproject.toml"@ && syntax@ == "TOML"@,
            Some(d) => if table_found(d, pyproject_sections(), EditStep::PyProject, dep@) {
                r matches Ok(e) && table_edited(d, e, pyproject_sections(), EditStep::PyProject, dep@)
            } else {
                r matches Err(ManifestEditError::NotFound { dep: x, file }) && x@ == dep@ && file@ == "pyproject.toml"@
            },
        },
        file_name(path@) != "package.json"@ && file_name(path@) != "pyproject.toml"@ ==> match r {
            Err(ManifestEditError::Unsupported { name }) => name@ == file_name(path@),
            _ => false,
        },
{
    let name = file_name_of(path);
    proof {
        reveal_strlit("package.json");
        reveal_strlit("pyproject.toml");
        assert("package.json"@.len() != "pyproject.toml"@.len());
    }
    let (file, syntax, keys, step) = if str_is(name.as_str(), "package.json") {
        let mut keys: Vec<String> = Vec::new();
        keys.push(owned("dependencies"));
        keys.push(owned("devDependencies"));
        keys.push(owned("peerDependencies"));
        keys.push(owned("optionalDependencies"));
        assert(string_views(keys@) =~= json_sections());
        ("package.json", "JSON", keys, EditStep::Members)
    } else if str_is(name.as_str(), "pyproject.toml") {
        let mut keys: Vec<String> = Vec::new();
        keys.push(owned("project"));
        keys.push(owned("tool"));
        assert(string_views(keys@) =~= pyproject_sections());
        ("pyproject.toml", "TOML", keys, EditStep::PyProject)
    } else {
        return Err(ManifestEditError::Unsupported { name });
    };
    match doc {
        None => Err(ManifestEditError::Invalid { file: owned(file), syntax: owned(syntax) }),
        Some(d) => {
            let (e, found) = edit_table(d, &keys, step, dep);
            if found {
                Ok(e)
            } else {
                Err(ManifestEditError::NotFound { dep: owned(dep), file: owned(file) })
            }
        },
    }
}

/// Why a `pyproject.toml` could not be written back.
pub const NO_TOML_FORM: &'static str = "pyproject.toml holds a value TOML cannot write";

/// The document the manifest named `name` holds in `text`.
pub open spec fn manifest_doc(name: Seq<char>, text: Seq<char>) -> Option<Doc> {
    if name == "package.json"@ {
        json_doc_of(text)
    } else if name == "pyproject.toml"@ {
        toml_doc_of(text)
    } else {
        None
    }
}

/// The text an edited manifest is written back as (JSON printed with a
/// two-space indent, TOML pretty-printed, each with a closing newline), or
/// why it could not be.
pub open spec fn manifest_text(name: Seq<char>, e: Doc) -> Result<Seq<char>, Seq<char>> {
    if name == "package.json"@ {
        match json_pretty_of(e) {
            Ok(t) => Ok(t + "\n"@),
            Err(x) => Err(x),
        }
    } else {
        match toml_pretty_of(e) {
            None => Err(NO_TOML_FORM@),
            Some(Ok(t)) => Ok(t + "\n"@),
            Some(Err(x)) => Err(x),
        }
    }
}

/// What removing `dep` from the manifest `name` (parsed `d`) gives, once
/// the edited document is written back: the text, or the error.
pub open spec fn edit_outcome(name: Seq<char>, d: Doc, keys: Seq<Seq<char>>, step: EditStep, dep: Seq<char>, r: Result<String, ManifestEditError>) -> bool {
    if table_found(d, keys, step, dep) {
        exists|e: Doc| #[trigger] table_edited(d, e, keys, step, dep) && match manifest_text(name, e) {
            Ok(t) => r matches Ok(x) && x@ == t,
            Err(reason) => r matches Err(ManifestEditError::Render { file, reason: y }) && file@ == name && y@ == reason,
        }
    } else {
        r matches Err(ManifestEditError::NotFound { dep: x, file }) && x@ == dep && file@ == name
    }
}

/// Remove `dep` from the manifest at `path` whose text is `text`, and give
/// the new text. Only `package.json` (every dependency section) and
/// `pyproject.toml` (`project.dependencies` requirements naming `dep`, and
/// the `tool.poetry.dependencies` entry) are supported; a text that does not
/// parse, a dependency that is not there, and a document that cannot be
/// written back are errors.
pub fn remove_dependency(path: &str, text: &str, dep: &str) -> (r: Result<String, ManifestEditError>)
    ensures
        file_name(path@) == "package.json"@ ==> match json_doc_of(text@) {
            None => r matches Err(ManifestEditError::Invalid { file, syntax }) && file@ == "package.json"@ && syntax@ == "JSON"@,
            Some(d) => edit_outcome("package.json"@, d, json_sections(), EditStep::Members, dep@, r),
        },
        file_name(path@) == "pyproject.toml"@ ==> match toml_doc_of(text@) {
            None => r matches Err(ManifestEditError::Invalid { file, syntax }) && file@ == "pyproject.toml"@ && syntax@ == "TOML"@,
            Some(d) => edit_outcome("pyproject.toml"@, d, pyproject_sections(), EditStep::PyProject, dep@, r),
        },
        file_name(path@) != "package.json"@ && file_name(path@) != "pyproject.toml"@ ==> match r {
            Err(ManifestEditError::Unsupported { name }) => name@ == file_name(path@),
            _ => false,
        },
{
    let name = file_name_of(path);
    proof {
        reveal_strlit("package.json");
        reveal_strlit("pyproject.toml");
        reveal_strlit("\n");
        assert("package.json"@.len() != "pyproject.toml"@.len());
    }
    let json = str_is(name.as_str(), "package.json");
    let doc = if json {
        parse_json(text)
    } else if str_is(name.as_str(), "pyproject.toml") {
        parse_toml(text)
    } else {
        None
    };
    let e = match remove_dependency_from_doc(path, doc, dep) {
        Ok(e) => e,
        Err(x) => { return Err(x); },
    };
    let rendered = if json {
        render_json(&e)
    } else {
        match render_toml(&e) {
            None => Err(owned(NO_TOML_FORM)),
            Some(x) => x,
        }
    };
    let file = if json { owned("package.json") } else { owned("pyproject.toml") };
    match rendered {
        Ok(t) => Ok(cat(t.as_str(), "\n")),
        Err(reason) => Err(ManifestEditError::Render { file, reason }),
    }
}

} // verus!
