//! Declarative plugin schema: framework conventions as data — which packages
//! a plugin applies to, and the globs of entry, config and test files.

use vstd::prelude::*;
use vstd::string::*;
use crate::ids::{starts_with, Language};
use crate::order::{contains_view, string_views};
use crate::text::{copy_string, str_is};
use crate::workspace::Package;

verus! {

/// A glob of a plugin, relative to the package root.
#[derive(Debug)]
pub struct GlobRule {
    pub glob: String,
}

/// When a plugin activates for a package.
#[derive(Debug)]
pub struct DetectRule {
    /// Always contribute globs (used by `_fallback`).
    pub always: bool,
    pub dependency: Option<String>,
    pub dependencies: Vec<String>,
    pub file_exists: Option<String>,
    pub files_exist: Vec<String>,
    pub any: Vec<DetectRule>,
    pub all: Vec<DetectRule>,
}

impl Default for DetectRule {
    /// A rule with no condition (which holds).
    fn default() -> (r: DetectRule)
        ensures
            !r.always,
            r.dependency is None,
            r.dependencies@.len() == 0,
            r.file_exists is None,
            r.files_exist@.len() == 0,
            r.any@.len() == 0,
            r.all@.len() == 0,
    {
        DetectRule {
            always: false,
            dependency: None,
            dependencies: Vec::new(),
            file_exists: None,
            files_exist: Vec::new(),
            any: Vec::new(),
            all: Vec::new(),
        }
    }
}

/// One framework or tool plugin.
#[derive(Debug)]
pub struct PluginDef {
    pub name: String,
    /// Single-language shorthand (`language = "python"`).
    pub language: Option<String>,
    /// Multi-language filter (`languages = ["typescript", "javascript"]`).
    pub languages: Vec<String>,
    pub detect: DetectRule,
    pub entry_points: Vec<GlobRule>,
    /// Tool-loaded configs, treated as entry roots.
    pub config_patterns: Vec<GlobRule>,
    pub test_patterns: Vec<GlobRule>,
    /// Decorator tail names that mark a handler file as implicitly live.
    pub route_decorators: Vec<String>,
    /// Declared dependencies used only via a CLI or config.
    pub tooling_dependencies: Vec<String>,
}

/// Does a language tag of a plugin cover `lang`?
pub open spec fn tag_matches(tag: Seq<char>, lang: Language) -> bool {
    if tag == "python"@ {
        lang is Python
    } else if tag == "typescript"@ || tag == "javascript"@ || tag == "tsx"@ || tag == "js"@ {
        lang.js_family()
    } else {
        false
    }
}

/// The plugin applies to `lang`: some listed tag covers it, or no tag is given.
pub open spec fn language_ok(p: PluginDef, lang: Language) -> bool {
    if p.languages@.len() > 0 {
        exists|i: int| 0 <= i < p.languages@.len() && #[trigger] tag_matches(p.languages@[i]@, lang)
    } else if p.language is Some {
        tag_matches(p.language->0@, lang)
    } else {
        true
    }
}

/// A dependency condition: a trailing `/` asks for any dependency under that
/// scope, anything else for that exact name.
pub open spec fn dep_matches(dep: Seq<char>, deps: Seq<Seq<char>>) -> bool {
    if dep.len() > 0 && dep.last() == '/' {
        exists|i: int| 0 <= i < deps.len() && #[trigger] starts_with(deps[i], dep)
    } else {
        deps.contains(dep)
    }
}

/// The leaf conditions of a rule, without its combinators: one of them holds,
/// or there is none.
pub open spec fn leaves_hold(r: DetectRule, deps: Seq<Seq<char>>, present: Seq<Seq<char>>) -> bool {
    let saw = r.dependency is Some || r.dependencies@.len() > 0 || r.file_exists is Some || r.files_exist@.len() > 0;
    ||| (r.dependency matches Some(d) && dep_matches(d@, deps))
    ||| (exists|i: int| 0 <= i < r.dependencies@.len() && #[trigger] dep_matches(r.dependencies@[i]@, deps))
    ||| (r.file_exists matches Some(f) && present.contains(f@))
    ||| (exists|i: int| 0 <= i < r.files_exist@.len() && present.contains(#[trigger] r.files_exist@[i]@))
    ||| !saw
}

/// Does the rule hold for a package with dependencies `deps`, given the files
/// `present` under its root? `always` wins, then a non-empty `any`, then a
/// non-empty `all`, then the leaf conditions.
pub open spec fn rule_holds(r: DetectRule, deps: Seq<Seq<char>>, present: Seq<Seq<char>>) -> bool
    decreases r, 0int,
{
    if r.always {
        true
    } else if r.any@.len() > 0 {
        some_hold(r.any@, r.any@.len() as int, deps, present)
    } else if r.all@.len() > 0 {
        all_hold(r.all@, r.all@.len() as int, deps, present)
    } else {
        leaves_hold(r, deps, present)
    }
}

/// One of the first `n` rules holds.
pub open spec fn some_hold(rs: Seq<DetectRule>, n: int, deps: Seq<Seq<char>>, present: Seq<Seq<char>>) -> bool
    decreases rs, n,
{
    if n <= 0 || n > rs.len() {
        false
    } else {
        some_hold(rs, n - 1, deps, present) || rule_holds(rs[n - 1], deps, present)
    }
}

/// Each of the first `n` rules holds.
pub open spec fn all_hold(rs: Seq<DetectRule>, n: int, deps: Seq<Seq<char>>, present: Seq<Seq<char>>) -> bool
    decreases rs, n,
{
    if n <= 0 || n > rs.len() {
        true
    } else {
        all_hold(rs, n - 1, deps, present) && rule_holds(rs[n - 1], deps, present)
    }
}

/// The files a rule may look for, in the order it looks: its own, then
/// those of its `any` and `all` rules.
pub open spec fn probes(r: DetectRule) -> Seq<Seq<char>>
    decreases r, 0int,
{
    (if r.file_exists is Some { seq![r.file_exists->0@] } else { Seq::empty() })
        + string_views(r.files_exist@)
        + probes_of(r.any@, r.any@.len() as int)
        + probes_of(r.all@, r.all@.len() as int)
}

pub open spec fn probes_of(rs: Seq<DetectRule>, n: int) -> Seq<Seq<char>>
    decreases rs, n,
{
    if n <= 0 || n > rs.len() {
        Seq::empty()
    } else {
        probes_of(rs, n - 1) + probes(rs[n - 1])
    }
}

/// The rule's dependency that activates a plugin, if it names one.
pub open spec fn trigger_of(r: DetectRule) -> Option<Seq<char>> {
    match r.dependency {
        Some(d) => Some(d@),
        None => if r.dependencies@.len() > 0 { Some(r.dependencies@[0]@) } else { None },
    }
}

proof fn lemma_some_hold_grows(rs: Seq<DetectRule>, k: int, m: int, deps: Seq<Seq<char>>, present: Seq<Seq<char>>)
    requires
        0 <= k <= m <= rs.len(),
        some_hold(rs, k, deps, present),
    ensures
        some_hold(rs, m, deps, present),
    decreases m - k,
{
    if m > k {
        lemma_some_hold_grows(rs, k, m - 1, deps, present);
    }
}

proof fn lemma_all_hold_shrinks(rs: Seq<DetectRule>, k: int, m: int, deps: Seq<Seq<char>>, present: Seq<Seq<char>>)
    requires
        0 <= k <= m <= rs.len(),
        !all_hold(rs, k, deps, present),
    ensures
        !all_hold(rs, m, deps, present),
    decreases m - k,
{
    if m > k {
        lemma_all_hold_shrinks(rs, k, m - 1, deps, present);
    }
}

/// Does a dependency condition match the declared dependencies?
fn dependency_matches(dep: &str, deps: &Vec<String>) -> (r: bool)
    ensures
        r == dep_matches(dep@, string_views(deps@)),
{
    let n = dep.unicode_len();
    if n > 0 && dep.get_char(n - 1) == '/' {
        let mut i: usize = 0;
        while i < deps.len()
            invariant
                i <= deps@.len(),
                dep@.len() > 0 && dep@.last() == '/',
                forall|j: int| 0 <= j < i ==> !#[trigger] starts_with(string_views(deps@)[j], dep@),
            decreases deps@.len() - i,
        {
            let v = crate::text::chars_of(deps[i].as_str());
            if crate::ids::seq_starts_with(&v, dep) {
                assert(string_views(deps@)[i as int] == deps@[i as int]@);
                assert(starts_with(string_views(deps@)[i as int], dep@));
                return true;
            }
            i += 1;
        }
        false
    } else {
        contains_view(deps, dep)
    }
}

/// Does a language tag cover `lang`?
fn language_tag_matches(tag: &str, lang: Language) -> (r: bool)
    ensures
        r == tag_matches(tag@, lang),
{
    if str_is(tag, "python") {
        lang.is_python()
    } else if str_is(tag, "typescript") || str_is(tag, "javascript") || str_is(tag, "tsx") || str_is(tag, "js") {
        lang.is_js_family()
    } else {
        false
    }
}

fn globs_of(rules: &Vec<GlobRule>, out: &mut Vec<String>)
    ensures
        string_views(final(out)@) == string_views(old(out)@) + rules@.map_values(|g: GlobRule| g.glob@),
{
    let ghost base = string_views(out@);
    let ghost gv = rules@.map_values(|g: GlobRule| g.glob@);
    let mut k: usize = 0;
    while k < rules.len()
        invariant
            k <= rules@.len(),
            base == string_views(old(out)@),
            gv == rules@.map_values(|g: GlobRule| g.glob@),
            string_views(out@) == base + gv.take(k as int),
        decreases rules@.len() - k,
    {
        let ghost before = out@;
        out.push(copy_string(&rules[k].glob));
        assert(string_views(out@) =~= string_views(before).push(gv[k as int]));
        assert(gv.take(k as int + 1) =~= gv.take(k as int).push(gv[k as int]));
        k += 1;
    }
    assert(gv.take(gv.len() as int) =~= gv);
}

impl DetectRule {
    /// Does the rule hold for `pkg`, given the files `present` (relative to
    /// the directory the rule is checked in) among those it probes?
    pub fn matches(&self, pkg: &Package, present: &Vec<String>) -> (r: bool)
        ensures
            r == rule_holds(*self, string_views(pkg.dependencies@), string_views(present@)),
        decreases *self, 0int,
    {
        let ghost deps = string_views(pkg.dependencies@);
        let ghost pres = string_views(present@);
        if self.always {
            return true;
        }
        if self.any.len() > 0 {
            let mut i: usize = 0;
            while i < self.any.len()
                invariant
                    i <= self.any@.len(),
                    !self.always,
                    deps == string_views(pkg.dependencies@),
                    pres == string_views(present@),
                    !some_hold(self.any@, i as int, deps, pres),
                decreases self.any@.len() - i,
            {
                if self.any[i].matches(pkg, present) {
                    proof { lemma_some_hold_grows(self.any@, i + 1, self.any@.len() as int, deps, pres); }
                    return true;
                }
                i += 1;
            }
            return false;
        }
        if self.all.len() > 0 {
            let mut i: usize = 0;
            while i < self.all.len()
                invariant
                    i <= self.all@.len(),
                    !self.always,
                    self.any@.len() == 0,
                    deps == string_views(pkg.dependencies@),
                    pres == string_views(present@),
                    all_hold(self.all@, i as int, deps, pres),
                decreases self.all@.len() - i,
            {
                if !self.all[i].matches(pkg, present) {
                    proof { lemma_all_hold_shrinks(self.all@, i + 1, self.all@.len() as int, deps, pres); }
                    return false;
                }
                i += 1;
            }
            return true;
        }
        let mut saw = false;
        if let Some(dep) = &self.dependency {
            saw = true;
            if dependency_matches(dep.as_str(), &pkg.dependencies) {
                return true;
            }
        }
        let mut i: usize = 0;
        while i < self.dependencies.len()
            invariant
                i <= self.dependencies@.len(),
                !self.always,
                self.any@.len() == 0,
                self.all@.len() == 0,
                deps == string_views(pkg.dependencies@),
                saw == (self.dependency is Some || i > 0),
                !(self.dependency matches Some(d) && dep_matches(d@, deps)),
                forall|j: int| 0 <= j < i ==> !#[trigger] dep_matches(self.dependencies@[j]@, deps),
            decreases self.dependencies@.len() - i,
        {
            saw = true;
            if dependency_matches(self.dependencies[i].as_str(), &pkg.dependencies) {
                assert(dep_matches(self.dependencies@[i as int]@, deps));
                return true;
            }
            i += 1;
        }
        if let Some(file) = &self.file_exists {
            saw = true;
            if contains_view(present, file.as_str()) {
                return true;
            }
        }
        let mut i: usize = 0;
        while i < self.files_exist.len()
            invariant
                i <= self.files_exist@.len(),
                !self.always,
                self.any@.len() == 0,
                self.all@.len() == 0,
                pres == string_views(present@),
                saw == (self.dependency is Some || self.dependencies@.len() > 0 || self.file_exists is Some || i > 0),
                !(self.file_exists matches Some(f) && pres.contains(f@)),
                forall|j: int| 0 <= j < i ==> !pres.contains(#[trigger] self.files_exist@[j]@),
            decreases self.files_exist@.len() - i,
        {
            saw = true;
            if contains_view(present, self.files_exist[i].as_str()) {
                assert(pres.contains(self.files_exist@[i as int]@));
                return true;
            }
            i += 1;
        }
        !saw
    }

    /// The dependency whose presence activates the plugin, if the rule names one.
    fn trigger_dependency(&self) -> (r: Option<String>)
        ensures
            match r {
                Some(t) => trigger_of(*self) == Some(t@),
                None => trigger_of(*self) is None,
            },
    {
        match &self.dependency {
            Some(d) => Some(copy_string(d)),
            None => if self.dependencies.len() > 0 { Some(copy_string(&self.dependencies[0])) } else { None },
        }
    }

    /// The files the rule may look for, relative to where it is checked; the
    /// caller finds out which of them exist.
    pub fn probed_files(&self) -> (r: Vec<String>)
        ensures
            string_views(r@) == probes(*self),
        decreases *self, 0int,
    {
        let mut out: Vec<String> = Vec::new();
        if let Some(f) = &self.file_exists {
            out.push(copy_string(f));
        }
        assert(string_views(out@) =~= (if self.file_exists is Some { seq![self.file_exists->0@] } else { Seq::empty() }));
        let ghost head = string_views(out@);
        let mut k: usize = 0;
        while k < self.files_exist.len()
            invariant
                k <= self.files_exist@.len(),
                string_views(out@) == head + string_views(self.files_exist@).take(k as int),
            decreases self.files_exist@.len() - k,
        {
            let ghost before = out@;
            out.push(copy_string(&self.files_exist[k]));
            assert(string_views(out@) =~= string_views(before).push(self.files_exist@[k as int]@));
            assert(string_views(self.files_exist@).take(k as int + 1) =~= string_views(self.files_exist@).take(k as int).push(self.files_exist@[k as int]@));
            k += 1;
        }
        assert(string_views(self.files_exist@).take(self.files_exist@.len() as int) =~= string_views(self.files_exist@));
        let ghost mid = string_views(out@);
        let mut k: usize = 0;
        while k < self.any.len()
            invariant
                k <= self.any@.len(),
                string_views(out@) == mid + probes_of(self.any@, k as int),
            decreases self.any@.len() - k,
        {
            let sub = self.any[k].probed_files();
            let ghost before = string_views(out@);
            let mut j: usize = 0;
            while j < sub.len()
                invariant
                    j <= sub@.len(),
                    string_views(out@) == before + string_views(sub@).take(j as int),
                decreases sub@.len() - j,
            {
                let ghost b2 = out@;
                out.push(copy_string(&sub[j]));
                assert(string_views(out@) =~= string_views(b2).push(sub@[j as int]@));
                assert(string_views(sub@).take(j as int + 1) =~= string_views(sub@).take(j as int).push(sub@[j as int]@));
                j += 1;
            }
            assert(string_views(sub@).take(sub@.len() as int) =~= string_views(sub@));
            assert(string_views(out@) =~= mid + probes_of(self.any@, k as int + 1));
            k += 1;
        }
        let ghost mid2 = string_views(out@);
        let mut k: usize = 0;
        while k < self.all.len()
            invariant
                k <= self.all@.len(),
                string_views(out@) == mid2 + probes_of(self.all@, k as int),
            decreases self.all@.len() - k,
        {
            let sub = self.all[k].probed_files();
            let ghost before = string_views(out@);
            let mut j: usize = 0;
            while j < sub.len()
                invariant
                    j <= sub@.len(),
                    string_views(out@) == before + string_views(sub@).take(j as int),
                decreases sub@.len() - j,
            {
                let ghost b2 = out@;
                out.push(copy_string(&sub[j]));
                assert(string_views(out@) =~= string_views(b2).push(sub@[j as int]@));
                assert(string_views(sub@).take(j as int + 1) =~= string_views(sub@).take(j as int).push(sub@[j as int]@));
                j += 1;
            }
            assert(string_views(sub@).take(sub@.len() as int) =~= string_views(sub@));
            assert(string_views(out@) =~= mid2 + probes_of(self.all@, k as int + 1));
            k += 1;
        }
        out
    }
}

impl PluginDef {
    /// Does the plugin apply to files of `lang`?
    pub fn matches_language(&self, lang: Language) -> (r: bool)
        ensures
            r == language_ok(*self, lang),
    {
        if self.languages.len() > 0 {
            let mut i: usize = 0;
            while i < self.languages.len()
                invariant
                    i <= self.languages@.len(),
                    forall|j: int| 0 <= j < i ==> !#[trigger] tag_matches(self.languages@[j]@, lang),
                decreases self.languages@.len() - i,
            {
                if language_tag_matches(self.languages[i].as_str(), lang) {
                    return true;
                }
                i += 1;
            }
            false
        } else {
            match &self.language {
                Some(l) => language_tag_matches(l.as_str(), lang),
                None => true,
            }
        }
    }

    /// Entry globs: the entry points, then the config patterns.
    pub fn entry_globs(&self) -> (r: Vec<String>)
        ensures
            string_views(r@) == self.entry_points@.map_values(|g: GlobRule| g.glob@)
                + self.config_patterns@.map_values(|g: GlobRule| g.glob@),
    {
        let mut out: Vec<String> = Vec::new();
        globs_of(&self.entry_points, &mut out);
        globs_of(&self.config_patterns, &mut out);
        assert(string_views(Seq::<String>::empty()) =~= Seq::<Seq<char>>::empty());
        out
    }

    /// Test globs.
    pub fn test_globs(&self) -> (r: Vec<String>)
        ensures
            string_views(r@) == self.test_patterns@.map_values(|g: GlobRule| g.glob@),
    {
        let mut out: Vec<String> = Vec::new();
        globs_of(&self.test_patterns, &mut out);
        assert(string_views(Seq::<String>::empty()) =~= Seq::<Seq<char>>::empty());
        out
    }

    /// The dependency whose presence activates the plugin, if its rule names one.
    pub fn trigger_dependency(&self) -> (r: Option<String>)
        ensures
            match r {
                Some(t) => trigger_of(self.detect) == Some(t@),
                None => trigger_of(self.detect) is None,
            },
    {
        self.detect.trigger_dependency()
    }
}

} // verus!
