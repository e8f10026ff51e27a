//! The plugin registry: every plugin available to a scan, and the ones
//! active for a package.

use vstd::prelude::*;
use vstd::string::*;
use crate::discover::plugin_def::{language_ok, rule_holds, trigger_of, GlobRule, PluginDef};
use crate::ids::Language;
use crate::order::{contains_view, string_views};
use crate::path::rfind;
use crate::text::{chars_of, copy_string, str_is, string_from};
use crate::workspace::Package;

verus! {

/// User-supplied discovery refinements (from `noslop.toml`).
#[derive(Debug)]
pub struct DiscoverOptions {
    /// Extra entry-point globs, merged after built-in detection.
    pub entry_points: Vec<String>,
    /// Extra plugin files or directories to load.
    pub plugin_paths: Vec<String>,
}

impl Default for DiscoverOptions {
    fn default() -> (r: DiscoverOptions)
        ensures
            r.entry_points@.len() == 0,
            r.plugin_paths@.len() == 0,
    {
        DiscoverOptions { entry_points: Vec::new(), plugin_paths: Vec::new() }
    }
}

/// All plugins available for a scan, each name once.
#[derive(Debug)]
pub struct PluginRegistry {
    plugins: Vec<PluginDef>,
}

/// The plugins with the first of each name kept, in order.
pub open spec fn dedup_by_name(s: Seq<PluginDef>) -> Seq<PluginDef>
    decreases s.len(),
{
    if s.len() == 0 {
        s
    } else {
        let d = dedup_by_name(s.drop_last());
        if exists|k: int| 0 <= k < d.len() && #[trigger] d[k].name@ == s.last().name@ { d } else { d.push(s.last()) }
    }
}

/// The plugins that apply to the package's language and whose detection
/// rule holds, in order.
pub open spec fn active_defs(s: Seq<PluginDef>, pkg: Package, present: Seq<Seq<char>>) -> Seq<PluginDef>
    decreases s.len(),
{
    if s.len() == 0 {
        s
    } else {
        let d = active_defs(s.drop_last(), pkg, present);
        let p = s.last();
        if language_ok(p, pkg.language) && rule_holds(p.detect, string_views(pkg.dependencies@), present) {
            d.push(p)
        } else {
            d
        }
    }
}

pub open spec fn glob_texts(v: Seq<GlobRule>) -> Seq<Seq<char>> {
    v.map_values(|g: GlobRule| g.glob@)
}

/// The test globs of the plugins, in order.
pub open spec fn test_globs_of(s: Seq<PluginDef>) -> Seq<Seq<char>>
    decreases s.len(),
{
    if s.len() == 0 { Seq::empty() } else { test_globs_of(s.drop_last()) + glob_texts(s.last().test_patterns@) }
}

/// The entry and config globs of the plugins, in order.
pub open spec fn entry_globs_of(s: Seq<PluginDef>) -> Seq<Seq<char>>
    decreases s.len(),
{
    if s.len() == 0 {
        Seq::empty()
    } else {
        entry_globs_of(s.drop_last()) + glob_texts(s.last().entry_points@) + glob_texts(s.last().config_patterns@)
    }
}

/// The last `.`-separated part of a dotted name.
pub open spec fn last_segment(dotted: Seq<char>) -> Seq<char> {
    dotted.skip(rfind(dotted, '.') + 1)
}

impl PluginRegistry {
    /// The plugins, in order.
    pub closed spec fn defs(&self) -> Seq<PluginDef> {
        self.plugins@
    }

    /// The registry of the given plugins (built-in ones first, then the
    /// user's), keeping the first plugin of each name.
    pub fn load(defs: Vec<PluginDef>) -> (r: PluginRegistry)
        ensures
            r.defs() == dedup_by_name(defs@),
    {
        let ghost all = defs@;
        let mut rest = defs;
        let mut kept: Vec<PluginDef> = Vec::new();
        let mut names: Vec<String> = Vec::new();
        let ghost mut k: int = 0;
        while rest.len() > 0
            invariant
                0 <= k <= all.len(),
                rest@ == all.skip(k),
                kept@ == dedup_by_name(all.take(k)),
                string_views(names@) == kept@.map_values(|p: PluginDef| p.name@),
            decreases rest@.len(),
        {
            let p = rest.remove(0);
            proof {
                assert(all.take(k + 1).drop_last() =~= all.take(k));
                assert(all.take(k + 1).last() == p);
            }
            let ghost d = kept@;
            if contains_view(&names, p.name.as_str()) {
                proof {
                    let j = choose|j: int| 0 <= j < string_views(names@).len() && string_views(names@)[j] == p.name@;
                    assert(d[j].name@ == p.name@);
                }
            } else {
                proof {
                    assert forall|j: int| 0 <= j < d.len() implies #[trigger] d[j].name@ != p.name@ by {
                        assert(string_views(names@)[j] == d[j].name@);
                    }
                }
                let ghost before = names@;
                names.push(copy_string(&p.name));
                kept.push(p);
                assert(string_views(names@) =~= string_views(before).push(kept@.last().name@));
                assert(kept@.map_values(|p: PluginDef| p.name@) =~= d.map_values(|p: PluginDef| p.name@).push(kept@.last().name@));
            }
            proof { k = k + 1; }
            assert(all.skip(k) =~= rest@);
        }
        assert(all.take(k) =~= all);
        PluginRegistry { plugins: kept }
    }

    /// Every plugin, in order.
    pub fn all(&self) -> (r: &Vec<PluginDef>)
        ensures
            r@ == self.defs(),
    {
        &self.plugins
    }

    /// The plugins active for `pkg`: they apply to its language and their
    /// detection rule holds, given the files `present` under its root.
    pub fn active_for<'a>(&'a self, pkg: &Package, present: &Vec<String>) -> (r: Vec<&'a PluginDef>)
        ensures
            r@.map_values(|p: &PluginDef| *p) == active_defs(self.defs(), *pkg, string_views(present@)),
    {
        let ghost all = self.plugins@;
        let ghost pres = string_views(present@);
        let mut out: Vec<&'a PluginDef> = Vec::new();
        let mut i: usize = 0;
        while i < self.plugins.len()
            invariant
                i <= self.plugins@.len(),
                all == self.plugins@,
                pres == string_views(present@),
                out@.map_values(|p: &PluginDef| *p) == active_defs(all.take(i as int), *pkg, pres),
            decreases self.plugins@.len() - i,
        {
            let p = &self.plugins[i];
            proof {
                assert(all.take(i as int + 1).drop_last() =~= all.take(i as int));
                assert(all.take(i as int + 1).last() == *p);
            }
            if p.matches_language(pkg.language) && p.detect.matches(pkg, present) {
                let ghost before = out@;
                out.push(p);
                assert(out@.map_values(|p: &PluginDef| *p) =~= before.map_values(|p: &PluginDef| *p).push(*p));
            }
            i += 1;
        }
        assert(all.take(all.len() as int) =~= all);
        out
    }

    /// The test globs of the active plugins.
    pub fn test_globs_for(&self, pkg: &Package, present: &Vec<String>) -> (r: Vec<String>)
        ensures
            string_views(r@) == test_globs_of(active_defs(self.defs(), *pkg, string_views(present@))),
    {
        let act = self.active_for(pkg, present);
        let ghost av = act@.map_values(|p: &PluginDef| *p);
        let mut out: Vec<String> = Vec::new();
        let mut i: usize = 0;
        while i < act.len()
            invariant
                i <= act@.len(),
                av == act@.map_values(|p: &PluginDef| *p),
                string_views(out@) == test_globs_of(av.take(i as int)),
            decreases act@.len() - i,
        {
            let g = act[i].test_globs();
            proof {
                assert(av.take(i as int + 1).drop_last() =~= av.take(i as int));
                assert(av.take(i as int + 1).last() == *act@[i as int]);
            }
            append_strings(&mut out, &g);
            i += 1;
        }
        assert(av.take(av.len() as int) =~= av);
        out
    }

    /// The entry globs of the active plugins, then the user's own.
    pub fn entry_globs_for(&self, pkg: &Package, present: &Vec<String>, user_extra: &Vec<String>) -> (r: Vec<String>)
        ensures
            string_views(r@) == entry_globs_of(active_defs(self.defs(), *pkg, string_views(present@)))
                + string_views(user_extra@),
    {
        let act = self.active_for(pkg, present);
        let ghost av = act@.map_values(|p: &PluginDef| *p);
        let mut out: Vec<String> = Vec::new();
        let mut i: usize = 0;
        while i < act.len()
            invariant
                i <= act@.len(),
                av == act@.map_values(|p: &PluginDef| *p),
                string_views(out@) == entry_globs_of(av.take(i as int)),
            decreases act@.len() - i,
        {
            let g = act[i].entry_globs();
            proof {
                assert(av.take(i as int + 1).drop_last() =~= av.take(i as int));
                assert(av.take(i as int + 1).last() == *act@[i as int]);
            }
            append_strings(&mut out, &g);
            i += 1;
        }
        assert(av.take(av.len() as int) =~= av);
        append_strings(&mut out, user_extra);
        out
    }
}

fn append_strings(out: &mut Vec<String>, src: &Vec<String>)
    ensures
        string_views(final(out)@) == string_views(old(out)@) + string_views(src@),
{
    let ghost base = string_views(out@);
    let mut k: usize = 0;
    while k < src.len()
        invariant
            k <= src@.len(),
            base == string_views(old(out)@),
            string_views(out@) == base + string_views(src@).take(k as int),
        decreases src@.len() - k,
    {
        let ghost before = out@;
        out.push(copy_string(&src[k]));
        assert(string_views(out@) =~= string_views(before).push(src@[k as int]@));
        assert(string_views(src@).take(k as int + 1) =~= string_views(src@).take(k as int).push(src@[k as int]@));
        k += 1;
    }
    assert(string_views(src@).take(src@.len() as int) =~= string_views(src@));
}

/// The dependency whose presence activates a plugin, if its rule names one.
pub fn trigger_dep(plugin: &PluginDef) -> (r: Option<String>)
    ensures
        match r {
            Some(t) => trigger_of(plugin.detect) == Some(t@),
            None => trigger_of(plugin.detect) is None,
        },
{
    plugin.trigger_dependency()
}

/// The last `.`-separated part of a dotted name.
pub fn last_segment_of(dotted: &str) -> (r: String)
    ensures
        r@ == last_segment(dotted@),
{
    let v = chars_of(dotted);
    let start = match crate::path::rfind_char(&v, '.') {
        Some(i) => i + 1,
        None => 0,
    };
    proof { crate::path::lemma_rfind(dotted@, '.'); }
    let r = string_from(&v.as_slice()[start..v.len()]);
    assert(r@ =~= dotted@.skip(rfind(dotted@, '.') + 1));
    r
}

/// Does one of the named active plugins treat the decorator `dotted` (by its
/// last part) as a route or handler marker?
pub fn is_route_decorator(registry: &PluginRegistry, active_names: &Vec<String>, dotted: &str) -> (r: bool)
    ensures
        r == exists|i: int| 0 <= i < registry.defs().len()
            && string_views(active_names@).contains(#[trigger] registry.defs()[i].name@)
            && string_views(registry.defs()[i].route_decorators@).contains(last_segment(dotted@)),
{
    let last = last_segment_of(dotted);
    let ps = registry.all();
    let mut i: usize = 0;
    while i < ps.len()
        invariant
            i <= ps@.len(),
            ps@ == registry.defs(),
            last@ == last_segment(dotted@),
            forall|j: int| 0 <= j < i ==> !(string_views(active_names@).contains(#[trigger] ps@[j].name@)
                && string_views(ps@[j].route_decorators@).contains(last@)),
        decreases ps@.len() - i,
    {
        if contains_view(active_names, ps[i].name.as_str()) && contains_view(&ps[i].route_decorators, last.as_str()) {
            return true;
        }
        i += 1;
    }
    false
}

/// Index of the first plugin named `name`, or -1.
pub open spec fn plugin_named(s: Seq<PluginDef>, name: Seq<char>, i: int) -> int
    decreases s.len() - i,
{
    if i < 0 || i >= s.len() {
        -1
    } else if s[i].name@ == name {
        i
    } else {
        plugin_named(s, name, i + 1)
    }
}

/// The language a named plugin belongs to: Python when it applies to Python
/// but not to TypeScript, TypeScript otherwise; `None` for an unknown name.
pub fn plugin_language(registry: &PluginRegistry, name: &str) -> (r: Option<Language>)
    ensures
        ({
            let k = plugin_named(registry.defs(), name@, 0);
            if k < 0 {
                r is None
            } else {
                let p = registry.defs()[k];
                r == Some(if language_ok(p, Language::Python) && !language_ok(p, Language::TypeScript) {
                    Language::Python
                } else {
                    Language::TypeScript
                })
            }
        }),
{
    let ps = registry.all();
    let mut i: usize = 0;
    while i < ps.len()
        invariant
            i <= ps@.len(),
            ps@ == registry.defs(),
            plugin_named(ps@, name@, 0) == plugin_named(ps@, name@, i as int),
        decreases ps@.len() - i,
    {
        if str_is(ps[i].name.as_str(), name) {
            let p = &ps[i];
            if p.matches_language(Language::Python) && !p.matches_language(Language::TypeScript) {
                return Some(Language::Python);
            }
            return Some(Language::TypeScript);
        }
        i += 1;
    }
    None
}


/// A registry holds each plugin name once, the first definition of a name
/// winning, and holds every name that was defined.
pub proof fn law_plugin_names_unique(s: Seq<PluginDef>)
    ensures
        forall|a: int, b: int| 0 <= a < b < dedup_by_name(s).len() ==>
            (#[trigger] dedup_by_name(s)[a]).name@ != (#[trigger] dedup_by_name(s)[b]).name@,
        forall|i: int| 0 <= i < s.len() ==> exists|k: int|
            0 <= k < dedup_by_name(s).len() && (#[trigger] dedup_by_name(s)[k]).name@ == (#[trigger] s[i]).name@,
    decreases s.len(),
{
    if s.len() > 0 {
        let p = s.drop_last();
        law_plugin_names_unique(p);
        let d = dedup_by_name(p);
        assert forall|i: int| 0 <= i < s.len() implies exists|k: int|
            0 <= k < dedup_by_name(s).len() && (#[trigger] dedup_by_name(s)[k]).name@ == (#[trigger] s[i]).name@ by {
            if i < p.len() {
                assert(s[i] == p[i]);
                let k = choose|k: int| 0 <= k < d.len() && (#[trigger] d[k]).name@ == p[i].name@;
                assert(dedup_by_name(s)[k] == d[k]);
            } else if exists|k: int| 0 <= k < d.len() && #[trigger] d[k].name@ == s.last().name@ {
                let k = choose|k: int| 0 <= k < d.len() && #[trigger] d[k].name@ == s.last().name@;
                assert(dedup_by_name(s)[k] == d[k]);
            } else {
                assert(dedup_by_name(s)[d.len() as int] == s.last());
            }
        }
    }
}

} // verus!
