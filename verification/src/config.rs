//! `noslop.toml`: what a configuration document says. Zero-config is the
//! default: a missing, unparseable or partial document yields the defaults,
//! and the document only refines them. Reading the files is left to the
//! caller, and so is the CRAP threshold of `[complexity]`, which is floating
//! point; the integer complexity limits are read here.

use vstd::prelude::*;
use vstd::string::*;
use crate::analysis::{default_duplication, mode_named, DuplicationConfig, DuplicationMode, Layer, PolicyConfig, PolicyKind, PolicyRule, StyleConfig};
use crate::doc::{doc_bool, doc_get, doc_int, doc_str, opt_get, str_elems, string_elems, Doc};
use crate::finding::{rule_name, severity_named, RuleId, Severity};
use crate::order::string_views;
use crate::discover::globs::{glob_set_matches, match_globs};
use crate::text::{cat3, copy_string, owned, str_is};
use crate::doc_text::{parse_toml, toml_doc_of};

verus! {

/// `[duplication]`: present means enabled; `mode`, `min-tokens` (at least 1)
/// and `skip-local` refine the defaults.
pub open spec fn duplication_of(t: Doc) -> DuplicationConfig {
    let d = default_duplication();
    DuplicationConfig {
        enabled: true,
        mode: match doc_str(doc_get(t, "mode"@)) {
            Some(m) => match mode_named(m) {
                Some(x) => x,
                None => d.mode,
            },
            None => d.mode,
        },
        min_tokens: match doc_int(doc_get(t, "min-tokens"@)) {
            Some(v) => (if v < 1 { 1 } else { v }) as u32,
            None => d.min_tokens,
        },
        skip_local: match doc_bool(doc_get(t, "skip-local"@)) {
            Some(b) => b,
            None => d.skip_local,
        },
    }
}

fn parse_duplication(table: &Doc) -> (r: DuplicationConfig)
    ensures
        r == duplication_of(*table),
{
    let mut cfg = DuplicationConfig::defaults();
    cfg.enabled = true;
    match table.get("mode") {
        Some(m) => match m.as_str() {
            Some(s) => match DuplicationMode::from_name(s) {
                Some(x) => { cfg.mode = x; },
                None => {},
            },
            None => {},
        },
        None => {},
    }
    match table.get("min-tokens") {
        Some(v) => match v.as_int() {
            Some(n) => { cfg.min_tokens = (if n < 1 { 1 } else { n }) as u32; },
            None => {},
        },
        None => {},
    }
    match table.get("skip-local") {
        Some(v) => match v.as_bool() {
            Some(b) => { cfg.skip_local = b; },
            None => {},
        },
        None => {},
    }
    cfg
}

/// The documents of the policy pack texts that read as TOML, in order.
pub open spec fn parsed_packs(texts: Seq<Seq<char>>) -> Seq<Doc>
    decreases texts.len(),
{
    if texts.len() == 0 {
        Seq::empty()
    } else {
        parsed_packs(texts.drop_last()) + match toml_doc_of(texts.last()) {
            Some(d) => seq![d],
            None => Seq::empty(),
        }
    }
}

/// The policy pack files `noslop.toml`'s text names (`policy.packs`); none
/// where the text is no TOML.
pub fn pack_paths_in(text: &str) -> (r: Vec<String>)
    ensures
        string_views(r@) == match toml_doc_of(text@) {
            Some(d) => str_elems(opt_get(doc_get(d, "policy"@), "packs"@)),
            None => Seq::empty(),
        },
{
    match parse_toml(text) {
        Some(d) => policy_pack_paths(&d),
        None => {
            let v: Vec<String> = Vec::new();
            assert(string_views(v@) =~= Seq::<Seq<char>>::empty());
            v
        },
    }
}

/// A policy rule with its strings as character sequences.
pub struct RuleView {
    pub id: Seq<char>,
    pub kind: PolicyKind,
    pub patterns: Seq<Seq<char>>,
    pub paths: Seq<Seq<char>>,
    pub severity: Severity,
    pub hint: Option<Seq<char>>,
}

pub open spec fn rule_view(r: PolicyRule) -> RuleView {
    RuleView {
        id: r.id@,
        kind: r.kind,
        patterns: string_views(r.patterns@),
        paths: string_views(r.paths@),
        severity: r.severity,
        hint: match r.hint { Some(h) => Some(h@), None => None },
    }
}

pub open spec fn kind_named(k: Seq<char>) -> Option<PolicyKind> {
    if k == "banned-import"@ {
        Some(PolicyKind::BannedImport)
    } else if k == "banned-call"@ {
        Some(PolicyKind::BannedCall)
    } else if k == "banned-effect"@ {
        Some(PolicyKind::BannedEffect)
    } else {
        None
    }
}

/// The key holding a rule's patterns, by kind.
pub open spec fn pattern_key(k: PolicyKind) -> Seq<char> {
    match k {
        PolicyKind::BannedImport => "specifiers"@,
        PolicyKind::BannedCall => "callees"@,
        PolicyKind::BannedEffect => "effects"@,
    }
}

/// The policy rule a `[[policy.rule]]` entry states: an `id` and a known
/// `kind` are required; the severity defaults to `warn`.
pub open spec fn rule_of(v: Doc) -> Option<RuleView> {
    match doc_str(doc_get(v, "id"@)) {
        None => None,
        Some(id) => match doc_str(doc_get(v, "kind"@)) {
            None => None,
            Some(k) => match kind_named(k) {
                None => None,
                Some(kind) => Some(RuleView {
                    id,
                    kind,
                    patterns: str_elems(doc_get(v, pattern_key(kind))),
                    paths: str_elems(doc_get(v, "paths"@)),
                    severity: match doc_str(doc_get(v, "severity"@)) {
                        Some(s) => match severity_named(s) {
                            Some(x) => x,
                            None => Severity::Warn,
                        },
                        None => Severity::Warn,
                    },
                    hint: doc_str(doc_get(v, "hint"@)),
                }),
            },
        },
    }
}

fn opt_string(s: Option<&str>) -> (r: Option<String>)
    ensures
        match s {
            Some(x) => r matches Some(y) && y@ == x@,
            None => r is None,
        },
{
    match s {
        Some(x) => Some(owned(x)),
        None => None,
    }
}

fn get_str<'a>(d: &'a Doc, key: &str) -> (r: Option<&'a str>)
    ensures
        match doc_str(doc_get(*d, key@)) {
            Some(s) => r matches Some(x) && x@ == s,
            None => r is None,
        },
{
    match d.get(key) {
        Some(v) => v.as_str(),
        None => None,
    }
}

fn parse_rule(value: &Doc) -> (r: Option<PolicyRule>)
    ensures
        match rule_of(*value) {
            Some(v) => r matches Some(x) && rule_view(x) == v,
            None => r is None,
        },
{
    let id = match get_str(value, "id") {
        Some(s) => owned(s),
        None => { return None; },
    };
    let k = match get_str(value, "kind") {
        Some(s) => s,
        None => { return None; },
    };
    let kind = if str_is(k, "banned-import") {
        PolicyKind::BannedImport
    } else if str_is(k, "banned-call") {
        PolicyKind::BannedCall
    } else if str_is(k, "banned-effect") {
        PolicyKind::BannedEffect
    } else {
        return None;
    };
    let key = match kind {
        PolicyKind::BannedImport => "specifiers",
        PolicyKind::BannedCall => "callees",
        PolicyKind::BannedEffect => "effects",
    };
    let patterns = string_elems(value.get(key));
    let paths = string_elems(value.get("paths"));
    let severity = match get_str(value, "severity") {
        Some(s) => match Severity::from_name(s) {
            Some(x) => x,
            None => Severity::Warn,
        },
        None => Severity::Warn,
    };
    let hint = opt_string(get_str(value, "hint"));
    let r = PolicyRule { id, kind, patterns, paths, severity, hint };
    assert(rule_view(r) == rule_of(*value)->0);
    Some(r)
}

/// A layer with its strings as character sequences.
pub struct LayerView {
    pub name: Seq<char>,
    pub paths: Seq<Seq<char>>,
    pub allow: Seq<Seq<char>>,
}

pub open spec fn layer_view(l: Layer) -> LayerView {
    LayerView { name: l.name@, paths: string_views(l.paths@), allow: string_views(l.allow@) }
}

/// The layer a `[[boundaries.layer]]` entry states; a `name` is required.
pub open spec fn layer_of(v: Doc) -> Option<LayerView> {
    match doc_str(doc_get(v, "name"@)) {
        None => None,
        Some(name) => Some(LayerView { name, paths: str_elems(doc_get(v, "paths"@)), allow: str_elems(doc_get(v, "allow"@)) }),
    }
}

fn parse_layer(value: &Doc) -> (r: Option<Layer>)
    ensures
        match layer_of(*value) {
            Some(v) => r matches Some(x) && layer_view(x) == v,
            None => r is None,
        },
{
    let name = match get_str(value, "name") {
        Some(s) => owned(s),
        None => { return None; },
    };
    Some(Layer { name, paths: string_elems(value.get("paths")), allow: string_elems(value.get("allow")) })
}

pub open spec fn lv(name: Seq<char>, paths: Seq<Seq<char>>, allow: Seq<Seq<char>>) -> LayerView {
    LayerView { name, paths, allow }
}

/// The feature-sliced layers, lowest first.
pub open spec fn fsd_order() -> Seq<Seq<char>> {
    seq!["shared"@, "entities"@, "features"@, "widgets"@, "pages"@, "processes"@, "app"@]
}

/// The built-in layer presets, by directory-name convention: `layered`,
/// `hexagonal` and `feature-sliced` (each slice may import only the slices
/// below it); no layer for another name.
pub open spec fn preset_views(name: Seq<char>) -> Seq<LayerView> {
    if name == "layered"@ {
        seq![
            lv("domain"@, seq!["**/domain/**"@], seq![]),
            lv("application"@, seq!["**/application/**"@, "**/app/**"@], seq!["domain"@]),
            lv("infrastructure"@, seq!["**/infrastructure/**"@, "**/infra/**"@], seq!["domain"@, "application"@]),
            lv("ui"@, seq!["**/ui/**"@, "**/presentation/**"@, "**/web/**"@], seq!["application"@, "domain"@]),
        ]
    } else if name == "hexagonal"@ {
        seq![
            lv("core"@, seq!["**/core/**"@, "**/domain/**"@], seq![]),
            lv("ports"@, seq!["**/ports/**"@], seq!["core"@]),
            lv("adapters"@, seq!["**/adapters/**"@, "**/infrastructure/**"@], seq!["ports"@, "core"@]),
        ]
    } else if name == "feature-sliced"@ {
        Seq::new(7, |i: int| lv(fsd_order()[i], seq!["**/"@ + fsd_order()[i] + "/**"@], fsd_order().take(i)))
    } else {
        Seq::empty()
    }
}

fn none() -> (r: Vec<String>)
    ensures
        string_views(r@) == Seq::<Seq<char>>::empty(),
{
    let r: Vec<String> = Vec::new();
    assert(string_views(r@) =~= Seq::<Seq<char>>::empty());
    r
}

fn one(a: &str) -> (r: Vec<String>)
    ensures
        string_views(r@) == seq![a@],
{
    let mut r: Vec<String> = Vec::new();
    r.push(owned(a));
    assert(string_views(r@) =~= seq![a@]);
    r
}

fn two(a: &str, b: &str) -> (r: Vec<String>)
    ensures
        string_views(r@) == seq![a@, b@],
{
    let mut r: Vec<String> = Vec::new();
    r.push(owned(a));
    r.push(owned(b));
    assert(string_views(r@) =~= seq![a@, b@]);
    r
}

fn three(a: &str, b: &str, c: &str) -> (r: Vec<String>)
    ensures
        string_views(r@) == seq![a@, b@, c@],
{
    let mut r: Vec<String> = Vec::new();
    r.push(owned(a));
    r.push(owned(b));
    r.push(owned(c));
    assert(string_views(r@) =~= seq![a@, b@, c@]);
    r
}

fn layer(name: &str, paths: Vec<String>, allow: Vec<String>) -> (r: Layer)
    ensures
        layer_view(r) == lv(name@, string_views(paths@), string_views(allow@)),
{
    Layer { name: owned(name), paths, allow }
}

/// The layers of a built-in preset.
pub fn preset_layers(name: &str) -> (r: Vec<Layer>)
    ensures
        r@.map_values(|l: Layer| layer_view(l)) == preset_views(name@),
{
    let mut out: Vec<Layer> = Vec::new();
    if str_is(name, "layered") {
        out.push(layer("domain", one("**/domain/**"), none()));
        out.push(layer("application", two("**/application/**", "**/app/**"), one("domain")));
        out.push(layer("infrastructure", two("**/infrastructure/**", "**/infra/**"), two("domain", "application")));
        out.push(layer("ui", three("**/ui/**", "**/presentation/**", "**/web/**"), two("application", "domain")));
        assert(out@.map_values(|l: Layer| layer_view(l)) =~= preset_views(name@));
    } else if str_is(name, "hexagonal") {
        out.push(layer("core", two("**/core/**", "**/domain/**"), none()));
        out.push(layer("ports", one("**/ports/**"), one("core")));
        out.push(layer("adapters", two("**/adapters/**", "**/infrastructure/**"), two("ports", "core")));
        assert(out@.map_values(|l: Layer| layer_view(l)) =~= preset_views(name@));
    } else if str_is(name, "feature-sliced") {
        let order = vec!["shared", "entities", "features", "widgets", "pages", "processes", "app"];
        assert(order@.map_values(|s: &str| s@) =~= fsd_order());
        let mut i: usize = 0;
        while i < order.len()
            invariant
                i <= order@.len(),
                order@.len() == 7,
                order@.map_values(|s: &str| s@) == fsd_order(),
                out@.map_values(|l: Layer| layer_view(l))
                    == Seq::new(i as nat, |j: int| lv(fsd_order()[j], seq!["**/"@ + fsd_order()[j] + "/**"@], fsd_order().take(j))),
            decreases order@.len() - i,
        {
            let n = order[i];
            let mut paths: Vec<String> = Vec::new();
            paths.push(cat3("**/", n, "/**"));
            let mut allow: Vec<String> = Vec::new();
            let mut j: usize = 0;
            while j < i
                invariant
                    j <= i < order@.len(),
                    order@.map_values(|s: &str| s@) == fsd_order(),
                    string_views(allow@) == fsd_order().take(j as int),
                decreases i - j,
            {
                let ghost before = allow@;
                allow.push(owned(order[j]));
                assert(string_views(allow@) =~= string_views(before).push(fsd_order()[j as int]));
                assert(fsd_order().take(j as int + 1) =~= fsd_order().take(j as int).push(fsd_order()[j as int]));
                j += 1;
            }
            let l = Layer { name: owned(n), paths, allow };
            assert(n@ == fsd_order()[i as int]);
            assert(string_views(l.paths@) =~= seq!["**/"@ + fsd_order()[i as int] + "/**"@]);
            assert(layer_view(l) == lv(fsd_order()[i as int], seq!["**/"@ + fsd_order()[i as int] + "/**"@], fsd_order().take(i as int)));
            let ghost before = out@;
            out.push(l);
            assert(out@.map_values(|l: Layer| layer_view(l)) =~= before.map_values(|l: Layer| layer_view(l)).push(layer_view(l)));
            assert(out@.map_values(|l: Layer| layer_view(l))
                =~= Seq::new(i as nat + 1, |j: int| lv(fsd_order()[j], seq!["**/"@ + fsd_order()[j] + "/**"@], fsd_order().take(j))));
            i += 1;
        }
        assert(out@.map_values(|l: Layer| layer_view(l)) =~= preset_views(name@));
    } else {
        assert(out@.map_values(|l: Layer| layer_view(l)) =~= preset_views(name@));
    }
    out
}

/// The rules of the entries of a `rule` array, in order (invalid ones skipped).
pub open spec fn rules_in(a: Seq<Doc>) -> Seq<RuleView>
    decreases a.len(),
{
    if a.len() == 0 {
        Seq::empty()
    } else {
        rules_in(a.drop_last()) + match rule_of(a.last()) {
            Some(r) => seq![r],
            None => Seq::empty(),
        }
    }
}

/// The rules of a `rule` array value.
pub open spec fn rules_at(d: Option<Doc>) -> Seq<RuleView> {
    match d {
        Some(Doc::Array(a)) => rules_in(a@),
        _ => Seq::empty(),
    }
}

/// The rules of the pack documents, in order.
pub open spec fn pack_rules(packs: Seq<Doc>) -> Seq<RuleView>
    decreases packs.len(),
{
    if packs.len() == 0 { Seq::empty() } else { pack_rules(packs.drop_last()) + rules_at(doc_get(packs.last(), "rule"@)) }
}

pub open spec fn layers_in(a: Seq<Doc>) -> Seq<LayerView>
    decreases a.len(),
{
    if a.len() == 0 {
        Seq::empty()
    } else {
        layers_in(a.drop_last()) + match layer_of(a.last()) {
            Some(l) => seq![l],
            None => Seq::empty(),
        }
    }
}

/// The policy rules a configuration states: inline `[[policy.rule]]` entries,
/// then those of the pack files (given parsed, in the order `policy.packs`
/// lists them).
pub open spec fn policy_rules_of(doc: Doc, packs: Seq<Doc>) -> Seq<RuleView> {
    match doc_get(doc, "policy"@) {
        None => Seq::empty(),
        Some(pol) => rules_at(doc_get(pol, "rule"@)) + pack_rules(packs),
    }
}

/// The layers a configuration states: those of the `[boundaries]` preset,
/// then its `[[boundaries.layer]]` entries.
pub open spec fn policy_layers_of(doc: Doc) -> Seq<LayerView> {
    match doc_get(doc, "boundaries"@) {
        None => Seq::empty(),
        Some(b) => (match doc_str(doc_get(b, "preset"@)) {
            Some(p) => preset_views(p),
            None => Seq::empty(),
        }) + (match doc_get(b, "layer"@) {
            Some(Doc::Array(a)) => layers_in(a@),
            _ => Seq::empty(),
        }),
    }
}

fn rules_from(d: Option<&Doc>, out: &mut Vec<PolicyRule>)
    ensures
        final(out)@.map_values(|r: PolicyRule| rule_view(r))
            == old(out)@.map_values(|r: PolicyRule| rule_view(r)) + rules_at(match d { Some(x) => Some(*x), None => None }),
{
    match d {
        Some(Doc::Array(a)) => {
            let ghost base = out@.map_values(|r: PolicyRule| rule_view(r));
            let mut i: usize = 0;
            while i < a.len()
                invariant
                    i <= a@.len(),
                    base == old(out)@.map_values(|r: PolicyRule| rule_view(r)),
                    out@.map_values(|r: PolicyRule| rule_view(r)) == base + rules_in(a@.take(i as int)),
                decreases a@.len() - i,
            {
                proof { assert(a@.take(i as int + 1).drop_last() =~= a@.take(i as int)); }
                let ghost before = out@;
                match parse_rule(&a[i]) {
                    Some(r) => {
                        out.push(r);
                        assert(out@.map_values(|r: PolicyRule| rule_view(r)) =~= before.map_values(|r: PolicyRule| rule_view(r)).push(rule_view(out@.last())));
                    },
                    None => {},
                }
                assert(out@.map_values(|r: PolicyRule| rule_view(r)) =~= base + rules_in(a@.take(i as int + 1)));
                i += 1;
            }
            assert(a@.take(a@.len() as int) =~= a@);
        },
        _ => {
            assert(out@.map_values(|r: PolicyRule| rule_view(r)) =~= old(out)@.map_values(|r: PolicyRule| rule_view(r)) + Seq::<RuleView>::empty());
        },
    }
}

/// The pack files the configuration asks for (`policy.packs`), repo-relative.
pub fn policy_pack_paths(doc: &Doc) -> (r: Vec<String>)
    ensures
        string_views(r@) == str_elems(opt_get(doc_get(*doc, "policy"@), "packs"@)),
{
    string_elems(crate::doc::opt_doc_get(doc.get("policy"), "packs"))
}

/// The policy a configuration states, given its pack files parsed.
pub fn parse_policy(doc: &Doc, packs: &Vec<Doc>) -> (r: PolicyConfig)
    ensures
        r.rules@.map_values(|r: PolicyRule| rule_view(r)) == policy_rules_of(*doc, packs@),
        r.layers@.map_values(|l: Layer| layer_view(l)) == policy_layers_of(*doc),
{
    let mut rules: Vec<PolicyRule> = Vec::new();
    let mut layers: Vec<Layer> = Vec::new();
    assert(rules@.map_values(|r: PolicyRule| rule_view(r)) =~= Seq::<RuleView>::empty());
    assert(layers@.map_values(|l: Layer| layer_view(l)) =~= Seq::<LayerView>::empty());
    match doc.get("policy") {
        None => {},
        Some(pol) => {
            rules_from(pol.get("rule"), &mut rules);
            let ghost inline = rules@.map_values(|r: PolicyRule| rule_view(r));
            let mut k: usize = 0;
            while k < packs.len()
                invariant
                    k <= packs@.len(),
                    rules@.map_values(|r: PolicyRule| rule_view(r)) == inline + pack_rules(packs@.take(k as int)),
                decreases packs@.len() - k,
            {
                proof { assert(packs@.take(k as int + 1).drop_last() =~= packs@.take(k as int)); }
                rules_from(packs[k].get("rule"), &mut rules);
                k += 1;
            }
            assert(packs@.take(packs@.len() as int) =~= packs@);
        },
    }
    match doc.get("boundaries") {
        None => {},
        Some(b) => {
            match get_str(b, "preset") {
                Some(p) => {
                    let pl = preset_layers(p);
                    let mut i: usize = 0;
                    let mut pl = pl;
                    let ghost pv = pl@.map_values(|l: Layer| layer_view(l));
                    while pl.len() > 0
                        invariant
                            pv == preset_views(p@),
                            pl@.len() <= pv.len(),
                            pl@.map_values(|l: Layer| layer_view(l)) == pv.skip(pv.len() - pl@.len()),
                            layers@.map_values(|l: Layer| layer_view(l)) == pv.take(pv.len() - pl@.len()),
                        decreases pl@.len(),
                    {
                        let ghost before = layers@;
                        let ghost pb = pl@;
                        let ghost m = pv.len() - pb.len();
                        let l = pl.remove(0);
                        assert(pb.map_values(|l: Layer| layer_view(l))[0] == layer_view(l));
                        assert(pv.skip(m)[0] == pv[m]);
                        assert(layer_view(l) == pv[m]);
                        layers.push(l);
                        assert(pl@ =~= pb.skip(1));
                        assert(pl@.map_values(|l: Layer| layer_view(l)) =~= pb.map_values(|l: Layer| layer_view(l)).skip(1));
                        assert(pv.skip(m).skip(1) =~= pv.skip(m + 1));
                        assert(layers@.map_values(|l: Layer| layer_view(l)) =~= before.map_values(|l: Layer| layer_view(l)).push(pv[m]));
                        assert(pv.take(m).push(pv[m]) =~= pv.take(m + 1));
                    }
                    assert(pv.take(pv.len() as int) =~= pv);
                },
                None => {},
            }
            let ghost mid = layers@.map_values(|l: Layer| layer_view(l));
            match b.get("layer") {
                Some(Doc::Array(a)) => {
                    let mut i: usize = 0;
                    while i < a.len()
                        invariant
                            i <= a@.len(),
                            layers@.map_values(|l: Layer| layer_view(l)) == mid + layers_in(a@.take(i as int)),
                        decreases a@.len() - i,
                    {
                        proof { assert(a@.take(i as int + 1).drop_last() =~= a@.take(i as int)); }
                        let ghost before = layers@;
                        match parse_layer(&a[i]) {
                            Some(l) => {
                                layers.push(l);
                                assert(layers@.map_values(|l: Layer| layer_view(l)) =~= before.map_values(|l: Layer| layer_view(l)).push(layer_view(layers@.last())));
                            },
                            None => {},
                        }
                        assert(layers@.map_values(|l: Layer| layer_view(l)) =~= mid + layers_in(a@.take(i as int + 1)));
                        i += 1;
                    }
                    assert(a@.take(a@.len() as int) =~= a@);
                },
                _ => {
                    assert(mid + Seq::<LayerView>::empty() =~= mid);
                },
            }
        },
    }
    PolicyConfig { rules, layers }
}

/// The effective configuration of a scan.
#[derive(Debug)]
pub struct Config {
    /// Per-rule severity overrides (rule name, severity).
    pub rule_severity: Vec<(String, Severity)>,
    /// Ignore-path globs; matching findings are dropped.
    pub ignore: Vec<String>,
    /// The severity threshold `audit` exits non-zero on.
    pub fail_on: Severity,
    pub duplication: DuplicationConfig,
    pub style: StyleConfig,
    pub policy: PolicyConfig,
    /// Extra entry-point globs merged into plugin detection.
    pub entry_points: Vec<String>,
    /// Extra plugin files or directories to load.
    pub plugin_paths: Vec<String>,
}

/// The severities the `[rules]` table sets: a rule is `"warn"` or
/// `{ level = "warn", ... }`; entries without a known level are skipped.
pub open spec fn rule_levels(t: Seq<(String, Doc)>) -> Seq<(Seq<char>, Severity)>
    decreases t.len(),
{
    if t.len() == 0 {
        Seq::empty()
    } else {
        let (k, v) = t.last();
        let level = match doc_str(Some(v)) {
            Some(l) => Some(l),
            None => doc_str(doc_get(v, "level"@)),
        };
        rule_levels(t.drop_last()) + match level {
            Some(l) => match severity_named(l) {
                Some(sev) => seq![(k@, sev)],
                None => Seq::empty(),
            },
            None => Seq::empty(),
        }
    }
}

pub open spec fn sev_rank(s: Severity) -> int {
    match s {
        Severity::Off => 0,
        Severity::Warn => 1,
        Severity::Error => 2,
    }
}

/// The lowest severity the names list, `error` when none is valid.
pub open spec fn lowest_severity(names: Seq<Seq<char>>) -> Severity
    decreases names.len(),
{
    if names.len() == 0 {
        Severity::Error
    } else {
        let rest = lowest_severity(names.drop_last());
        match severity_named(names.last()) {
            Some(s) => if sev_rank(s) < sev_rank(rest) { s } else { rest },
            None => rest,
        }
    }
}

/// A configuration with its strings as character sequences (the policy as
/// rules and layers).
pub struct ConfigView {
    pub rule_severity: Seq<(Seq<char>, Severity)>,
    pub ignore: Seq<Seq<char>>,
    pub fail_on: Severity,
    pub duplication: DuplicationConfig,
    pub style: StyleConfig,
    pub rules: Seq<RuleView>,
    pub layers: Seq<LayerView>,
    pub entry_points: Seq<Seq<char>>,
    pub plugin_paths: Seq<Seq<char>>,
}

pub open spec fn config_view(c: Config) -> ConfigView {
    ConfigView {
        rule_severity: c.rule_severity@.map_values(|e: (String, Severity)| (e.0@, e.1)),
        ignore: string_views(c.ignore@),
        fail_on: c.fail_on,
        duplication: c.duplication,
        style: c.style,
        rules: c.policy.rules@.map_values(|r: PolicyRule| rule_view(r)),
        layers: c.policy.layers@.map_values(|l: Layer| layer_view(l)),
        entry_points: string_views(c.entry_points@),
        plugin_paths: string_views(c.plugin_paths@),
    }
}

/// The defaults: no overrides or ignores, `fail-on = error`, duplication and
/// styling off, no policy, no extra entries or plugins.
pub open spec fn default_config() -> ConfigView {
    ConfigView {
        rule_severity: Seq::empty(),
        ignore: Seq::empty(),
        fail_on: Severity::Error,
        duplication: default_duplication(),
        style: StyleConfig { enabled: false },
        rules: Seq::empty(),
        layers: Seq::empty(),
        entry_points: Seq::empty(),
        plugin_paths: Seq::empty(),
    }
}

/// What a configuration document says, given its policy pack files parsed.
pub open spec fn config_of(doc: Doc, packs: Seq<Doc>) -> ConfigView {
    ConfigView {
        rule_severity: match doc_get(doc, "rules"@) {
            Some(Doc::Table(t)) => rule_levels(t@),
            _ => Seq::empty(),
        },
        ignore: str_elems(opt_get(doc_get(doc, "ignore"@), "paths"@)),
        fail_on: lowest_severity(str_elems(opt_get(doc_get(doc, "audit"@), "fail-on"@))),
        duplication: match doc_get(doc, "duplication"@) {
            Some(Doc::Table(t)) => duplication_of(Doc::Table(t)),
            _ => default_duplication(),
        },
        style: match doc_get(doc, "style"@) {
            Some(st) => StyleConfig { enabled: match doc_bool(doc_get(st, "enabled"@)) { Some(b) => b, None => true } },
            None => StyleConfig { enabled: false },
        },
        rules: policy_rules_of(doc, packs),
        layers: policy_layers_of(doc),
        entry_points: str_elems(opt_get(doc_get(doc, "entry_points"@), "add"@)),
        plugin_paths: str_elems(opt_get(doc_get(doc, "plugins"@), "paths"@)),
    }
}

fn levels_of(t: &Vec<(String, Doc)>) -> (r: Vec<(String, Severity)>)
    ensures
        r@.map_values(|e: (String, Severity)| (e.0@, e.1)) == rule_levels(t@),
{
    let mut out: Vec<(String, Severity)> = Vec::new();
    let mut i: usize = 0;
    while i < t.len()
        invariant
            i <= t@.len(),
            out@.map_values(|e: (String, Severity)| (e.0@, e.1)) == rule_levels(t@.take(i as int)),
        decreases t@.len() - i,
    {
        proof { assert(t@.take(i as int + 1).drop_last() =~= t@.take(i as int)); }
        let (k, v) = (&t[i].0, &t[i].1);
        let level = match v.as_str() {
            Some(l) => Some(l),
            None => get_str(v, "level"),
        };
        let ghost before = out@;
        match level {
            Some(l) => match Severity::from_name(l) {
                Some(sev) => {
                    out.push((copy_string(k), sev));
                    assert(out@.map_values(|e: (String, Severity)| (e.0@, e.1)) =~= before.map_values(|e: (String, Severity)| (e.0@, e.1)).push((k@, sev)));
                },
                None => {},
            },
            None => {},
        }
        assert(out@.map_values(|e: (String, Severity)| (e.0@, e.1)) =~= rule_levels(t@.take(i as int + 1)));
        i += 1;
    }
    assert(t@.take(t@.len() as int) =~= t@);
    out
}

fn lowest_of(names: &Vec<String>) -> (r: Severity)
    ensures
        r == lowest_severity(string_views(names@)),
{
    let mut cur = Severity::Error;
    let mut i: usize = 0;
    while i < names.len()
        invariant
            i <= names@.len(),
            cur == lowest_severity(string_views(names@).take(i as int)),
        decreases names@.len() - i,
    {
        proof {
            let t = string_views(names@).take(i as int + 1);
            assert(t.drop_last() =~= string_views(names@).take(i as int));
            assert(t.last() == names@[i as int]@);
        }
        match Severity::from_name(names[i].as_str()) {
            Some(s) => {
                let rs: u8 = match s { Severity::Off => 0, Severity::Warn => 1, Severity::Error => 2 };
                let rc: u8 = match cur { Severity::Off => 0, Severity::Warn => 1, Severity::Error => 2 };
                if rs < rc {
                    cur = s;
                }
            },
            None => {},
        }
        i += 1;
    }
    assert(string_views(names@).take(names@.len() as int) =~= string_views(names@));
    cur
}

impl Config {
    /// The defaults, used when there is no `noslop.toml`.
    pub fn defaults() -> (r: Config)
        ensures
            config_view(r) == default_config(),
    {
        let r = Config {
            rule_severity: Vec::new(),
            ignore: Vec::new(),
            fail_on: Severity::Error,
            duplication: DuplicationConfig::defaults(),
            style: StyleConfig { enabled: false },
            policy: PolicyConfig { rules: Vec::new(), layers: Vec::new() },
            entry_points: Vec::new(),
            plugin_paths: Vec::new(),
        };
        assert(config_view(r).rule_severity =~= Seq::<(Seq<char>, Severity)>::empty());
        assert(config_view(r).ignore =~= Seq::<Seq<char>>::empty());
        assert(config_view(r).rules =~= Seq::<RuleView>::empty());
        assert(config_view(r).layers =~= Seq::<LayerView>::empty());
        assert(config_view(r).entry_points =~= Seq::<Seq<char>>::empty());
        assert(config_view(r).plugin_paths =~= Seq::<Seq<char>>::empty());
        r
    }

    /// The configuration a parsed `noslop.toml` states, given its policy pack
    /// files parsed (those `policy_pack_paths` names that could be read).
    pub fn from_doc(doc: &Doc, packs: &Vec<Doc>) -> (r: Config)
        ensures
            config_view(r) == config_of(*doc, packs@),
    {
        let rule_severity = match doc.get("rules") {
            Some(Doc::Table(t)) => levels_of(t),
            _ => Vec::new(),
        };
        let ignore = string_elems(crate::doc::opt_doc_get(doc.get("ignore"), "paths"));
        let fails = string_elems(crate::doc::opt_doc_get(doc.get("audit"), "fail-on"));
        let fail_on = lowest_of(&fails);
        let duplication = match doc.get("duplication") {
            Some(t) => match t {
                Doc::Table(_) => parse_duplication(t),
                _ => DuplicationConfig::defaults(),
            },
            None => DuplicationConfig::defaults(),
        };
        let style = match doc.get("style") {
            Some(st) => StyleConfig {
                enabled: match st.get("enabled") {
                    Some(v) => match v.as_bool() {
                        Some(b) => b,
                        None => true,
                    },
                    None => true,
                },
            },
            None => StyleConfig { enabled: false },
        };
        let policy = parse_policy(doc, packs);
        let entry_points = string_elems(crate::doc::opt_doc_get(doc.get("entry_points"), "add"));
        let plugin_paths = string_elems(crate::doc::opt_doc_get(doc.get("plugins"), "paths"));
        let r = Config { rule_severity, ignore, fail_on, duplication, style, policy, entry_points, plugin_paths };
        proof {
            match doc_get(*doc, "rules"@) {
                Some(Doc::Table(t)) => {},
                _ => {
                    assert(config_view(r).rule_severity =~= Seq::<(Seq<char>, Severity)>::empty());
                },
            }
        }
        r
    }
}

/// The severity the overrides set for `name` (the last one given), if any.
pub open spec fn sev_lookup(t: Seq<(Seq<char>, Severity)>, name: Seq<char>) -> Option<Severity>
    decreases t.len(),
{
    if t.len() == 0 {
        None
    } else if t.last().0 == name {
        Some(t.last().1)
    } else {
        sev_lookup(t.drop_last(), name)
    }
}

fn lookup(t: &Vec<(String, Severity)>, name: &str) -> (r: Option<Severity>)
    ensures
        r == sev_lookup(t@.map_values(|e: (String, Severity)| (e.0@, e.1)), name@),
{
    let ghost tv = t@.map_values(|e: (String, Severity)| (e.0@, e.1));
    let mut n = t.len();
    assert(tv.take(n as int) =~= tv);
    while n > 0
        invariant
            n <= t@.len(),
            tv == t@.map_values(|e: (String, Severity)| (e.0@, e.1)),
            sev_lookup(tv, name@) == sev_lookup(tv.take(n as int), name@),
        decreases n,
    {
        proof {
            assert(tv.take(n as int).drop_last() =~= tv.take(n as int - 1));
            assert(tv.take(n as int).last() == (t@[n - 1].0@, t@[n - 1].1));
        }
        if str_is(t[n - 1].0.as_str(), name) {
            return Some(t[n - 1].1);
        }
        n -= 1;
    }
    None
}

impl Config {
    /// The configuration `noslop.toml`'s text states, given the texts of the
    /// policy packs it names that could be read (a pack that is no TOML is
    /// left out); the defaults where the text is no TOML.
    pub fn parse(text: &str, pack_texts: &Vec<String>) -> (r: Config)
        ensures
            config_view(r) == match toml_doc_of(text@) {
                Some(d) => config_of(d, parsed_packs(string_views(pack_texts@))),
                None => default_config(),
            },
    {
        let doc = match parse_toml(text) {
            Some(d) => d,
            None => { return Config::defaults(); },
        };
        let mut packs: Vec<Doc> = Vec::new();
        let mut i: usize = 0;
        while i < pack_texts.len()
            invariant
                i <= pack_texts@.len(),
                packs@ == parsed_packs(string_views(pack_texts@).take(i as int)),
            decreases pack_texts@.len() - i,
        {
            proof {
                let t = string_views(pack_texts@).take(i + 1);
                assert(t.drop_last() =~= string_views(pack_texts@).take(i as int));
                assert(t.last() == pack_texts@[i as int]@);
            }
            match parse_toml(pack_texts[i].as_str()) {
                Some(d) => { packs.push(d); },
                None => {},
            }
            i += 1;
        }
        assert(string_views(pack_texts@).take(pack_texts@.len() as int) =~= string_views(pack_texts@));
        Config::from_doc(&doc, &packs)
    }

    /// Force-enables duplication detection (the `dupes` command).
    pub fn enable_duplication(&mut self)
        ensures
            config_view(*final(self)) == (ConfigView {
                duplication: DuplicationConfig { enabled: true, ..old(self).duplication },
                ..config_view(*old(self))
            }),
    {
        self.duplication.enabled = true;
    }

    /// Discovery refinements for the plugin engine.
    pub fn discover_options(&self) -> (r: crate::discover::registry::DiscoverOptions)
        ensures
            string_views(r.entry_points@) == string_views(self.entry_points@),
            string_views(r.plugin_paths@) == string_views(self.plugin_paths@),
    {
        crate::discover::registry::DiscoverOptions {
            entry_points: crate::discover::packages::copy_strs(&self.entry_points),
            plugin_paths: crate::discover::packages::copy_strs(&self.plugin_paths),
        }
    }

    /// The configured severity for a rule, or the pass-provided default.
    pub fn severity_for(&self, rule: RuleId, default: Severity) -> (r: Severity)
        ensures
            r == match sev_lookup(config_view(*self).rule_severity, rule_name(rule)) {
                Some(s) => s,
                None => default,
            },
    {
        match lookup(&self.rule_severity, rule.as_str()) {
            Some(s) => s,
            None => default,
        }
    }

    /// Is this repo-relative path excluded by an ignore glob?
    pub fn is_ignored(&self, path: &str) -> (r: bool)
        ensures
            r == glob_set_matches(string_views(self.ignore@), path@),
    {
        let mut paths: Vec<String> = Vec::new();
        paths.push(owned(path));
        let m = match_globs(&self.ignore, &paths);
        assert(paths@[0]@ == path@);
        m[0]
    }

    /// The severity at which every suppression and `@expected-unused` tag
    /// must carry a `-- reason`, if `[rules].require-suppression-reason` is
    /// set to something other than `off`.
    pub fn require_suppression_reason(&self) -> (r: Option<Severity>)
        ensures
            r == match sev_lookup(config_view(*self).rule_severity, "require-suppression-reason"@) {
                Some(s) => if s == Severity::Off { None } else { Some(s) },
                None => None,
            },
    {
        match lookup(&self.rule_severity, "require-suppression-reason") {
            Some(s) => match s {
                Severity::Off => None,
                _ => Some(s),
            },
            None => None,
        }
    }
}


/// A configuration document without keys (an empty `noslop.toml`, or none at
/// all) configures exactly the defaults, whatever pack files were read.
pub proof fn law_empty_config_is_default(t: Vec<(String, Doc)>, packs: Seq<Doc>)
    requires
        t@.len() == 0,
    ensures
        config_of(Doc::Table(t), packs) == default_config(),
{
    let c = config_of(Doc::Table(t), packs);
    assert(c.rule_severity =~= Seq::<(Seq<char>, Severity)>::empty());
    assert(c.ignore =~= Seq::<Seq<char>>::empty());
    assert(c.rules =~= Seq::<RuleView>::empty());
    assert(c.layers =~= Seq::<LayerView>::empty());
    assert(c.entry_points =~= Seq::<Seq<char>>::empty());
    assert(c.plugin_paths =~= Seq::<Seq<char>>::empty());
}


// ── [complexity]: the integer limits ────────────────────────────────────────

/// A path-scoped relaxation of the complexity limits (`[[complexity.override]]`),
/// which must give a `reason`. `entry` is its place in the override list, by
/// which the caller finds its CRAP threshold.
#[derive(Debug)]
pub struct LimitOverride {
    pub entry: usize,
    pub paths: Vec<String>,
    pub max_cyclomatic: Option<u32>,
    pub max_cognitive: Option<u32>,
    pub max_loc: Option<u32>,
    pub severity: Option<Severity>,
    pub reason: String,
}

/// The integer complexity limits of `[complexity]`, and its overrides.
#[derive(Debug)]
pub struct ComplexityLimits {
    pub enabled: bool,
    pub max_cyclomatic: u32,
    pub max_cognitive: u32,
    pub max_loc: u32,
    pub overrides: Vec<LimitOverride>,
}

pub struct OverrideView {
    pub entry: int,
    pub paths: Seq<Seq<char>>,
    pub max_cyclomatic: Option<u32>,
    pub max_cognitive: Option<u32>,
    pub max_loc: Option<u32>,
    pub severity: Option<Severity>,
    pub reason: Seq<char>,
}

pub struct LimitsView {
    pub enabled: bool,
    pub max_cyclomatic: u32,
    pub max_cognitive: u32,
    pub max_loc: u32,
    pub overrides: Seq<OverrideView>,
}

pub open spec fn override_view(o: LimitOverride) -> OverrideView {
    OverrideView {
        entry: o.entry as int,
        paths: string_views(o.paths@),
        max_cyclomatic: o.max_cyclomatic,
        max_cognitive: o.max_cognitive,
        max_loc: o.max_loc,
        severity: o.severity,
        reason: o.reason@,
    }
}

pub open spec fn limits_view(l: ComplexityLimits) -> LimitsView {
    LimitsView {
        enabled: l.enabled,
        max_cyclomatic: l.max_cyclomatic,
        max_cognitive: l.max_cognitive,
        max_loc: l.max_loc,
        overrides: l.overrides@.map_values(|o: LimitOverride| override_view(o)),
    }
}

/// An integer limit as kept: at least 1, cut to `u32` as `as` cuts.
pub open spec fn at_least_one(v: i64) -> u32 {
    (if v < 1 { 1 } else { v }) as u32
}

/// An override's integer limit as kept: cut to `u32` as `as` cuts.
pub open spec fn as_limit(v: Option<i64>) -> Option<u32> {
    match v {
        Some(x) => Some(x as u32),
        None => None,
    }
}

/// The length limit of a table: `max-loc`, or `max-unit-size` where there is
/// no `max-loc`.
pub open spec fn loc_entry(t: Option<Doc>) -> Option<Doc> {
    match opt_get(t, "max-loc"@) {
        Some(x) => Some(x),
        None => opt_get(t, "max-unit-size"@),
    }
}

/// The override the `entry`-th element of the list states; none without a
/// string `reason`.
pub open spec fn override_of(o: Doc, entry: int) -> Option<OverrideView> {
    match doc_str(doc_get(o, "reason"@)) {
        None => None,
        Some(reason) => Some(OverrideView {
            entry,
            paths: str_elems(doc_get(o, "paths"@)),
            max_cyclomatic: as_limit(doc_int(doc_get(o, "max-cyclomatic"@))),
            max_cognitive: as_limit(doc_int(doc_get(o, "max-cognitive"@))),
            max_loc: as_limit(doc_int(loc_entry(Some(o)))),
            severity: match doc_str(doc_get(o, "severity"@)) {
                Some(n) => severity_named(n),
                None => None,
            },
            reason,
        }),
    }
}

/// The overrides the first `n` elements of the list state, in order.
pub open spec fn overrides_of(a: Seq<Doc>, n: int) -> Seq<OverrideView>
    decreases n,
{
    if n <= 0 {
        Seq::empty()
    } else {
        overrides_of(a, n - 1) + match override_of(a[n - 1], n - 1) {
            Some(o) => seq![o],
            None => Seq::empty(),
        }
    }
}

/// The integer limits `[complexity]` (the value `c`, if any) states: on
/// unless `enabled = false`; cyclomatic 20, cognitive 15 and length 60 unless
/// given (each at least 1); and the overrides that give a reason.
pub open spec fn limits_of(c: Option<Doc>) -> LimitsView {
    LimitsView {
        enabled: match doc_bool(opt_get(c, "enabled"@)) { Some(b) => b, None => true },
        max_cyclomatic: match doc_int(opt_get(c, "max-cyclomatic"@)) { Some(v) => at_least_one(v), None => 20 },
        max_cognitive: match doc_int(opt_get(c, "max-cognitive"@)) { Some(v) => at_least_one(v), None => 15 },
        max_loc: match doc_int(loc_entry(c)) { Some(v) => at_least_one(v), None => 60 },
        overrides: match opt_get(c, "override"@) {
            Some(Doc::Array(a)) => overrides_of(a@, a@.len() as int),
            _ => Seq::empty(),
        },
    }
}

fn int_limit(d: Option<&Doc>) -> (r: Option<u32>)
    ensures
        r == as_limit(doc_int(match d { Some(x) => Some(*x), None => None })),
{
    match d {
        Some(x) => match x.as_int() {
            Some(v) => Some(v as u32),
            None => None,
        },
        None => None,
    }
}

fn loc_of<'a>(t: &'a Doc) -> (r: Option<&'a Doc>)
    ensures
        match loc_entry(Some(*t)) { Some(v) => r matches Some(x) && *x == v, None => r is None },
{
    match t.get("max-loc") {
        Some(x) => Some(x),
        None => t.get("max-unit-size"),
    }
}

fn override_at(o: &Doc, entry: usize) -> (r: Option<LimitOverride>)
    ensures
        match override_of(*o, entry as int) {
            Some(v) => r matches Some(x) && override_view(x) == v,
            None => r is None,
        },
{
    let reason = match o.get("reason") {
        Some(x) => match x.as_str() {
            Some(s) => owned(s),
            None => { return None; },
        },
        None => { return None; },
    };
    let severity = match o.get("severity") {
        Some(x) => match x.as_str() {
            Some(n) => Severity::from_name(n),
            None => None,
        },
        None => None,
    };
    Some(LimitOverride {
        entry,
        paths: string_elems(o.get("paths")),
        max_cyclomatic: int_limit(o.get("max-cyclomatic")),
        max_cognitive: int_limit(o.get("max-cognitive")),
        max_loc: int_limit(loc_of(o)),
        severity,
        reason,
    })
}

fn limit_or(d: Option<&Doc>, default: u32) -> (r: u32)
    ensures
        r == match doc_int(match d { Some(x) => Some(*x), None => None }) { Some(v) => at_least_one(v), None => default },
{
    match d {
        Some(x) => match x.as_int() {
            Some(v) => (if v < 1 { 1 } else { v }) as u32,
            None => default,
        },
        None => default,
    }
}

/// The integer complexity limits a configuration document states in
/// `[complexity]`; the defaults where it has none.
pub fn complexity_limits(doc: &Doc) -> (r: ComplexityLimits)
    ensures
        limits_view(r) == limits_of(doc_get(*doc, "complexity"@)),
{
    let c = doc.get("complexity");
    let enabled = match crate::doc::opt_doc_get(c, "enabled") {
        Some(x) => match x.as_bool() {
            Some(b) => b,
            None => true,
        },
        None => true,
    };
    let max_cyclomatic = limit_or(crate::doc::opt_doc_get(c, "max-cyclomatic"), 20);
    let max_cognitive = limit_or(crate::doc::opt_doc_get(c, "max-cognitive"), 15);
    let max_loc = match c {
        Some(t) => limit_or(loc_of(t), 60),
        None => 60,
    };
    let mut overrides: Vec<LimitOverride> = Vec::new();
    match crate::doc::opt_doc_get(c, "override") {
        Some(Doc::Array(a)) => {
            let mut i: usize = 0;
            while i < a.len()
                invariant
                    i <= a@.len(),
                    overrides@.map_values(|o: LimitOverride| override_view(o)) == overrides_of(a@, i as int),
                decreases a@.len() - i,
            {
                let ghost before = overrides@;
                match override_at(&a[i], i) {
                    Some(o) => {
                        overrides.push(o);
                        assert(overrides@.map_values(|o: LimitOverride| override_view(o))
                            =~= before.map_values(|o: LimitOverride| override_view(o)).push(override_view(o)));
                    },
                    None => {
                        assert(overrides@ =~= before);
                    },
                }
                i += 1;
            }
        },
        _ => {},
    }
    let r = ComplexityLimits { enabled, max_cyclomatic, max_cognitive, max_loc, overrides };
    proof {
        match opt_get(doc_get(*doc, "complexity"@), "override"@) {
            Some(Doc::Array(a)) => {},
            _ => {
                assert(limits_view(r).overrides =~= Seq::<OverrideView>::empty());
            },
        }
    }
    r
}

} // verus!
