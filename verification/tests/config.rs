use noslop::analysis::{DuplicationMode, Layer, PolicyKind};
use noslop::config::{parse_policy, policy_pack_paths, preset_layers, Config};
use noslop::doc::Doc;
use noslop::finding::{RuleId, Severity};

fn s(v: &str) -> Doc {
    Doc::Str(v.to_string())
}

fn t(entries: Vec<(&str, Doc)>) -> Doc {
    Doc::Table(entries.into_iter().map(|(k, v)| (k.to_string(), v)).collect())
}

fn a(items: &[&str]) -> Doc {
    Doc::Array(items.iter().map(|x| s(x)).collect())
}

fn names(layers: &[Layer]) -> Vec<&str> {
    layers.iter().map(|l| l.name.as_str()).collect()
}

#[test]
fn layer_presets() {
    let layered = preset_layers("layered");
    assert_eq!(names(&layered), vec!["domain", "application", "infrastructure", "ui"]);
    assert_eq!(layered[1].paths, vec!["**/application/**".to_string(), "**/app/**".to_string()]);
    assert_eq!(layered[2].allow, vec!["domain".to_string(), "application".to_string()]);
    assert!(layered[0].allow.is_empty());
    let hex = preset_layers("hexagonal");
    assert_eq!(names(&hex), vec!["core", "ports", "adapters"]);
    assert_eq!(hex[2].allow, vec!["ports".to_string(), "core".to_string()]);
    let fsd = preset_layers("feature-sliced");
    assert_eq!(names(&fsd), vec!["shared", "entities", "features", "widgets", "pages", "processes", "app"]);
    assert_eq!(fsd[3].paths, vec!["**/widgets/**".to_string()]);
    assert_eq!(fsd[3].allow, vec!["shared".to_string(), "entities".to_string(), "features".to_string()]);
    assert!(fsd[0].allow.is_empty());
    assert!(preset_layers("onion").is_empty());
}

#[test]
fn policy_from_inline_rules_packs_and_boundaries() {
    let doc = t(vec![
        (
            "policy",
            t(vec![
                (
                    "rule",
                    Doc::Array(vec![
                        t(vec![("id", s("no-moment")), ("kind", s("banned-import")), ("specifiers", a(&["moment"])),
                            ("severity", s("error")), ("hint", s("use date-fns"))]),
                        t(vec![("id", s("odd")), ("kind", s("banned-thing")), ("specifiers", a(&["x"]))]),
                        t(vec![("kind", s("banned-call")), ("callees", a(&["eval"]))]),
                    ]),
                ),
                ("packs", a(&["policies/base.toml"])),
            ]),
        ),
        (
            "boundaries",
            t(vec![
                ("preset", s("hexagonal")),
                ("layer", Doc::Array(vec![t(vec![("name", s("tests")), ("paths", a(&["tests/**"])), ("allow", a(&["core"]))]),
                    t(vec![("paths", a(&["x/**"]))])])),
            ]),
        ),
    ]);
    assert_eq!(policy_pack_paths(&doc), vec!["policies/base.toml".to_string()]);
    let pack = t(vec![(
        "rule",
        Doc::Array(vec![t(vec![("id", s("pure")), ("kind", s("banned-effect")), ("effects", a(&["network"])),
            ("paths", a(&["src/domain/**"]))])]),
    )]);
    let p = parse_policy(&doc, &vec![pack]);
    assert_eq!(p.rules.len(), 2);
    assert_eq!(p.rules[0].id, "no-moment");
    assert_eq!(p.rules[0].kind, PolicyKind::BannedImport);
    assert_eq!(p.rules[0].patterns, vec!["moment".to_string()]);
    assert_eq!(p.rules[0].severity, Severity::Error);
    assert_eq!(p.rules[0].hint.as_deref(), Some("use date-fns"));
    assert_eq!(p.rules[1].id, "pure");
    assert_eq!(p.rules[1].kind, PolicyKind::BannedEffect);
    assert_eq!(p.rules[1].patterns, vec!["network".to_string()]);
    assert_eq!(p.rules[1].paths, vec!["src/domain/**".to_string()]);
    assert_eq!(p.rules[1].severity, Severity::Warn);
    assert!(p.rules[1].hint.is_none());
    assert_eq!(names(&p.layers), vec!["core", "ports", "adapters", "tests"]);
    assert_eq!(p.layers[3].allow, vec!["core".to_string()]);
}

#[test]
fn config_sections() {
    let doc = t(vec![
        ("rules", t(vec![("require-suppression-reason", s("warn")), ("unused-export", s("bogus"))])),
        ("ignore", t(vec![("paths", a(&["generated/**"]))])),
        ("audit", t(vec![("fail-on", a(&["error", "warn", "loud"]))])),
        ("duplication", t(vec![("mode", s("semantic")), ("min-tokens", Doc::Int(0)), ("skip-local", Doc::Bool(true))])),
        ("style", t(Vec::new())),
        ("entry_points", t(vec![("add", a(&["scripts/*.ts"]))])),
        ("plugins", t(vec![("paths", a(&["tools/plugins"]))])),
    ]);
    let mut c = Config::from_doc(&doc, &Vec::new());
    assert_eq!(c.rule_severity.len(), 1);
    assert_eq!(c.require_suppression_reason(), Some(Severity::Warn));
    assert_eq!(c.severity_for(RuleId::UnusedExport, Severity::Warn), Severity::Warn);
    assert_eq!(c.fail_on, Severity::Warn);
    assert!(c.duplication.enabled);
    assert_eq!(c.duplication.mode, DuplicationMode::Semantic);
    assert_eq!(c.duplication.min_tokens, 1);
    assert!(c.duplication.skip_local);
    assert!(c.style.enabled);
    assert!(c.is_ignored("generated/api/client.ts"));
    assert!(!c.is_ignored("src/api.ts"));
    let opts = c.discover_options();
    assert_eq!(opts.entry_points, vec!["scripts/*.ts".to_string()]);
    assert_eq!(opts.plugin_paths, vec!["tools/plugins".to_string()]);
    let off = Config::from_doc(&t(vec![("rules", t(vec![("require-suppression-reason", s("off"))])),
        ("style", t(vec![("enabled", Doc::Bool(false))]))]), &Vec::new());
    assert_eq!(off.require_suppression_reason(), None);
    assert!(!off.style.enabled);
    let mut quiet = Config::defaults();
    assert!(!quiet.duplication.enabled);
    quiet.enable_duplication();
    assert!(quiet.duplication.enabled);
    assert_eq!(quiet.duplication.mode, DuplicationMode::Mild);
    assert_eq!(quiet.duplication.min_tokens, 30);
    c.enable_duplication();
    assert_eq!(c.duplication.mode, DuplicationMode::Semantic);
}

#[test]
fn complexity_enabled_without_noslop_toml() {
    let limits = noslop::config::complexity_limits(&Doc::Null);
    assert!(limits.enabled, "zero-config scans should report complexity + large functions");
    assert_eq!((limits.max_cyclomatic, limits.max_cognitive, limits.max_loc), (20, 15, 60));
}

#[test]
fn complexity_can_be_disabled_in_toml() {
    let text = "[complexity]\nenabled = false\n";
    let doc = noslop::doc_text::parse_toml(text).unwrap();
    assert!(!noslop::config::complexity_limits(&doc).enabled);
}

#[test]
fn complexity_limits_and_reasoned_overrides() {
    let text = "[complexity]\nmax-cyclomatic = 0\nmax-unit-size = 80\n\n[[complexity.override]]\npaths = [\"legacy/**\"]\nmax-cyclomatic = 40\n\n[[complexity.override]]\npaths = [\"gen/**\"]\nmax-loc = 500\nseverity = \"warn\"\nreason = \"generated\"\n";
    let doc = noslop::doc_text::parse_toml(text).unwrap();
    let limits = noslop::config::complexity_limits(&doc);
    assert!(limits.enabled);
    assert_eq!((limits.max_cyclomatic, limits.max_cognitive, limits.max_loc), (1, 15, 80));
    assert_eq!(limits.overrides.len(), 1);
    let o = &limits.overrides[0];
    assert_eq!(o.entry, 1);
    assert_eq!(o.paths, vec!["gen/**".to_string()]);
    assert_eq!((o.max_cyclomatic, o.max_loc), (None, Some(500)));
    assert_eq!(o.severity, Some(Severity::Warn));
    assert_eq!(o.reason, "generated");
}

#[test]
fn config_text_is_parsed_with_its_packs() {
    let text = "[rules]\nunused-export = \"error\"\n\n[policy]\npacks = [\"a.toml\", \"b.toml\"]\n";
    assert_eq!(noslop::config::pack_paths_in(text), vec!["a.toml".to_string(), "b.toml".to_string()]);
    let packs = vec![
        "[[rule]]\nid = \"no-fs\"\nkind = \"banned-import\"\nmodules = [\"fs\"]\n".to_string(),
        "not [ toml".to_string(),
    ];
    let c = Config::parse(text, &packs);
    assert_eq!(c.severity_for(RuleId::UnusedExport, Severity::Warn), Severity::Error);
    assert_eq!(c.policy.rules.len(), 1);
    assert_eq!(c.policy.rules[0].id, "no-fs");
    let bad = Config::parse("[rules\n", &Vec::new());
    assert_eq!(bad.fail_on, Severity::Error);
    assert!(bad.rule_severity.is_empty());
    assert!(noslop::config::pack_paths_in("[rules\n").is_empty());
}
