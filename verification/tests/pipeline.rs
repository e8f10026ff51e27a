use noslop::config::Config;
use noslop::cycles;
use noslop::discover::plugin_def::{DetectRule, PluginDef};
use noslop::discover::registry::PluginRegistry;
use noslop::discover::walk::sort_walked;
use noslop::doc::Doc;
use noslop::facts::{reconcile_symbols, Annotation, FileFacts, ImportKind, ImportedName, RawImport, RawRef, FileMetrics, RawSymbol, StyleFacts, Suppression, SymbolKind, Visibility};
use noslop::finding::{Confidence, Finding, RuleId, Severity};
use noslop::ids::{FileRole, Language, Span};
use noslop::ir::{FileNode, Graph};
use noslop::postprocess::postprocess;
use noslop::workspace::ManifestKind;

fn node(id: usize, path: &str, language: Language) -> FileNode {
    FileNode {
        id,
        path: path.to_string(),
        language,
        is_entry: false,
        is_test: false,
        is_implicit_used: false,
        package: ".".to_string(),
        role: FileRole::Source,
    }
}

fn graph(files: Vec<FileNode>, imports: Vec<Vec<usize>>) -> Graph {
    let n = files.len();
    let mut imported_by = vec![Vec::new(); n];
    for (a, targets) in imports.iter().enumerate() {
        for &b in targets {
            imported_by[b].push(a);
        }
    }
    Graph {
        files,
        symbols: Vec::new(),
        imports,
        imported_by,
        imported_names: vec![Vec::new(); n],
        external_used: Vec::new(),
        dynamic_packages: Vec::new(),
        string_literals: Vec::new(),
        accessed_members: Vec::new(),
    }
}

fn facts(path: &str, suppressions: Vec<Suppression>) -> FileFacts {
    FileFacts {
        file: 0,
        path: path.to_string(),
        language: Language::TypeScript,
        content_hash: 0,
        symbols: Vec::new(),
        imports: Vec::new(),
        exports: Vec::new(),
        refs: Vec::new(),
        member_accesses: Vec::new(),
        markers: Vec::new(),
        suppressions,
        annotations: Vec::new(),
        string_literals: Vec::new(),
        metrics: FileMetrics { loc: 0 },
        functions: Vec::new(),
        calls: Vec::new(),
        style: StyleFacts {
            declared_tokens: Vec::new(),
            var_refs: Vec::new(),
            class_selectors: Vec::new(),
            class_refs: Vec::new(),
        },
    }
}

fn finding(rule: RuleId, file: &str, line: u32) -> Finding {
    Finding {
        rule,
        severity: Severity::Warn,
        confidence: Confidence::High,
        symbol: None,
        file: file.to_string(),
        span: Span::new(line, line),
        message: "m".to_string(),
        reason: "r".to_string(),
    }
}

fn plugin(name: &str, entry: &str) -> PluginDef {
    PluginDef {
        name: name.to_string(),
        language: None,
        languages: Vec::new(),
        detect: DetectRule::default(),
        entry_points: vec![noslop::discover::plugin_def::GlobRule { glob: entry.to_string() }],
        config_patterns: Vec::new(),
        test_patterns: Vec::new(),
        route_decorators: Vec::new(),
        tooling_dependencies: Vec::new(),
    }
}

#[test]
fn empty_config_is_the_default() {
    let empty = Config::from_doc(&Doc::Table(Vec::new()), &Vec::new());
    let defaults = Config::defaults();
    assert_eq!(empty.fail_on, defaults.fail_on);
    assert_eq!(empty.fail_on, Severity::Error);
    assert!(empty.rule_severity.is_empty() && empty.ignore.is_empty());
    assert!(!empty.duplication.enabled && !empty.style.enabled);
    assert_eq!(empty.duplication.min_tokens, defaults.duplication.min_tokens);
    assert!(empty.policy.rules.is_empty() && empty.policy.layers.is_empty());
}

#[test]
fn import_cycle_is_one_group() {
    let g = graph(
        vec![
            node(0, "pkg/b.py", Language::Python),
            node(1, "pkg/a.py", Language::Python),
            node(2, "pkg/c.py", Language::Python),
        ],
        vec![vec![1], vec![0], vec![0]],
    );
    let out = cycles::run(&g);
    assert_eq!(out.len(), 1);
    assert_eq!(out[0].rule, RuleId::CircularImports);
    assert_eq!(out[0].severity, Severity::Error);
    assert_eq!(out[0].file, "pkg/a.py");
    assert_eq!(out[0].message, "Circular import group (2 files): pkg/a.py \u{21c4} pkg/b.py");
}

#[test]
fn mixed_language_cycle_is_a_warning_and_acyclic_graph_is_clean() {
    let g = graph(
        vec![node(0, "a.ts", Language::TypeScript), node(1, "b.py", Language::Python)],
        vec![vec![1], vec![0]],
    );
    assert_eq!(cycles::run(&g)[0].severity, Severity::Warn);
    let g = graph(
        vec![node(0, "a.ts", Language::TypeScript), node(1, "b.ts", Language::TypeScript)],
        vec![vec![1], vec![]],
    );
    assert!(cycles::run(&g).is_empty());
}

#[test]
fn suppressed_findings_are_dropped_and_counted() {
    let raw = vec![
        finding(RuleId::UnusedExport, "a.ts", 5),
        finding(RuleId::UnusedExport, "a.ts", 9),
        finding(RuleId::UnusedImport, "a.ts", 5),
    ];
    let supp = Suppression {
        rule: "unused-export".to_string(),
        file_scoped: false,
        line: 5,
        reason: Some("kept for the plugin API".to_string()),
    };
    let (kept, suppressed) = postprocess(raw, &[facts("a.ts", vec![supp])], &Config::defaults());
    assert_eq!(suppressed, 1);
    assert_eq!(kept.len(), 2);
    assert_eq!((kept[0].rule, kept[0].span.start_line), (RuleId::UnusedExport, 9));
    assert_eq!(kept[1].rule, RuleId::UnusedImport);
}

#[test]
fn registry_keeps_the_first_plugin_of_a_name() {
    let reg = PluginRegistry::load(vec![plugin("next", "app/**"), plugin("vite", "src/main.*"), plugin("next", "pages/**")]);
    let names: Vec<&str> = reg.all().iter().map(|p| p.name.as_str()).collect();
    assert_eq!(names, vec!["next", "vite"]);
    assert_eq!(reg.all()[0].entry_points[0].glob, "app/**");
}

#[test]
fn walked_files_are_sorted_into_manifests_and_sources() {
    let rels = vec![
        "package.json".to_string(),
        "src/index.ts".to_string(),
        "README.md".to_string(),
        "api/pyproject.toml".to_string(),
        "api/app/main.py".to_string(),
        ".eslintrc".to_string(),
    ];
    let (manifests, files) = sort_walked("/repo", &rels);
    assert_eq!(manifests.len(), 2);
    assert_eq!((manifests[0].kind, manifests[0].dir.as_str()), (ManifestKind::PackageJson, ""));
    assert_eq!((manifests[1].kind, manifests[1].dir.as_str()), (ManifestKind::PyProject, "api"));
    assert_eq!(files.len(), 2);
    assert_eq!(files[0].rel_path, "src/index.ts");
    assert_eq!(files[0].abs_path, "/repo/src/index.ts");
    assert_eq!(files[0].language, Language::TypeScript);
    assert_eq!(files[1].language, Language::Python);
    assert!(files.iter().all(|f| f.package.is_empty()));
}

fn package(id: &str, root: &str, plugins: &[&str]) -> noslop::workspace::Package {
    noslop::workspace::Package {
        id: id.to_string(),
        name: String::new(),
        root: root.to_string(),
        language: Language::TypeScript,
        manifest_kind: ManifestKind::PackageJson,
        dependencies: Vec::new(),
        ts_base_url: None,
        ts_paths: Vec::new(),
        py_roots: Vec::new(),
        plugins: plugins.iter().map(|p| p.to_string()).collect(),
        framework_deps: Vec::new(),
        route_decorators: Vec::new(),
    }
}

fn discovered(rel: &str, package: &str) -> noslop::workspace::DiscoveredFile {
    noslop::workspace::DiscoveredFile {
        rel_path: rel.to_string(),
        abs_path: format!("/repo/{rel}"),
        language: Language::TypeScript,
        package: package.to_string(),
        role: FileRole::Source,
    }
}

#[test]
fn init_lists_the_packages_that_hold_files() {
    let ws = noslop::workspace::Workspace {
        root: "/repo".to_string(),
        packages: vec![package(".", "", &[]), package("api", "api", &["fastapi", "pytest"]), package("empty", "docs", &["vite"])],
        files: vec![discovered("a.ts", "."), discovered("api/main.py", "api"), discovered("b.ts", ".")],
        entry_points: Vec::new(),
        test_files: Vec::new(),
    };
    let text = noslop::cli::init_toml(&ws);
    let expected_head = "schema = 1\n\n# Detected scan roots (auto-detection — edit to refine):\n\
        #   . (2 files) — plugins: fallback heuristics\n\
        #   api (1 files) — plugins: fastapi, pytest\n\n[rules]\n";
    assert!(text.starts_with(expected_head), "{text}");
    assert!(!text.contains("docs"));
    assert!(text.ends_with("fail-on = [\"error\"]\n"));
}

#[test]
fn exports_and_annotations_are_reconciled_onto_symbols() {
    let sym = |name: &str, line: u32| RawSymbol {
        name: name.to_string(),
        kind: SymbolKind::Function,
        span: Span::new(line, line),
        exported: false,
        is_type_only: false,
        parent: None,
        visibility: None,
    };
    let mut symbols = vec![sym("a", 3), sym("b", 3), sym("c", 7)];
    let ann = |line: u32| Annotation { visibility: Visibility::Public, line, reason: None };
    reconcile_symbols(&mut symbols, &vec!["c".to_string()], &vec![ann(3), ann(3), ann(5)]);
    assert!(!symbols[0].exported && !symbols[1].exported && symbols[2].exported);
    assert_eq!(symbols[0].visibility, Some(Visibility::Public));
    assert_eq!(symbols[1].visibility, Some(Visibility::Public));
    assert_eq!(symbols[2].visibility, None);
}

#[test]
fn graph_well_formedness_is_checked() {
    let ok = graph(vec![node(0, "a.ts", Language::TypeScript), node(1, "b.ts", Language::TypeScript)], vec![vec![1], vec![]]);
    assert!(ok.is_wf());
    let mut bad = graph(vec![node(0, "a.ts", Language::TypeScript)], vec![vec![]]);
    bad.imports = vec![vec![3]];
    assert!(!bad.is_wf());
}

#[test]
fn cache_hits_only_on_the_same_hash() {
    let cache = noslop::cache::Cache::from_entries(vec![("a.ts".to_string(), 7, facts("a.ts", Vec::new()))]);
    assert!(cache.get("a.ts", 7).is_some());
    assert!(cache.get("a.ts", 8).is_none());
    assert!(cache.get("b.ts", 7).is_none());
}

#[test]
fn saved_facts_read_back_while_the_hash_holds() {
    let mut a = facts("a.ts", Vec::new());
    a.content_hash = 11;
    let mut b = facts("b.ts", Vec::new());
    b.content_hash = 22;
    let entries = noslop::cache::Cache::entries_to_save(vec![a, b]);
    assert_eq!(entries.len(), 2);
    assert_eq!((entries[0].0.as_str(), entries[0].1), ("a.ts", 11));
    assert_eq!((entries[1].0.as_str(), entries[1].1), ("b.ts", 22));
    let cache = noslop::cache::Cache::from_entries(entries);
    assert!(cache.was_loaded());
    assert_eq!(cache.get("a.ts", 11).map(|f| f.path.as_str()), Some("a.ts"));
    assert_eq!(cache.get("b.ts", 22).map(|f| f.content_hash), Some(22));
    assert!(cache.get("a.ts", 22).is_none());
    assert!(cache.get("c.ts", 11).is_none());
    let empty = noslop::cache::Cache::from_entries(noslop::cache::Cache::entries_to_save(Vec::new()));
    assert!(!empty.was_loaded());
}

#[test]
fn reachability_splits_into_production_and_tests() {
    let mut files = vec![
        node(0, "src/main.ts", Language::TypeScript),
        node(1, "src/lib.ts", Language::TypeScript),
        node(2, "test/lib.test.ts", Language::TypeScript),
        node(3, "src/helper.ts", Language::TypeScript),
        node(4, "src/orphan.ts", Language::TypeScript),
    ];
    files[0].is_entry = true;
    files[2].is_entry = true;
    files[2].is_test = true;
    let g = graph(files, vec![vec![1], vec![], vec![3], vec![], vec![]]);
    let r = noslop::reach::Reach::compute(&g);
    assert_eq!(r.prod_reachable, vec![true, true, false, false, false]);
    assert_eq!(r.test_reachable, vec![false, false, true, true, false]);
    assert_eq!(r.reachable, vec![true, true, true, true, false]);
}

#[test]
fn ignored_paths_drop_findings() {
    let mut config = Config::defaults();
    config.ignore = vec!["**/generated/**".to_string()];
    assert!(config.is_ignored("src/generated/api.ts"));
    assert!(!config.is_ignored("src/api.ts"));
    let raw = vec![finding(RuleId::UnusedFile, "src/generated/api.ts", 1), finding(RuleId::UnusedFile, "src/api.ts", 1)];
    let (kept, suppressed) = postprocess(raw, &[], &config);
    assert_eq!(suppressed, 0);
    assert_eq!(kept.len(), 1);
    assert_eq!(kept[0].file, "src/api.ts");
}

#[test]
fn configured_severities_apply() {
    let doc = Doc::Table(vec![(
        "rules".to_string(),
        Doc::Table(vec![
            ("unused-file".to_string(), Doc::Str("error".to_string())),
            ("circular-imports".to_string(), Doc::Table(vec![("level".to_string(), Doc::Str("off".to_string()))])),
        ]),
    )]);
    let config = Config::from_doc(&doc, &Vec::new());
    assert_eq!(config.severity_for(RuleId::UnusedFile, Severity::Warn), Severity::Error);
    assert_eq!(config.severity_for(RuleId::UnusedImport, Severity::Warn), Severity::Warn);
    let raw = vec![finding(RuleId::UnusedFile, "a.ts", 1), finding(RuleId::CircularImports, "b.py", 1)];
    let (kept, _) = postprocess(raw, &[], &config);
    assert_eq!(kept.len(), 1);
    assert_eq!(kept[0].severity, Severity::Error);
}

#[test]
fn dead_files_spare_configs_declarations_and_entries() {
    let mut files = vec![
        node(0, "src/main.ts", Language::TypeScript),
        node(1, "src/orphan.ts", Language::TypeScript),
        node(2, "vite.config.ts", Language::TypeScript),
        node(3, "src/env.d.ts", Language::TypeScript),
        node(4, "test/a.test.ts", Language::TypeScript),
        node(5, "src/helper.ts", Language::TypeScript),
        node(6, "src/plugin.ts", Language::TypeScript),
    ];
    files[0].is_entry = true;
    files[2].role = FileRole::Config;
    files[3].role = FileRole::TypeDecl;
    files[4].is_entry = true;
    files[4].is_test = true;
    files[6].is_implicit_used = true;
    let g = graph(files, vec![vec![], vec![], vec![], vec![], vec![5], vec![], vec![]]);
    let r = noslop::reach::Reach::compute(&g);
    let out = noslop::dead_files::run(&g, &r);
    assert_eq!(out.len(), 2);
    assert_eq!(out[0].rule, RuleId::UnusedFile);
    assert_eq!(out[0].file, "src/orphan.ts");
    assert_eq!(out[0].confidence, Confidence::High);
    assert_eq!(out[0].message, "File 'src/orphan.ts' is not reachable from any entry point.");
    assert_eq!(out[1].rule, RuleId::OnlyUsedInTests);
    assert_eq!(out[1].file, "src/helper.ts");
    assert_eq!(out[1].message, "File 'src/helper.ts' is only reachable from test files.");
}

#[test]
fn dead_package_init_is_low_confidence() {
    let mut files = vec![
        node(0, "main.py", Language::Python),
        node(1, "pkg/__init__.py", Language::Python),
        node(2, "pkg/mod.py", Language::Python),
    ];
    files[0].is_entry = true;
    files[1].role = FileRole::PackageInit;
    let g = graph(files, vec![vec![], vec![], vec![]]);
    let r = noslop::reach::Reach::compute(&g);
    let out = noslop::dead_files::run(&g, &r);
    assert_eq!(out.len(), 2);
    assert_eq!(out[0].file, "pkg/__init__.py");
    assert_eq!(out[0].confidence, Confidence::Low);
    assert_eq!(out[0].message, "Package 'pkg' has no reachable modules.");
    assert_eq!(out[1].file, "pkg/mod.py");
}

#[test]
fn unused_imports_are_high_confidence() {
    let g = graph(vec![node(0, "src/a.ts", Language::TypeScript)], vec![vec![]]);
    let mut f = facts("src/a.ts", Vec::new());
    f.imports.push(RawImport {
        specifier: "./b".to_string(),
        names: vec![
            ImportedName { imported: "x".to_string(), local: "x".to_string() },
            ImportedName { imported: "y".to_string(), local: "z".to_string() },
        ],
        kind: ImportKind::Static,
        is_namespace: false,
        is_type_only: false,
        is_reexport: false,
        span: Span::new(1, 1),
    });
    f.refs.push(RawRef { name: "x".to_string() });
    let out = noslop::imports::run(&g, &[f]);
    assert_eq!(out.len(), 1);
    assert_eq!(out[0].rule, RuleId::UnusedImport);
    assert_eq!(out[0].confidence, Confidence::High);
    assert_eq!(out[0].message, "'z' is imported from './b' but never used.");
}

#[test]
fn reasonless_suppressions_and_tags_are_reported() {
    let mut f = facts(
        "src/a.ts",
        vec![
            Suppression { rule: "unused-export".to_string(), file_scoped: false, line: 4, reason: None },
            Suppression { rule: "unused-file".to_string(), file_scoped: true, line: 1, reason: Some("generated".to_string()) },
        ],
    );
    f.annotations = vec![
        Annotation { visibility: Visibility::ExpectedUnused, line: 9, reason: None },
        Annotation { visibility: Visibility::Public, line: 12, reason: None },
        Annotation { visibility: Visibility::ExpectedUnused, line: 20, reason: Some("soon".to_string()) },
    ];
    let out = noslop::postprocess::missing_reason_findings(&[f], Severity::Error);
    assert_eq!(out.len(), 2);
    assert_eq!(out[0].rule, RuleId::MissingSuppressionReason);
    assert_eq!(out[0].severity, Severity::Error);
    assert_eq!(out[0].span, Span::new(4, 4));
    assert_eq!(out[0].message, "This suppression comment is missing a `-- <reason>`.");
    assert_eq!(out[1].span, Span::new(9, 9));
    assert_eq!(out[1].message, "This @expected-unused tag is missing a `-- <reason>`.");
}

#[test]
fn suppressions_cover_their_rule_and_line() {
    let f = facts(
        "src/a.ts",
        vec![
            Suppression { rule: "unused-export".to_string(), file_scoped: false, line: 4, reason: None },
            Suppression { rule: "unused-file".to_string(), file_scoped: true, line: 1, reason: None },
        ],
    );
    let facts_list = [f];
    let mut on_line = finding(RuleId::UnusedExport, "src/a.ts", 3);
    on_line.span = Span::new(3, 5);
    assert!(noslop::postprocess::is_suppressed(&on_line, &facts_list));
    assert!(!noslop::postprocess::is_suppressed(&finding(RuleId::UnusedExport, "src/a.ts", 7), &facts_list));
    assert!(noslop::postprocess::is_suppressed(&finding(RuleId::UnusedFile, "src/a.ts", 30), &facts_list));
    assert!(!noslop::postprocess::is_suppressed(&finding(RuleId::UnusedFile, "src/b.ts", 1), &facts_list));
}

#[test]
fn configs_and_decls_are_never_unused_files() {
    let paths = [
        ("eslint.config.mjs", "mjs"),
        ("next-env.d.ts", "ts"),
        ("pkg/__init__.py", "py"),
        ("pkg/sub/__init__.py", "py"),
        ("pkg/sub/mod.py", "py"),
        ("main.py", "py"),
        ("src/lib/orphan.ts", "ts"),
    ];
    let mut files: Vec<FileNode> = Vec::new();
    for (i, (path, ext)) in paths.iter().enumerate() {
        let language = Language::from_extension(ext).unwrap();
        let mut n = node(i, path, language);
        n.role = FileRole::classify(path, language);
        files.push(n);
    }
    files[5].is_entry = true;
    let g = graph(files, vec![vec![], vec![], vec![], vec![], vec![], vec![4], vec![]]);
    let r = noslop::reach::Reach::compute(&g);
    let flagged: Vec<String> = noslop::dead_files::run(&g, &r)
        .into_iter()
        .filter(|f| f.rule.as_str() == "unused-file")
        .map(|f| f.file)
        .collect();
    for live in ["eslint.config.mjs", "next-env.d.ts", "pkg/__init__.py", "pkg/sub/__init__.py", "pkg/sub/mod.py", "main.py"] {
        assert!(!flagged.iter().any(|f| f == live), "{live} must not be reported as unused-file, got {flagged:?}");
    }
    assert!(flagged.iter().any(|f| f == "src/lib/orphan.ts"));
}
