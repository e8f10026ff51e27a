use noslop::analysis::{Layer, PolicyConfig, PolicyKind, PolicyRule, StyleConfig};
use noslop::facts::{
    CallSite, CssName, FileFacts, FileMetrics, ImportKind, RawImport, StyleFacts, SymbolKind, Visibility,
};
use noslop::finding::{Confidence, RuleId, Severity};
use noslop::ids::{FileRole, Language, Span};
use noslop::ir::{FileNode, Graph, SymbolNode};
use noslop::reach::Reach;
use noslop::workspace::{ManifestKind, Package, Workspace};

fn file(id: usize, path: &str, language: Language, entry: bool) -> FileNode {
    FileNode {
        id,
        path: path.to_string(),
        language,
        is_entry: entry,
        is_test: false,
        is_implicit_used: false,
        package: "web".to_string(),
        role: FileRole::Source,
    }
}

fn graph_of(files: Vec<FileNode>, imports: Vec<Vec<usize>>) -> Graph {
    let n = files.len();
    let mut imported_by = vec![Vec::new(); n];
    for (a, targets) in imports.iter().enumerate() {
        for &b in targets {
            imported_by[b].push(a);
        }
    }
    Graph {
        files,
        symbols: Vec::new(),
        imports,
        imported_by,
        imported_names: vec![Vec::new(); n],
        external_used: Vec::new(),
        dynamic_packages: Vec::new(),
        string_literals: Vec::new(),
        accessed_members: Vec::new(),
    }
}

fn symbol(file: usize, name: &str, kind: SymbolKind, parent: Option<&str>) -> SymbolNode {
    let dotted = match parent {
        Some(p) => format!("{p}.{name}"),
        None => name.to_string(),
    };
    SymbolNode {
        id: format!("f{file}::{dotted}"),
        name: name.to_string(),
        kind,
        file,
        span: Span::new(3, 4),
        exported: false,
        is_type_only: false,
        parent: parent.map(|p| p.to_string()),
        visibility: None,
    }
}

fn empty_facts(path: &str) -> FileFacts {
    FileFacts {
        file: 0,
        path: path.to_string(),
        language: Language::TypeScript,
        content_hash: 0,
        symbols: Vec::new(),
        imports: Vec::new(),
        exports: Vec::new(),
        refs: Vec::new(),
        member_accesses: Vec::new(),
        markers: Vec::new(),
        suppressions: Vec::new(),
        annotations: Vec::new(),
        string_literals: Vec::new(),
        metrics: FileMetrics { loc: 0 },
        functions: Vec::new(),
        calls: Vec::new(),
        style: StyleFacts {
            declared_tokens: Vec::new(),
            var_refs: Vec::new(),
            class_selectors: Vec::new(),
            class_refs: Vec::new(),
        },
    }
}

fn package(root: &str, deps: &[&str], framework: &[&str]) -> Package {
    Package {
        id: root.to_string(),
        name: String::new(),
        root: root.to_string(),
        language: Language::TypeScript,
        manifest_kind: ManifestKind::PackageJson,
        dependencies: deps.iter().map(|d| d.to_string()).collect(),
        ts_base_url: None,
        ts_paths: Vec::new(),
        py_roots: Vec::new(),
        plugins: Vec::new(),
        framework_deps: framework.iter().map(|d| d.to_string()).collect(),
        route_decorators: Vec::new(),
    }
}

fn workspace(packages: Vec<Package>) -> Workspace {
    Workspace {
        root: "/repo".to_string(),
        packages,
        files: Vec::new(),
        entry_points: Vec::new(),
        test_files: Vec::new(),
    }
}

fn import(specifier: &str, line: u32) -> RawImport {
    RawImport {
        specifier: specifier.to_string(),
        names: Vec::new(),
        kind: ImportKind::Static,
        is_namespace: false,
        is_type_only: false,
        is_reexport: false,
        span: Span::new(line, line),
    }
}

#[test]
fn framework_deps_are_spared_and_orphan_deps_reported_in_order() {
    let mut g = graph_of(vec![file(0, "apps/web/src/page.ts", Language::TypeScript, true)], vec![vec![]]);
    g.external_used = vec!["react".to_string(), "lodash".to_string()];
    let ws = workspace(vec![package(
        "apps/web",
        &["zod", "react", "next", "left-pad", "@types/node", "@types/lodash", "@types/jest", "react"],
        &["next"],
    )]);
    let out = noslop::deps::run(&g, &ws);
    let names: Vec<&str> = out.iter().map(|f| f.message.as_str()).collect();
    assert_eq!(
        names,
        vec![
            "Declared dependency '@types/jest' is never imported.",
            "Declared dependency 'left-pad' is never imported.",
            "Declared dependency 'zod' is never imported.",
        ]
    );
    assert!(out.iter().all(|f| f.file == "apps/web/package.json"));
    assert!(out.iter().all(|f| f.confidence == Confidence::Medium && f.rule == RuleId::UnusedDependency));
}

#[test]
fn packages_without_manifest_report_no_dependencies() {
    let g = graph_of(vec![file(0, "src/a.ts", Language::TypeScript, true)], vec![vec![]]);
    let mut p = package("src", &["zod"], &[]);
    p.manifest_kind = ManifestKind::Implicit;
    assert!(noslop::deps::run(&g, &workspace(vec![p])).is_empty());
}

#[test]
fn unused_members_and_parameters_spare_accessed_and_public_ones() {
    let mut g = graph_of(vec![file(0, "src/color.ts", Language::TypeScript, true)], vec![vec![]]);
    g.accessed_members = vec!["Red".to_string(), "liveSecret".to_string()];
    let mut public = symbol(0, "api", SymbolKind::Method, Some("Widget"));
    public.visibility = Some(Visibility::Public);
    g.symbols = vec![
        symbol(0, "Red", SymbolKind::EnumMember, Some("Color")),
        symbol(0, "Green", SymbolKind::EnumMember, Some("Color")),
        symbol(0, "deadSecret", SymbolKind::Field, Some("Widget")),
        symbol(0, "liveSecret", SymbolKind::Field, Some("Widget")),
        public,
        symbol(0, "deadArg", SymbolKind::Parameter, Some("render")),
        symbol(0, "render", SymbolKind::Function, None),
    ];
    let r = Reach::compute(&g);
    let out = noslop::symbols::run(&g, &r);
    let msgs: Vec<&str> = out.iter().map(|f| f.message.as_str()).collect();
    assert_eq!(
        msgs,
        vec![
            "Enum member 'Color.Green' is never accessed.",
            "Private member 'Widget.deadSecret' is never accessed.",
            "Parameter 'render.deadArg' is never used in its body.",
        ]
    );
    assert_eq!(out[0].rule, RuleId::UnusedEnumMember);
    assert_eq!(out[1].rule, RuleId::UnusedClassMember);
    assert_eq!(out[2].rule, RuleId::UnusedParameter);
    assert_eq!(out[0].symbol.as_deref(), Some("f0::Color.Green"));
}

#[test]
fn symbols_in_unreachable_files_are_left_to_unused_file() {
    let mut g = graph_of(vec![file(0, "src/orphan.ts", Language::TypeScript, false)], vec![vec![]]);
    g.symbols = vec![symbol(0, "Green", SymbolKind::EnumMember, Some("Color"))];
    let r = Reach::compute(&g);
    assert!(noslop::symbols::run(&g, &r).is_empty());
}

#[test]
fn only_the_dead_export_is_reported() {
    let mut g = graph_of(
        vec![
            file(0, "src/main.ts", Language::TypeScript, true),
            file(1, "src/format.ts", Language::TypeScript, false),
        ],
        vec![vec![1], vec![]],
    );
    g.imported_names[1] = vec!["formatPrice".to_string()];
    let mut used = symbol(1, "formatPrice", SymbolKind::Function, None);
    used.exported = true;
    let mut dead = symbol(1, "formatDead", SymbolKind::Function, None);
    dead.exported = true;
    let mut local_only = symbol(1, "formatLocalOnly", SymbolKind::Function, None);
    local_only.exported = true;
    let mut dead_type = symbol(1, "Price", SymbolKind::Type, None);
    dead_type.exported = true;
    g.symbols = vec![used, dead, local_only, dead_type];
    let mut f = empty_facts("src/format.ts");
    f.refs = vec![
        noslop::facts::RawRef { name: "formatLocalOnly".to_string() },
        noslop::facts::RawRef { name: "formatLocalOnly".to_string() },
    ];
    let r = Reach::compute(&g);
    let out = noslop::exports::run(&g, &r, &[f], &workspace(Vec::new()));
    assert_eq!(out.len(), 3);
    assert_eq!(out[0].symbol.as_deref(), Some("f1::formatDead"));
    assert_eq!(out[0].rule, RuleId::UnusedExport);
    assert_eq!(out[0].confidence, Confidence::High);
    assert_eq!(out[0].message, "Exported function 'formatDead' has no references from any live file.");
    assert_eq!(out[1].symbol.as_deref(), Some("f1::formatLocalOnly"));
    assert_eq!(out[1].confidence, Confidence::Medium);
    assert_eq!(
        out[1].reason,
        "0 inbound reference edges; file reachable; symbol is referenced inside its defining file"
    );
    assert_eq!(out[2].rule, RuleId::UnusedType);
    assert_eq!(out[2].message, "Exported type 'Price' has no references from any live file.");
}

#[test]
fn expected_unused_export_is_reported_once_used() {
    let mut g = graph_of(
        vec![
            file(0, "src/main.ts", Language::TypeScript, true),
            file(1, "src/util.ts", Language::TypeScript, false),
        ],
        vec![vec![1], vec![]],
    );
    g.imported_names[1] = vec!["helper".to_string()];
    let mut s = symbol(1, "helper", SymbolKind::Function, None);
    s.exported = true;
    s.visibility = Some(Visibility::ExpectedUnused);
    g.symbols = vec![s];
    let r = Reach::compute(&g);
    let out = noslop::exports::run(&g, &r, &[], &workspace(Vec::new()));
    assert_eq!(out.len(), 1);
    assert_eq!(out[0].rule, RuleId::ExpectedUnusedButUsed);
    assert_eq!(
        out[0].message,
        "'helper' is marked @expected-unused but is now referenced \u{2014} drop the annotation."
    );
}

#[test]
fn css_tokens_references_and_classes() {
    let mut css = empty_facts("src/app.css");
    css.language = Language::Css;
    css.style.declared_tokens = vec![
        CssName { name: "--brand".to_string(), span: Span::new(2, 2) },
        CssName { name: "--dead-token".to_string(), span: Span::new(3, 3) },
        CssName { name: "--from-js".to_string(), span: Span::new(4, 4) },
    ];
    css.style.var_refs = vec!["--brand".to_string(), "--missing".to_string()];
    css.style.class_selectors = vec![
        CssName { name: "card".to_string(), span: Span::new(6, 6) },
        CssName { name: "ghost".to_string(), span: Span::new(9, 9) },
    ];
    let mut tsx = empty_facts("src/page.tsx");
    tsx.style.class_refs = vec!["card".to_string()];
    tsx.string_literals = vec!["color: var(--from-js)".to_string()];
    let out = noslop::style::run(&[css, tsx], &StyleConfig { enabled: true });
    let msgs: Vec<&str> = out.iter().map(|f| f.message.as_str()).collect();
    assert_eq!(
        msgs,
        vec![
            "Custom property '--dead-token' is declared but never referenced.",
            "var(--missing) references an undeclared custom property.",
            "Class selector '.ghost' is never used in markup.",
        ]
    );
    assert_eq!(out[0].rule, RuleId::UnusedCssToken);
    assert_eq!(out[0].span, Span::new(3, 3));
    assert_eq!(out[1].rule, RuleId::BrokenCssReference);
    assert_eq!(out[2].rule, RuleId::UnusedCssClass);
    assert_eq!(out[2].confidence, Confidence::Medium);
}

#[test]
fn style_pass_can_be_disabled() {
    let mut css = empty_facts("src/app.css");
    css.style.declared_tokens = vec![CssName { name: "--dead".to_string(), span: Span::new(1, 1) }];
    assert!(noslop::style::run(&[css], &StyleConfig { enabled: false }).is_empty());
}

#[test]
fn var_refs_are_collected_from_css_text() {
    let mut out = vec!["--seen".to_string()];
    noslop::style::collect_var_refs("a { color: var(--a); margin: var( --b , 2px) } var(x)", &mut out);
    assert_eq!(out, vec!["--seen".to_string(), "--a".to_string(), "--b".to_string()]);
}

fn rule(id: &str, kind: PolicyKind, patterns: &[&str], paths: &[&str], hint: Option<&str>) -> PolicyRule {
    PolicyRule {
        id: id.to_string(),
        kind,
        patterns: patterns.iter().map(|p| p.to_string()).collect(),
        paths: paths.iter().map(|p| p.to_string()).collect(),
        severity: Severity::Error,
        hint: hint.map(|h| h.to_string()),
    }
}

#[test]
fn banned_import_call_and_effect_fire() {
    let g = graph_of(
        vec![
            file(0, "src/domain/order.ts", Language::TypeScript, true),
            file(1, "worker/job.py", Language::Python, true),
        ],
        vec![vec![], vec![]],
    );
    let mut ts = empty_facts("src/domain/order.ts");
    ts.imports = vec![import("moment", 1), import("./price", 2)];
    ts.calls = vec![CallSite { callee: "fetch".to_string(), span: Span::new(7, 7) }];
    let mut py = empty_facts("worker/job.py");
    py.calls = vec![CallSite { callee: "subprocess.run".to_string(), span: Span::new(5, 5) }];
    let policy = PolicyConfig {
        rules: vec![
            rule("no-moment", PolicyKind::BannedImport, &["moment"], &[], Some("use date-fns")),
            rule("no-subprocess", PolicyKind::BannedCall, &["subprocess.*"], &[], None),
            rule("pure-domain", PolicyKind::BannedEffect, &["network"], &["src/domain/**"], None),
        ],
        layers: Vec::new(),
    };
    let out = noslop::policy::run(&g, &[ts, py], &policy);
    let msgs: Vec<&str> = out.iter().map(|f| f.message.as_str()).collect();
    assert_eq!(
        msgs,
        vec![
            "Policy 'no-moment' forbids this import of 'moment' — use date-fns.",
            "Policy 'pure-domain' forbids this call to 'fetch'.",
            "Policy 'no-subprocess' forbids this call to 'subprocess.run'.",
        ]
    );
    assert_eq!(out[0].rule, RuleId::BannedImport);
    assert_eq!(out[1].rule, RuleId::BannedEffect);
    assert_eq!(out[2].rule, RuleId::BannedCall);
    assert_eq!(out[2].severity, Severity::Error);
    assert_eq!(out[2].reason, "matched policy rule 'no-subprocess'");
}

#[test]
fn layered_boundary_violation_fires_once() {
    let g = graph_of(
        vec![
            file(0, "src/domain/order.ts", Language::TypeScript, true),
            file(1, "src/infrastructure/db.ts", Language::TypeScript, false),
            file(2, "src/app/main.ts", Language::TypeScript, true),
        ],
        vec![vec![1], vec![], vec![0, 1]],
    );
    let layers = vec![
        Layer { name: "domain".to_string(), paths: vec!["src/domain/**".to_string()], allow: Vec::new() },
        Layer {
            name: "infrastructure".to_string(),
            paths: vec!["src/infrastructure/**".to_string()],
            allow: vec!["domain".to_string()],
        },
        Layer {
            name: "app".to_string(),
            paths: vec!["src/app/**".to_string()],
            allow: vec!["domain".to_string(), "infrastructure".to_string()],
        },
    ];
    let out = noslop::policy::run(&g, &[], &PolicyConfig { rules: Vec::new(), layers });
    assert_eq!(out.len(), 1);
    assert_eq!(out[0].rule, RuleId::BoundaryViolation);
    assert_eq!(
        out[0].message,
        "Layer 'domain' must not import layer 'infrastructure' (src/domain/order.ts → src/infrastructure/db.ts)."
    );
    assert_eq!(out[0].reason, "'infrastructure' is not in the allow-list of layer 'domain'");
}

#[test]
fn empty_policy_reports_nothing() {
    let g = graph_of(vec![file(0, "a.ts", Language::TypeScript, true)], vec![vec![]]);
    let mut f = empty_facts("a.ts");
    f.imports = vec![import("moment", 1)];
    let out = noslop::policy::run(&g, &[f], &PolicyConfig { rules: Vec::new(), layers: Vec::new() });
    assert!(out.is_empty());
}
