use noslop::discover::manifest::{
    dep_name, entry_target_candidates, package_json_from_doc, parse_package_json, parse_pyproject, parse_tsconfig,
    pyproject_from_doc, resolve_entry_target, tsconfig_from_doc,
    strip_jsonc,
};
use noslop::discover::plugin_def::DetectRule;
use noslop::doc::Doc;
use noslop::ids::Language;
use noslop::discover::packages::{augment_entries_with_facts, manifest_kind, package_route_decorator, python_roots};
use noslop::facts::Marker;
use noslop::workspace::{DiscoveredFile, ManifestKind, Package, Workspace};

fn pkg(deps: &[&str]) -> Package {
    Package {
        id: "t".into(),
        name: "t".into(),
        root: String::new(),
        language: Language::TypeScript,
        manifest_kind: ManifestKind::PackageJson,
        dependencies: deps.iter().map(|d| (*d).to_string()).collect(),
        ts_base_url: None,
        ts_paths: Vec::new(),
        py_roots: Vec::new(),
        plugins: Vec::new(),
        framework_deps: Vec::new(),
        route_decorators: Vec::new(),
    }
}

#[test]
fn detect_dependency_matches() {
    let rule = DetectRule {
        dependency: Some("next".into()),
        ..Default::default()
    };
    assert!(rule.matches(&pkg(&["next"]), &Vec::new()));
    assert!(!rule.matches(&pkg(&[]), &Vec::new()));
}

#[test]
fn detect_any_combinator() {
    let rule = DetectRule {
        any: vec![
            DetectRule {
                dependency: Some("vitest".into()),
                ..Default::default()
            },
            DetectRule {
                file_exists: Some("vitest.config.ts".into()),
                ..Default::default()
            },
        ],
        ..Default::default()
    };
    assert!(rule.matches(&pkg(&["vitest"]), &Vec::new()));
}

#[test]
fn detect_dependency_prefix_matches() {
    let rule = DetectRule {
        dependency: Some("@sanity/".into()),
        ..Default::default()
    };
    let pkg = pkg(&["@sanity/client"]);
    assert!(rule.matches(&pkg, &Vec::new()));
}

fn s(v: &str) -> Doc {
    Doc::Str(v.to_string())
}

fn t(entries: Vec<(&str, Doc)>) -> Doc {
    Doc::Table(entries.into_iter().map(|(k, v)| (k.to_string(), v)).collect())
}

fn strings(v: &[&str]) -> Vec<String> {
    v.iter().map(|x| x.to_string()).collect()
}

#[test]
fn jsonc_comments_are_stripped_outside_strings() {
    let text = "{ // note\n  \"a\": \"http://x\", /* block */ \"b\": 1 }";
    assert_eq!(strip_jsonc(text), "{ \n  \"a\": \"http://x\",  \"b\": 1 }");
    assert_eq!(strip_jsonc("\"a\\\"//b\" // c"), "\"a\\\"//b\" ");
}

#[test]
fn requirement_names_drop_versions_and_extras() {
    assert_eq!(dep_name("fastapi>=0.100"), "fastapi");
    assert_eq!(dep_name("  uvicorn[standard] "), "uvicorn");
    assert_eq!(dep_name("requests ; python_version<'3.8'"), "requests");
    assert_eq!(dep_name("plain"), "plain");
}

#[test]
fn package_json_fields() {
    let doc = t(vec![
        ("name", s("web")),
        ("dependencies", t(vec![("react", s("18")), ("next", s("14"))])),
        ("devDependencies", t(vec![("vitest", s("1")), ("react", s("18"))])),
        ("peerDependencies", t(vec![("zod", s("3"))])),
        ("workspaces", t(vec![("packages", Doc::Array(vec![s("apps/*"), Doc::Int(3), s("libs/*")]))])),
        ("main", s("dist/index.js")),
        ("bin", t(vec![("cli", s("bin/cli.js")), ("other", Doc::Bool(true))])),
    ]);
    let p = package_json_from_doc(&doc);
    assert_eq!(p.name.as_deref(), Some("web"));
    assert_eq!(p.dependencies, strings(&["react", "next", "vitest", "zod"]));
    assert_eq!(p.workspaces, strings(&["apps/*", "libs/*"]));
    assert_eq!(p.entry_targets, strings(&["dist/index.js", "bin/cli.js"]));
    let arr = package_json_from_doc(&t(vec![("workspaces", Doc::Array(vec![s("pkgs/*")])), ("bin", s("cli.js"))]));
    assert_eq!(arr.workspaces, strings(&["pkgs/*"]));
    assert_eq!(arr.entry_targets, strings(&["cli.js"]));
    assert!(arr.name.is_none());
}

#[test]
fn tsconfig_resolution_settings() {
    let doc = t(vec![(
        "compilerOptions",
        t(vec![
            ("baseUrl", s(".")),
            ("paths", t(vec![("@/*", Doc::Array(vec![s("src/*"), Doc::Null])), ("~/*", s("bad"))])),
        ]),
    )]);
    let c = tsconfig_from_doc(&doc);
    assert_eq!(c.base_url.as_deref(), Some("."));
    assert_eq!(
        c.paths,
        vec![("@/*".to_string(), strings(&["src/*"])), ("~/*".to_string(), Vec::new())]
    );
    let none = tsconfig_from_doc(&t(vec![("include", Doc::Array(Vec::new()))]));
    assert!(none.base_url.is_none() && none.paths.is_empty());
}

#[test]
fn pyproject_fields() {
    let doc = t(vec![
        (
            "project",
            t(vec![
                ("name", s("svc")),
                ("dependencies", Doc::Array(vec![s("fastapi>=0.100"), s("uvicorn[standard]")])),
                ("scripts", t(vec![("serve", s("svc.main:run")), ("tool", s("svc.tool"))])),
            ]),
        ),
        ("tool", t(vec![("poetry", t(vec![("dependencies", t(vec![("python", s("^3.11")), ("httpx", s("*")), ("fastapi", s("*"))]))]))])),
    ]);
    let p = pyproject_from_doc(&doc, true);
    assert_eq!(p.name.as_deref(), Some("svc"));
    assert_eq!(p.dependencies, strings(&["fastapi", "uvicorn", "httpx"]));
    assert_eq!(p.script_modules, strings(&["svc.main", "svc.tool"]));
    assert!(p.src_layout);
}

#[test]
fn entry_target_candidates_by_language() {
    assert_eq!(
        entry_target_candidates("apps/web", "dist/index.js", false),
        strings(&["apps/web/dist/index.js", "apps/web/dist/index.ts", "apps/web/dist/index.tsx", "apps/web/dist/index.mts"])
    );
    assert_eq!(
        entry_target_candidates("svc", "svc.main", true),
        strings(&["svc/svc/main.py", "svc/svc/main/__main__.py"])
    );
    let present = strings(&["apps/web/dist/index.tsx", "apps/web/dist/index.mts"]);
    assert_eq!(
        resolve_entry_target("apps/web", "dist/index.js", false, &present).as_deref(),
        Some("apps/web/dist/index.tsx")
    );
    assert!(resolve_entry_target("apps/web", "cli.cjs", false, &present).is_none());
}

fn facts_with_markers(path: &str, markers: Vec<noslop::facts::Marker>) -> noslop::facts::FileFacts {
    noslop::facts::FileFacts {
        file: 0,
        path: path.to_string(),
        language: Language::Python,
        content_hash: 0,
        symbols: Vec::new(),
        imports: Vec::new(),
        exports: Vec::new(),
        refs: Vec::new(),
        member_accesses: Vec::new(),
        markers,
        suppressions: Vec::new(),
        annotations: Vec::new(),
        string_literals: Vec::new(),
        metrics: noslop::facts::FileMetrics { loc: 0 },
        functions: Vec::new(),
        calls: Vec::new(),
        style: noslop::facts::StyleFacts {
            declared_tokens: Vec::new(),
            var_refs: Vec::new(),
            class_selectors: Vec::new(),
            class_refs: Vec::new(),
        },
    }
}

#[test]
fn route_module_becomes_entry_after_facts() {
    let mut api = pkg(&["fastapi"]);
    api.id = "acme-api".into();
    api.root = "apps/api".into();
    api.language = Language::Python;
    api.manifest_kind = ManifestKind::PyProject;
    api.plugins = vec!["fastapi".into()];
    api.route_decorators = vec!["get".into(), "post".into()];
    let file = |rel: &str| DiscoveredFile {
        rel_path: rel.into(),
        abs_path: format!("/repo/{rel}"),
        language: Language::Python,
        package: "acme-api".into(),
        role: noslop::ids::FileRole::Source,
    };
    let mut ws = Workspace {
        root: "/repo".into(),
        packages: vec![api],
        files: vec![file("apps/api/app/routes.py"), file("apps/api/app/util.py"), file("apps/api/app/main.py")],
        entry_points: vec!["apps/api/app/main.py".into()],
        test_files: Vec::new(),
    };
    assert!(package_route_decorator(&ws, "acme-api", "router.get"));
    assert!(!package_route_decorator(&ws, "acme-api", "functools.cache"));
    assert!(!package_route_decorator(&ws, "other", "router.get"));
    let facts = vec![
        facts_with_markers("apps/api/app/routes.py", vec![Marker::Decorator { dotted: "router.get".into(), on_symbol: "items".into() }]),
        facts_with_markers("apps/api/app/util.py", vec![Marker::Decorator { dotted: "functools.cache".into(), on_symbol: "f".into() }]),
        facts_with_markers("apps/api/app/main.py", vec![Marker::Decorator { dotted: "app.post".into(), on_symbol: "g".into() }]),
    ];
    augment_entries_with_facts(&mut ws, &facts);
    assert_eq!(ws.entry_points, vec!["apps/api/app/main.py".to_string(), "apps/api/app/routes.py".to_string()]);
}

#[test]
fn manifest_kinds_and_python_roots() {
    assert_eq!(manifest_kind("package.json"), Some(ManifestKind::PackageJson));
    assert_eq!(manifest_kind("pyproject.toml"), Some(ManifestKind::PyProject));
    assert_eq!(manifest_kind("setup.cfg"), Some(ManifestKind::SetupPy));
    assert_eq!(manifest_kind("tsconfig.json"), None);
    assert_eq!(python_roots("apps/api", true), vec!["apps/api/src".to_string(), "apps/api".to_string()]);
    assert_eq!(python_roots("apps/api", false), vec!["apps/api".to_string()]);
}

#[test]
fn manifest_texts_are_parsed() {
    let p = parse_package_json("{\"name\": \"web\", \"dependencies\": {\"react\": \"18\"}, \"bin\": \"cli.js\"}");
    assert_eq!(p.name.as_deref(), Some("web"));
    assert_eq!(p.dependencies, strings(&["react"]));
    assert_eq!(p.entry_targets, strings(&["cli.js"]));
    let bad = parse_package_json("{ not json");
    assert!(bad.name.is_none() && bad.dependencies.is_empty());

    let c = parse_tsconfig("{\n  // settings\n  \"compilerOptions\": { \"baseUrl\": \"src\" /* root */, \"paths\": { \"@/*\": [\"lib/*\"] } }\n}\n");
    assert_eq!(c.base_url.as_deref(), Some("src"));
    assert_eq!(c.paths, vec![("@/*".to_string(), strings(&["lib/*"]))]);

    let py = parse_pyproject("[project]\nname = \"svc\"\ndependencies = [\"fastapi>=0.100\"]\n", true);
    assert_eq!(py.name.as_deref(), Some("svc"));
    assert_eq!(py.dependencies, strings(&["fastapi"]));
    assert!(py.src_layout);
    let broken = parse_pyproject("[project\nname = ", true);
    assert!(broken.name.is_none() && !broken.src_layout);
}
